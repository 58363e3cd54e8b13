//! Tests for the platform launcher decisions.

use claude_hooks::launcher::{
    file_access_probe_path, full_disk_access_plan, macos_sound_path, open_directory_plan,
    open_environment_variables_plan, play_sound_plan, show_in_folder_plan, windows_sound_path,
    HostOs, LaunchError, SoundPlan,
};
use claude_hooks::text::parent_of_path;

#[test]
fn reveal_on_macos_uses_open_r() {
    let plan = show_in_folder_plan(HostOs::MacOs, "/tmp/f.txt").unwrap().unwrap();
    assert_eq!(plan.program, "open");
    assert_eq!(plan.args, vec!["-R".to_string(), "/tmp/f.txt".to_string()]);
}

#[test]
fn reveal_on_windows_uses_explorer_select() {
    let plan = show_in_folder_plan(HostOs::Windows, "C:/f.txt").unwrap().unwrap();
    assert_eq!(plan.program, "explorer");
    assert_eq!(plan.args, vec!["/select,".to_string(), "C:/f.txt".to_string()]);
}

#[test]
fn reveal_on_linux_opens_the_parent() {
    let plan = show_in_folder_plan(HostOs::Linux, "/home/u/f.txt").unwrap().unwrap();
    assert_eq!(plan.program, "xdg-open");
    assert_eq!(plan.args, vec!["/home/u".to_string()]);
}

#[test]
fn reveal_on_linux_without_parent_fails() {
    let err = show_in_folder_plan(HostOs::Linux, "/").unwrap_err();
    assert!(matches!(err, LaunchError::NoParentDirectory));
    let err = show_in_folder_plan(HostOs::Linux, "").unwrap_err();
    assert!(matches!(err, LaunchError::NoParentDirectory));
}

#[test]
fn reveal_on_linux_bare_name_opens_empty_parent() {
    let plan = show_in_folder_plan(HostOs::Linux, "bare-name").unwrap().unwrap();
    assert_eq!(plan.program, "xdg-open");
    assert_eq!(plan.args, vec![String::new()]);
}

#[test]
fn reveal_elsewhere_spawns_nothing() {
    assert!(show_in_folder_plan(HostOs::Other, "/x").unwrap().is_none());
}

#[test]
fn open_directory_by_platform() {
    let mac = open_directory_plan(HostOs::MacOs, "/d").unwrap();
    assert_eq!((mac.program.as_str(), mac.args[0].as_str()), ("open", "/d"));
    let win = open_directory_plan(HostOs::Windows, "C:/d").unwrap();
    assert_eq!((win.program.as_str(), win.args[0].as_str()), ("explorer", "C:/d"));
    let lin = open_directory_plan(HostOs::Linux, "/d").unwrap();
    assert_eq!((lin.program.as_str(), lin.args[0].as_str()), ("xdg-open", "/d"));
    assert!(open_directory_plan(HostOs::Other, "/d").is_none());
}

#[test]
fn parent_of_path_cases() {
    assert_eq!(parent_of_path("/a/b").unwrap(), "/a");
    assert_eq!(parent_of_path("/a").unwrap(), "/");
    assert_eq!(parent_of_path("a/b/").unwrap(), "a");
    assert_eq!(parent_of_path("a//b").unwrap(), "a");
    assert_eq!(parent_of_path("bare").unwrap(), "");
    assert!(parent_of_path("/").is_none());
    assert!(parent_of_path("//").is_none());
    assert!(parent_of_path("").is_none());
}

#[test]
fn windows_sound_table_is_case_insensitive() {
    assert_eq!(
        windows_sound_path("GLASS"),
        "C:\\Windows\\Media\\Windows Notify System Generic.wav"
    );
    assert_eq!(
        windows_sound_path("Basso"),
        "C:\\Windows\\Media\\Windows Critical Stop.wav"
    );
    assert_eq!(
        windows_sound_path("funk"),
        "C:\\Windows\\Media\\Windows Critical Stop.wav"
    );
    assert_eq!(windows_sound_path("bLoW"), "C:\\Windows\\Media\\Windows Balloon.wav");
    assert_eq!(windows_sound_path("bottle"), "C:\\Windows\\Media\\Windows Balloon.wav");
    assert_eq!(windows_sound_path("frog"), "C:\\Windows\\Media\\Windows Ringin.wav");
    assert_eq!(windows_sound_path("hero"), "C:\\Windows\\Media\\Windows Logon.wav");
    assert_eq!(
        windows_sound_path("morse"),
        "C:\\Windows\\Media\\Windows Notify Messaging.wav"
    );
    assert_eq!(
        windows_sound_path("purr"),
        "C:\\Windows\\Media\\Windows Proximity Notification.wav"
    );
    assert_eq!(windows_sound_path("sosumi"), "C:\\Windows\\Media\\Windows Exclamation.wav");
    assert_eq!(
        windows_sound_path("Submarine"),
        "C:\\Windows\\Media\\Windows Notify Calendar.wav"
    );
    assert_eq!(
        windows_sound_path("tink"),
        "C:\\Windows\\Media\\Windows Navigation Start.wav"
    );
    assert_eq!(
        windows_sound_path("ping"),
        "C:\\Windows\\Media\\Windows Notify System Generic.wav"
    );
    assert_eq!(
        windows_sound_path("pop"),
        "C:\\Windows\\Media\\Windows Notify System Generic.wav"
    );
}

#[test]
fn unknown_sound_maps_to_generic_notification() {
    assert_eq!(
        windows_sound_path("no-such-sound"),
        "C:\\Windows\\Media\\Windows Notify System Generic.wav"
    );
}

#[test]
fn sound_plans_by_platform() {
    match play_sound_plan(HostOs::MacOs, "Glass").unwrap() {
        SoundPlan::Spawn(p) => {
            assert_eq!(p.program, "afplay");
            assert_eq!(p.args, vec!["/System/Library/Sounds/Glass.aiff".to_string()]);
        }
        _ => panic!("expected a spawn plan"),
    }
    match play_sound_plan(HostOs::Linux, "Glass").unwrap() {
        SoundPlan::SpawnWithFallback(first, second) => {
            assert_eq!(first.program, "paplay");
            assert_eq!(
                first.args,
                vec!["/usr/share/sounds/freedesktop/stereo/complete.oga".to_string()]
            );
            assert_eq!(second.program, "aplay");
            assert_eq!(second.args, vec!["/usr/share/sounds/alsa/Front_Center.wav".to_string()]);
        }
        _ => panic!("expected a fallback plan"),
    }
    match play_sound_plan(HostOs::Windows, "Glass").unwrap() {
        SoundPlan::Decode(path) => {
            assert_eq!(path, "C:\\Windows\\Media\\Windows Notify System Generic.wav");
        }
        _ => panic!("expected a decode plan"),
    }
    assert!(play_sound_plan(HostOs::Other, "Glass").is_none());
}

#[test]
fn macos_sound_path_appends_aiff() {
    assert_eq!(macos_sound_path("Hero"), "/System/Library/Sounds/Hero.aiff");
}

#[test]
fn environment_variables_dialog_is_windows_only() {
    let plan = open_environment_variables_plan(HostOs::Windows).unwrap();
    assert_eq!(plan.program, "rundll32");
    assert_eq!(plan.args, vec!["sysdm.cpl,EditEnvironmentVariables".to_string()]);
    assert!(matches!(
        open_environment_variables_plan(HostOs::MacOs),
        Err(LaunchError::Unsupported)
    ));
    assert!(matches!(
        open_environment_variables_plan(HostOs::Linux),
        Err(LaunchError::Unsupported)
    ));
}

#[test]
fn full_disk_access_pane_is_macos_only() {
    let plan = full_disk_access_plan(HostOs::MacOs).unwrap();
    assert_eq!(plan.program, "open");
    assert_eq!(
        plan.args,
        vec![
            "x-apple.systempreferences:com.apple.preference.security?Privacy_AllFiles".to_string()
        ]
    );
    assert!(matches!(full_disk_access_plan(HostOs::Windows), Err(LaunchError::Unsupported)));
}

#[test]
fn file_access_probe_path_cases() {
    assert_eq!(
        file_access_probe_path(HostOs::MacOs, Some("/p".to_string()), Some("/home/u")).unwrap(),
        "/p"
    );
    assert_eq!(
        file_access_probe_path(HostOs::MacOs, None, Some("/Users/u")).unwrap(),
        "/Users/u/Documents"
    );
    assert_eq!(file_access_probe_path(HostOs::MacOs, None, None).unwrap(), "/Users");
    assert!(file_access_probe_path(HostOs::Linux, Some("/p".to_string()), None).is_none());
    assert!(file_access_probe_path(HostOs::Windows, None, None).is_none());
}
