//! Platform launcher decisions: which program to spawn, with which
//! arguments, for each host operation. Spawning itself is the caller's I/O;
//! everything decided here is exact.

use vstd::prelude::*;

use vstd::string::StringExecFns;

use crate::text::{ascii_eq_ignore_case, lower_seq, path_parent, parent_of_path, str_views};

verus! {

/// The host platform, as detected at startup.
#[derive(Clone, Copy, Debug)]
pub enum HostOs {
    MacOs,
    Windows,
    Linux,
    Other,
}

/// A subprocess to start, fire-and-forget.
#[derive(Debug)]
pub struct SpawnPlan {
    pub program: String,
    pub args: Vec<String>,
}

impl View for SpawnPlan {
    type V = (Seq<char>, Seq<Seq<char>>);

    open spec fn view(&self) -> (Seq<char>, Seq<Seq<char>>) {
        (self.program@, str_views(self.args@))
    }
}

/// Why no plan could be made.
#[derive(Debug)]
pub enum LaunchError {
    /// The platform does not provide the operation.
    Unsupported,
    /// The path has no parent directory to open.
    NoParentDirectory,
}

fn plan_one(program: &str, arg: String) -> (r: SpawnPlan)
    ensures
        r@ == (program@, seq![arg@]),
{
    let mut args: Vec<String> = Vec::new();
    args.push(arg);
    proof {
        assert(str_views(args@) =~= seq![arg@]);
    }
    SpawnPlan { program: program.to_owned(), args }
}

fn plan_two(program: &str, arg0: String, arg1: String) -> (r: SpawnPlan)
    ensures
        r@ == (program@, seq![arg0@, arg1@]),
{
    let mut args: Vec<String> = Vec::new();
    args.push(arg0);
    args.push(arg1);
    proof {
        assert(str_views(args@) =~= seq![arg0@, arg1@]);
    }
    SpawnPlan { program: program.to_owned(), args }
}

/// What to spawn to reveal a path in the platform's file manager. On Linux
/// the parent directory is opened; a path without one is refused. A platform
/// without a file manager convention gets no plan.
pub fn show_in_folder_plan(os: HostOs, path: &str) -> (r: Result<Option<SpawnPlan>, LaunchError>)
    ensures
        os is MacOs ==> r is Ok && r->Ok_0 is Some && r->Ok_0->0@ == (
            "open"@,
            seq!["-R"@, path@],
        ),
        os is Windows ==> r is Ok && r->Ok_0 is Some && r->Ok_0->0@ == (
            "explorer"@,
            seq!["/select,"@, path@],
        ),
        os is Linux && path_parent(path@) is Some ==> r is Ok && r->Ok_0 is Some
            && r->Ok_0->0@ == ("xdg-open"@, seq![path_parent(path@)->0]),
        os is Linux && path_parent(path@) is None ==> r is Err
            && r->Err_0 is NoParentDirectory,
        os is Other ==> r == Ok::<Option<SpawnPlan>, LaunchError>(None),
{
    match os {
        HostOs::MacOs => Ok(Some(plan_two("open", "-R".to_owned(), path.to_owned()))),
        HostOs::Windows => Ok(Some(plan_two("explorer", "/select,".to_owned(), path.to_owned()))),
        HostOs::Linux => match parent_of_path(path) {
            Some(parent) => Ok(Some(plan_one("xdg-open", parent))),
            None => Err(LaunchError::NoParentDirectory),
        },
        HostOs::Other => Ok(None),
    }
}

/// What to spawn to open a directory in the platform's file manager.
pub fn open_directory_plan(os: HostOs, path: &str) -> (r: Option<SpawnPlan>)
    ensures
        os is MacOs ==> r is Some && r->0@ == ("open"@, seq![path@]),
        os is Windows ==> r is Some && r->0@ == ("explorer"@, seq![path@]),
        os is Linux ==> r is Some && r->0@ == ("xdg-open"@, seq![path@]),
        os is Other ==> r is None,
{
    match os {
        HostOs::MacOs => Some(plan_one("open", path.to_owned())),
        HostOs::Windows => Some(plan_one("explorer", path.to_owned())),
        HostOs::Linux => Some(plan_one("xdg-open", path.to_owned())),
        HostOs::Other => None,
    }
}

/// The Windows media file a sound name maps to, case-insensitively; an
/// unknown name maps to the generic notification sound.
pub open spec fn windows_sound_file(name: Seq<char>) -> Seq<char> {
    let l = lower_seq(name);
    if l == lower_seq("glass"@) || l == lower_seq("ping"@) || l == lower_seq("pop"@) {
        "Windows Notify System Generic.wav"@
    } else if l == lower_seq("basso"@) || l == lower_seq("funk"@) {
        "Windows Critical Stop.wav"@
    } else if l == lower_seq("blow"@) || l == lower_seq("bottle"@) {
        "Windows Balloon.wav"@
    } else if l == lower_seq("frog"@) {
        "Windows Ringin.wav"@
    } else if l == lower_seq("hero"@) {
        "Windows Logon.wav"@
    } else if l == lower_seq("morse"@) {
        "Windows Notify Messaging.wav"@
    } else if l == lower_seq("purr"@) {
        "Windows Proximity Notification.wav"@
    } else if l == lower_seq("sosumi"@) {
        "Windows Exclamation.wav"@
    } else if l == lower_seq("submarine"@) {
        "Windows Notify Calendar.wav"@
    } else if l == lower_seq("tink"@) {
        "Windows Navigation Start.wav"@
    } else {
        "Windows Notify System Generic.wav"@
    }
}

/// The full path of the Windows media file for a sound name.
pub fn windows_sound_path(name: &str) -> (r: String)
    ensures
        r@ == "C:\\Windows\\Media\\"@ + windows_sound_file(name@),
{
    let file: &str = if ascii_eq_ignore_case(name, "glass") || ascii_eq_ignore_case(name, "ping")
        || ascii_eq_ignore_case(name, "pop") {
        "Windows Notify System Generic.wav"
    } else if ascii_eq_ignore_case(name, "basso") || ascii_eq_ignore_case(name, "funk") {
        "Windows Critical Stop.wav"
    } else if ascii_eq_ignore_case(name, "blow") || ascii_eq_ignore_case(name, "bottle") {
        "Windows Balloon.wav"
    } else if ascii_eq_ignore_case(name, "frog") {
        "Windows Ringin.wav"
    } else if ascii_eq_ignore_case(name, "hero") {
        "Windows Logon.wav"
    } else if ascii_eq_ignore_case(name, "morse") {
        "Windows Notify Messaging.wav"
    } else if ascii_eq_ignore_case(name, "purr") {
        "Windows Proximity Notification.wav"
    } else if ascii_eq_ignore_case(name, "sosumi") {
        "Windows Exclamation.wav"
    } else if ascii_eq_ignore_case(name, "submarine") {
        "Windows Notify Calendar.wav"
    } else if ascii_eq_ignore_case(name, "tink") {
        "Windows Navigation Start.wav"
    } else {
        "Windows Notify System Generic.wav"
    };
    "C:\\Windows\\Media\\".to_owned().concat(file)
}

/// The macOS system sound file for a sound name.
pub fn macos_sound_path(name: &str) -> (r: String)
    ensures
        r@ == "/System/Library/Sounds/"@ + name@ + ".aiff"@,
{
    "/System/Library/Sounds/".to_owned().concat(name).concat(".aiff")
}

/// How to play a sound on the host.
#[derive(Debug)]
pub enum SoundPlan {
    /// Start this player and return.
    Spawn(SpawnPlan),
    /// Start the first player; where spawning it fails, start the second.
    SpawnWithFallback(SpawnPlan, SpawnPlan),
    /// Decode and play this file in process, off the calling thread.
    Decode(String),
}

/// What to do to play a named sound: macOS spawns `afplay` on the named
/// system sound, Linux plays a fixed notification sound via `paplay` with an
/// `aplay` fallback, Windows decodes the mapped media file in process. A
/// platform without a convention gets no plan.
pub fn play_sound_plan(os: HostOs, name: &str) -> (r: Option<SoundPlan>)
    ensures
        os is MacOs ==> r is Some && r->0 is Spawn && r->0->Spawn_0@ == (
            "afplay"@,
            seq!["/System/Library/Sounds/"@ + name@ + ".aiff"@],
        ),
        os is Windows ==> r is Some && r->0 is Decode && r->0->Decode_0@
            == "C:\\Windows\\Media\\"@ + windows_sound_file(name@),
        os is Linux ==> r is Some && r->0 is SpawnWithFallback && r->0->SpawnWithFallback_0@
            == ("paplay"@, seq!["/usr/share/sounds/freedesktop/stereo/complete.oga"@])
            && r->0->SpawnWithFallback_1@ == (
            "aplay"@,
            seq!["/usr/share/sounds/alsa/Front_Center.wav"@],
        ),
        os is Other ==> r is None,
{
    match os {
        HostOs::MacOs => Some(SoundPlan::Spawn(plan_one("afplay", macos_sound_path(name)))),
        HostOs::Windows => Some(SoundPlan::Decode(windows_sound_path(name))),
        HostOs::Linux => Some(
            SoundPlan::SpawnWithFallback(
                plan_one("paplay", "/usr/share/sounds/freedesktop/stereo/complete.oga".to_owned()),
                plan_one("aplay", "/usr/share/sounds/alsa/Front_Center.wav".to_owned()),
            ),
        ),
        HostOs::Other => None,
    }
}

/// What to spawn to open the environment-variables dialog; Windows only.
pub fn open_environment_variables_plan(os: HostOs) -> (r: Result<SpawnPlan, LaunchError>)
    ensures
        os is Windows <==> r is Ok,
        os is Windows ==> r->Ok_0@ == ("rundll32"@, seq!["sysdm.cpl,EditEnvironmentVariables"@]),
        !(os is Windows) ==> r->Err_0 is Unsupported,
{
    match os {
        HostOs::Windows => Ok(plan_one("rundll32", "sysdm.cpl,EditEnvironmentVariables".to_owned())),
        _ => Err(LaunchError::Unsupported),
    }
}

/// What to spawn to open the full-disk-access privacy pane; macOS only.
pub fn full_disk_access_plan(os: HostOs) -> (r: Result<SpawnPlan, LaunchError>)
    ensures
        os is MacOs <==> r is Ok,
        os is MacOs ==> r->Ok_0@ == (
            "open"@,
            seq!["x-apple.systempreferences:com.apple.preference.security?Privacy_AllFiles"@],
        ),
        !(os is MacOs) ==> r->Err_0 is Unsupported,
{
    match os {
        HostOs::MacOs => Ok(
            plan_one(
                "open",
                "x-apple.systempreferences:com.apple.preference.security?Privacy_AllFiles".to_owned(),
            ),
        ),
        _ => Err(LaunchError::Unsupported),
    }
}

/// The directory whose readability decides the file-access check on macOS:
/// the given path, else the home's `Documents` folder, else `/Users`. On any
/// other platform there is nothing to probe and access counts as granted.
pub fn file_access_probe_path(os: HostOs, test_path: Option<String>, home: Option<&str>) -> (r:
    Option<String>)
    ensures
        !(os is MacOs) ==> r is None,
        os is MacOs && test_path is Some ==> r is Some && r->0@ == test_path->0@,
        os is MacOs && test_path is None && home is Some ==> r is Some && r->0@ == home->0@
            + "/Documents"@,
        os is MacOs && test_path is None && home is None ==> r is Some && r->0@ == "/Users"@,
{
    match os {
        HostOs::MacOs => match test_path {
            Some(p) => Some(p),
            None => match home {
                Some(h) => Some(h.to_owned().concat("/Documents")),
                None => Some("/Users".to_owned()),
            },
        },
        _ => None,
    }
}

} // verus!
