//! Interpreter probe decisions: which command name to report, which
//! directories to scan on Windows, and order-keeping de-duplication of what
//! the scan found. Running `--version` and reading directories is the
//! caller's I/O.

use vstd::prelude::*;

use vstd::string::StringExecFns;

use crate::text::str_views;

verus! {

/// What the interpreter probe reports.
pub struct PythonCheckResult {
    pub command: String,
    pub found_in_path: bool,
    pub installation_paths: Vec<String>,
}

/// The probe's verdict, given whether `python --version` and then
/// `python3 --version` ran successfully, and what a directory scan found:
/// the first working command wins; with neither working, the scan's finds
/// are reported, under the command name `python` where anything was found
/// and `python3` where nothing was.
pub fn choose_python_command(python_ok: bool, python3_ok: bool, discovered: Vec<String>) -> (r:
    PythonCheckResult)
    ensures
        python_ok ==> r.command@ == "python"@ && r.found_in_path && r.installation_paths@
            == Seq::<String>::empty(),
        !python_ok && python3_ok ==> r.command@ == "python3"@ && r.found_in_path
            && r.installation_paths@ == Seq::<String>::empty(),
        !python_ok && !python3_ok ==> !r.found_in_path && r.installation_paths@ == discovered@
            && (discovered@.len() == 0 ==> r.command@ == "python3"@) && (discovered@.len() > 0
            ==> r.command@ == "python"@),
{
    if python_ok {
        PythonCheckResult {
            command: "python".to_owned(),
            found_in_path: true,
            installation_paths: Vec::new(),
        }
    } else if python3_ok {
        PythonCheckResult {
            command: "python3".to_owned(),
            found_in_path: true,
            installation_paths: Vec::new(),
        }
    } else {
        let command = if discovered.len() > 0 {
            "python".to_owned()
        } else {
            "python3".to_owned()
        };
        PythonCheckResult { command, found_in_path: false, installation_paths: discovered }
    }
}

/// The fixed Windows directories probed for an interpreter, in order.
pub fn python_exact_candidates() -> (r: Vec<String>)
    ensures
        str_views(r@) == seq![
            "C:\\Python39"@,
            "C:\\Python310"@,
            "C:\\Python311"@,
            "C:\\Python312"@,
            "C:\\Python313"@,
            "C:\\Program Files\\Python39"@,
            "C:\\Program Files\\Python310"@,
            "C:\\Program Files\\Python311"@,
            "C:\\Program Files\\Python312"@,
            "C:\\Program Files\\Python313"@,
            "C:\\Program Files (x86)\\Python39"@,
            "C:\\Program Files (x86)\\Python310"@,
            "C:\\Program Files (x86)\\Python311"@,
            "C:\\Program Files (x86)\\Python312"@,
            "C:\\Program Files (x86)\\Python313"@,
        ],
{
    let mut r: Vec<String> = Vec::new();
    r.push("C:\\Python39".to_owned());
    r.push("C:\\Python310".to_owned());
    r.push("C:\\Python311".to_owned());
    r.push("C:\\Python312".to_owned());
    r.push("C:\\Python313".to_owned());
    r.push("C:\\Program Files\\Python39".to_owned());
    r.push("C:\\Program Files\\Python310".to_owned());
    r.push("C:\\Program Files\\Python311".to_owned());
    r.push("C:\\Program Files\\Python312".to_owned());
    r.push("C:\\Program Files\\Python313".to_owned());
    r.push("C:\\Program Files (x86)\\Python39".to_owned());
    r.push("C:\\Program Files (x86)\\Python310".to_owned());
    r.push("C:\\Program Files (x86)\\Python311".to_owned());
    r.push("C:\\Program Files (x86)\\Python312".to_owned());
    r.push("C:\\Program Files (x86)\\Python313".to_owned());
    proof {
        assert(str_views(r@) =~= seq![
            "C:\\Python39"@,
            "C:\\Python310"@,
            "C:\\Python311"@,
            "C:\\Python312"@,
            "C:\\Python313"@,
            "C:\\Program Files\\Python39"@,
            "C:\\Program Files\\Python310"@,
            "C:\\Program Files\\Python311"@,
            "C:\\Program Files\\Python312"@,
            "C:\\Program Files\\Python313"@,
            "C:\\Program Files (x86)\\Python39"@,
            "C:\\Program Files (x86)\\Python310"@,
            "C:\\Program Files (x86)\\Python311"@,
            "C:\\Program Files (x86)\\Python312"@,
            "C:\\Program Files (x86)\\Python313"@,
        ]);
    }
    r
}

/// The Windows base directories whose subdirectories the scan walks.
pub fn python_base_dirs() -> (r: Vec<String>)
    ensures
        str_views(r@) == seq!["C:\\"@, "C:\\Program Files"@, "C:\\Program Files (x86)"@],
{
    let mut r: Vec<String> = Vec::new();
    r.push("C:\\".to_owned());
    r.push("C:\\Program Files".to_owned());
    r.push("C:\\Program Files (x86)".to_owned());
    proof {
        assert(str_views(r@) =~= seq![
            "C:\\"@,
            "C:\\Program Files"@,
            "C:\\Program Files (x86)"@,
        ]);
    }
    r
}

/// A per-user directory to scan, made from an environment value, or nothing
/// where the variable is unset.
pub open spec fn opt_root(base: Option<&str>, suffix: Seq<char>) -> Seq<Seq<char>> {
    match base {
        Some(b) => seq![b@ + suffix],
        None => Seq::empty(),
    }
}

/// The per-user Windows directories the scan walks, from the environment
/// values that are set, in order.
pub fn python_user_roots(
    local_appdata: Option<&str>,
    appdata: Option<&str>,
    userprofile: Option<&str>,
) -> (r: Vec<String>)
    ensures
        str_views(r@) == opt_root(local_appdata, "\\Programs\\Python"@) + opt_root(
            appdata,
            "\\Python"@,
        ) + opt_root(userprofile, "\\AppData\\Local\\Programs\\Python"@),
{
    let mut r: Vec<String> = Vec::new();
    if let Some(b) = local_appdata {
        r.push(b.to_owned().concat("\\Programs\\Python"));
    }
    if let Some(b) = appdata {
        r.push(b.to_owned().concat("\\Python"));
    }
    if let Some(b) = userprofile {
        r.push(b.to_owned().concat("\\AppData\\Local\\Programs\\Python"));
    }
    proof {
        assert(str_views(r@) =~= opt_root(local_appdata, "\\Programs\\Python"@) + opt_root(
            appdata,
            "\\Python"@,
        ) + opt_root(userprofile, "\\AppData\\Local\\Programs\\Python"@));
    }
    r
}

/// The store-installed interpreter stub probed on Windows.
pub fn windows_store_probe(local_appdata: &str) -> (r: String)
    ensures
        r@ == local_appdata@ + "\\Microsoft\\WindowsApps\\python.exe"@,
{
    local_appdata.to_owned().concat("\\Microsoft\\WindowsApps\\python.exe")
}

/// The items whose flag is set, in order.
pub open spec fn selected(items: Seq<String>, flags: Seq<bool>) -> Seq<String>
    decreases items.len(),
{
    if items.len() == 0 {
        Seq::empty()
    } else if flags.last() {
        selected(items.drop_last(), flags.drop_last()).push(items.last())
    } else {
        selected(items.drop_last(), flags.drop_last())
    }
}

/// Keeps the items whose flag is set: candidates that the caller found to
/// hold an interpreter.
pub fn select_flagged(items: &Vec<String>, flags: &Vec<bool>) -> (r: Vec<String>)
    requires
        items@.len() == flags@.len(),
    ensures
        r@ == selected(items@, flags@),
{
    let mut r: Vec<String> = Vec::new();
    let mut i: usize = 0;
    while i < items.len()
        invariant
            items@.len() == flags@.len(),
            0 <= i <= items@.len(),
            r@ == selected(items@.subrange(0, i as int), flags@.subrange(0, i as int)),
        decreases items@.len() - i,
    {
        proof {
            assert(items@.subrange(0, i + 1).drop_last() =~= items@.subrange(0, i as int));
            assert(flags@.subrange(0, i + 1).drop_last() =~= flags@.subrange(0, i as int));
            assert(items@.subrange(0, i + 1).last() == items@[i as int]);
            assert(flags@.subrange(0, i + 1).last() == flags@[i as int]);
        }
        if flags[i] {
            r.push(items[i].clone());
        }
        i += 1;
    }
    proof {
        assert(items@.subrange(0, items@.len() as int) =~= items@);
        assert(flags@.subrange(0, flags@.len() as int) =~= flags@);
    }
    r
}

/// Whether some string of the list reads the same as the given one.
pub open spec fn has_view(s: Seq<String>, v: Seq<char>) -> bool {
    exists|i: int| 0 <= i < s.len() && s[i]@ == v
}

/// Whether a string with this text is already in the list.
pub fn contains_str(list: &Vec<String>, x: &String) -> (r: bool)
    ensures
        r == has_view(list@, x@),
{
    let mut i: usize = 0;
    while i < list.len()
        invariant
            0 <= i <= list@.len(),
            forall|j: int| 0 <= j < i ==> list@[j]@ != x@,
        decreases list@.len() - i,
    {
        if list[i] == *x {
            return true;
        }
        i += 1;
    }
    false
}

/// What appending a list with de-duplication leaves: each item in turn joins
/// the accumulator unless its text is already there.
pub open spec fn dedup_append(acc: Seq<String>, items: Seq<String>) -> Seq<String>
    decreases items.len(),
{
    if items.len() == 0 {
        acc
    } else {
        let prev = dedup_append(acc, items.drop_last());
        if has_view(prev, items.last()@) {
            prev
        } else {
            prev.push(items.last())
        }
    }
}

/// Appends the items to the accumulator, skipping any whose text is already
/// present; first-seen order is kept.
pub fn dedup_merge(acc: &mut Vec<String>, items: Vec<String>)
    ensures
        final(acc)@ == dedup_append(old(acc)@, items@),
{
    let ghost acc0 = acc@;
    let mut i: usize = 0;
    while i < items.len()
        invariant
            0 <= i <= items@.len(),
            acc@ == dedup_append(acc0, items@.subrange(0, i as int)),
        decreases items@.len() - i,
    {
        proof {
            assert(items@.subrange(0, i + 1).drop_last() =~= items@.subrange(0, i as int));
            assert(items@.subrange(0, i + 1).last() == items@[i as int]);
        }
        let item = items[i].clone();
        if !contains_str(acc, &item) {
            acc.push(item);
        }
        i += 1;
    }
    proof {
        assert(items@.subrange(0, items@.len() as int) =~= items@);
    }
}

} // verus!
