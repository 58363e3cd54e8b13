//! Path resolution: the per-user configuration directory and the ordered
//! probe for bundled resources. Checking which candidate exists is the
//! caller's I/O; the candidate list and the pick are exact.

use vstd::prelude::*;

use vstd::string::StringExecFns;

use crate::text::str_views;

verus! {

/// The per-user configuration directory: the application's dot-directory
/// directly under the home directory.
pub fn dot_config_dir(home: &str, app_name: &str) -> (r: String)
    ensures
        r@ == home@ + "/."@ + app_name@,
{
    home.to_owned().concat("/.").concat(app_name)
}

/// The candidate paths a development build adds, in order: under the working
/// directory, then under its parent, where one is known.
pub open spec fn dev_candidate_views(
    dev: bool,
    cwd: Seq<char>,
    cwd_parent: Option<&str>,
    relative: Seq<char>,
) -> Seq<Seq<char>> {
    if dev {
        seq![cwd + "/public/"@ + relative] + match cwd_parent {
            Some(p) => seq![p@ + "/public/"@ + relative],
            None => Seq::empty(),
        }
    } else {
        Seq::empty()
    }
}

/// Every candidate path for a bundled resource, in probe order.
pub open spec fn resource_candidate_views(
    dev: bool,
    cwd: Seq<char>,
    cwd_parent: Option<&str>,
    resource_root: Seq<char>,
    relative: Seq<char>,
) -> Seq<Seq<char>> {
    dev_candidate_views(dev, cwd, cwd_parent, relative) + seq![
        resource_root + "/public/"@ + relative,
        resource_root + "/_up_/public/"@ + relative,
        resource_root + "/"@ + relative,
    ]
}

/// The candidate paths for a bundled resource, in the order they are to be
/// probed: in a development build under the working directory and its
/// parent, then under the resource root's `public`, its `_up_/public`, and
/// the root itself.
pub fn resource_candidates(
    dev: bool,
    cwd: &str,
    cwd_parent: Option<&str>,
    resource_root: &str,
    relative: &str,
) -> (r: Vec<String>)
    ensures
        str_views(r@) == resource_candidate_views(dev, cwd@, cwd_parent, resource_root@, relative@),
{
    let mut r: Vec<String> = Vec::new();
    if dev {
        r.push(cwd.to_owned().concat("/public/").concat(relative));
        if let Some(p) = cwd_parent {
            r.push(p.to_owned().concat("/public/").concat(relative));
        }
    }
    r.push(resource_root.to_owned().concat("/public/").concat(relative));
    r.push(resource_root.to_owned().concat("/_up_/public/").concat(relative));
    r.push(resource_root.to_owned().concat("/").concat(relative));
    proof {
        assert(str_views(r@) =~= resource_candidate_views(
            dev,
            cwd@,
            cwd_parent,
            resource_root@,
            relative@,
        ));
    }
    r
}

/// The first existing candidate: its index, or nothing where none exists.
/// The flags say, per candidate, whether it exists.
pub fn first_existing(candidates: &Vec<String>, exists: &Vec<bool>) -> (r: Option<usize>)
    requires
        candidates@.len() == exists@.len(),
    ensures
        match r {
            Some(i) => 0 <= i < candidates@.len() && exists@[i as int] && (forall|j: int|
                0 <= j < i ==> !exists@[j]),
            None => forall|j: int| 0 <= j < exists@.len() ==> !exists@[j],
        },
{
    let mut i: usize = 0;
    while i < exists.len()
        invariant
            candidates@.len() == exists@.len(),
            0 <= i <= exists@.len(),
            forall|j: int| 0 <= j < i ==> !exists@[j],
        decreases exists@.len() - i,
    {
        if exists[i] {
            return Some(i);
        }
        i += 1;
    }
    None
}

/// The lines joined with a newline between them.
pub open spec fn joined_lines(items: Seq<Seq<char>>) -> Seq<char>
    decreases items.len(),
{
    if items.len() == 0 {
        Seq::empty()
    } else if items.len() == 1 {
        items[0]
    } else {
        joined_lines(items.drop_last()) + "\n"@ + items.last()
    }
}

/// The diagnostic for an exhausted resource probe, listing every candidate.
pub fn resource_not_found_message(candidates: &Vec<String>) -> (r: String)
    ensures
        r@ == "Resource not found. Tried paths:\n"@ + joined_lines(str_views(candidates@)),
{
    let mut body = String::new();
    let mut i: usize = 0;
    while i < candidates.len()
        invariant
            0 <= i <= candidates@.len(),
            body@ == joined_lines(str_views(candidates@).subrange(0, i as int)),
        decreases candidates@.len() - i,
    {
        proof {
            assert(str_views(candidates@).subrange(0, i + 1).drop_last() =~= str_views(
                candidates@,
            ).subrange(0, i as int));
            assert(str_views(candidates@).subrange(0, i + 1).last() == candidates@[i as int]@);
        }
        if i > 0 {
            body.append("\n");
        }
        body.append(candidates[i].as_str());
        i += 1;
    }
    proof {
        assert(str_views(candidates@).subrange(0, str_views(candidates@).len() as int)
            =~= str_views(candidates@));
    }
    "Resource not found. Tried paths:\n".to_owned().concat(body.as_str())
}

} // verus!
