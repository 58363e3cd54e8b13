//! Small text helpers: ASCII case folding, path parents, string views.

use vstd::prelude::*;

use vstd::string::StrSliceExecFns;
use vstd::string::StringExecFns;

verus! {

/// The views of a list of strings, in order.
pub open spec fn str_views(s: Seq<String>) -> Seq<Seq<char>> {
    s.map_values(|x: String| x@)
}

/// ASCII lower case of one character; anything else is left alone.
pub open spec fn lower_char(c: char) -> char {
    if c == 'A' { 'a' } else if c == 'B' { 'b' } else if c == 'C' { 'c' }
    else if c == 'D' { 'd' } else if c == 'E' { 'e' } else if c == 'F' { 'f' }
    else if c == 'G' { 'g' } else if c == 'H' { 'h' } else if c == 'I' { 'i' }
    else if c == 'J' { 'j' } else if c == 'K' { 'k' } else if c == 'L' { 'l' }
    else if c == 'M' { 'm' } else if c == 'N' { 'n' } else if c == 'O' { 'o' }
    else if c == 'P' { 'p' } else if c == 'Q' { 'q' } else if c == 'R' { 'r' }
    else if c == 'S' { 's' } else if c == 'T' { 't' } else if c == 'U' { 'u' }
    else if c == 'V' { 'v' } else if c == 'W' { 'w' } else if c == 'X' { 'x' }
    else if c == 'Y' { 'y' } else if c == 'Z' { 'z' } else { c }
}

/// ASCII lower case of a character sequence.
pub open spec fn lower_seq(s: Seq<char>) -> Seq<char> {
    s.map_values(|c: char| lower_char(c))
}

/// ASCII lower case of one character, executably.
pub fn lower_char_exec(c: char) -> (r: char)
    ensures
        r == lower_char(c),
{
    match c {
        'A' => 'a', 'B' => 'b', 'C' => 'c', 'D' => 'd', 'E' => 'e', 'F' => 'f',
        'G' => 'g', 'H' => 'h', 'I' => 'i', 'J' => 'j', 'K' => 'k', 'L' => 'l',
        'M' => 'm', 'N' => 'n', 'O' => 'o', 'P' => 'p', 'Q' => 'q', 'R' => 'r',
        'S' => 's', 'T' => 't', 'U' => 'u', 'V' => 'v', 'W' => 'w', 'X' => 'x',
        'Y' => 'y', 'Z' => 'z', _ => c,
    }
}

/// Whether two texts agree up to ASCII case.
pub fn ascii_eq_ignore_case(a: &str, b: &str) -> (r: bool)
    ensures
        r == (lower_seq(a@) == lower_seq(b@)),
{
    let alen = a.unicode_len();
    let blen = b.unicode_len();
    if alen != blen {
        proof {
            assert(lower_seq(a@).len() != lower_seq(b@).len());
        }
        return false;
    }
    let mut i: usize = 0;
    while i < alen
        invariant
            alen == a@.len(),
            blen == b@.len(),
            alen == blen,
            0 <= i <= alen,
            forall|j: int| 0 <= j < i ==> lower_char(a@[j]) == lower_char(b@[j]),
        decreases alen - i,
    {
        let ca = a.get_char(i);
        let cb = b.get_char(i);
        if lower_char_exec(ca) != lower_char_exec(cb) {
            proof {
                assert(lower_seq(a@)[i as int] != lower_seq(b@)[i as int]);
            }
            return false;
        }
        i += 1;
    }
    proof {
        assert(lower_seq(a@) =~= lower_seq(b@));
    }
    true
}

/// The index of the last `/` in the text, or `-1` where there is none.
pub open spec fn last_slash_at(p: Seq<char>) -> int
    decreases p.len(),
{
    if p.len() == 0 {
        -1
    } else if p[p.len() - 1] == '/' {
        p.len() - 1
    } else {
        last_slash_at(p.drop_last())
    }
}

/// A `/` with nothing after it is the last one.
proof fn lemma_last_slash_found(p: Seq<char>, k: int)
    requires
        0 <= k < p.len(),
        p[k] == '/',
        forall|j: int| k < j < p.len() ==> p[j] != '/',
    ensures
        last_slash_at(p) == k,
    decreases p.len(),
{
    if k < p.len() - 1 {
        assert(p.drop_last()[k] == '/');
        lemma_last_slash_found(p.drop_last(), k);
    }
}

/// Without any `/` there is no last one.
proof fn lemma_last_slash_none(p: Seq<char>)
    requires
        forall|j: int| 0 <= j < p.len() ==> p[j] != '/',
    ensures
        last_slash_at(p) == -1,
    decreases p.len(),
{
    if p.len() > 0 {
        lemma_last_slash_none(p.drop_last());
    }
}

/// The length of the text once its trailing `/` separators are dropped.
pub open spec fn end_sans_slashes(p: Seq<char>) -> int
    decreases p.len(),
{
    if p.len() == 0 {
        0
    } else if p[p.len() - 1] == '/' {
        end_sans_slashes(p.drop_last())
    } else {
        p.len() as int
    }
}

/// The position after the last character that is not a trailing separator.
proof fn lemma_end_sans_slashes_at(p: Seq<char>, k: int)
    requires
        0 <= k <= p.len(),
        k == 0 || p[k - 1] != '/',
        forall|j: int| k <= j < p.len() ==> p[j] == '/',
    ensures
        end_sans_slashes(p) == k,
    decreases p.len(),
{
    if p.len() > 0 && p[p.len() - 1] == '/' {
        lemma_end_sans_slashes_at(p.drop_last(), k);
    }
}

/// The parent of a `/`-separated path, as `std::path::Path::parent` treats
/// it: trailing separators are ignored, and the last component leaves
/// together with the separators just before it. A bare name's parent is the
/// empty path, a top-level entry's is `/`, and the root and the empty path
/// have none. Components are not otherwise normalised.
pub open spec fn path_parent(p: Seq<char>) -> Option<Seq<char>> {
    let e = end_sans_slashes(p);
    if e == 0 {
        None
    } else {
        let q = p.subrange(0, e);
        let i = last_slash_at(q);
        if i < 0 {
            Some(Seq::empty())
        } else {
            let e2 = end_sans_slashes(q.subrange(0, i + 1));
            if e2 == 0 {
                Some("/"@)
            } else {
                Some(q.subrange(0, e2))
            }
        }
    }
}

/// The parent directory of a `/`-separated path.
pub fn parent_of_path(path: &str) -> (r: Option<String>)
    ensures
        r is Some <==> path_parent(path@) is Some,
        r is Some ==> Some(r->0@) == path_parent(path@),
{
    let len = path.unicode_len();
    let mut e: usize = len;
    while e > 0 && path.get_char(e - 1) == '/'
        invariant
            len == path@.len(),
            0 <= e <= len,
            forall|j: int| e <= j < len ==> path@[j] == '/',
        decreases e,
    {
        e -= 1;
    }
    proof {
        lemma_end_sans_slashes_at(path@, e as int);
    }
    if e == 0 {
        return None;
    }
    let ghost q = path@.subrange(0, e as int);
    let mut i: usize = e;
    while i > 0 && path.get_char(i - 1) != '/'
        invariant
            len == path@.len(),
            0 <= i <= e <= len,
            forall|j: int| i <= j < e ==> path@[j] != '/',
        decreases i,
    {
        i -= 1;
    }
    if i == 0 {
        proof {
            assert(forall|j: int| 0 <= j < q.len() ==> q[j] != '/');
            lemma_last_slash_none(q);
        }
        return Some(String::new());
    }
    proof {
        assert(q[i - 1] == '/');
        lemma_last_slash_found(q, i - 1);
    }
    let mut e2: usize = i;
    while e2 > 0 && path.get_char(e2 - 1) == '/'
        invariant
            len == path@.len(),
            0 <= e2 <= i <= e <= len,
            forall|j: int| e2 <= j < i ==> path@[j] == '/',
        decreases e2,
    {
        e2 -= 1;
    }
    proof {
        let head = q.subrange(0, i as int);
        assert(head =~= path@.subrange(0, i as int));
        assert(forall|j: int| e2 <= j < head.len() ==> head[j] == '/');
        lemma_end_sans_slashes_at(head, e2 as int);
    }
    if e2 == 0 {
        return Some(String::from_str("/"));
    }
    let parent = path.substring_char(0, e2);
    proof {
        assert(q.subrange(0, e2 as int) =~= path@.subrange(0, e2 as int));
    }
    Some(parent.to_owned())
}

} // verus!
