//! Version resolution and staleness: the pure string logic behind the
//! redirect probe and the marker-file check.
//!
//! The resolver reads only the last path segment of the redirect-resolved
//! URL and strips a recognized channel prefix from it; the staleness check
//! compares the canonical version against the persisted marker.

use vstd::prelude::*;
use vstd::string::*;

verus! {

/// `p` is a prefix of `s`.
pub open spec fn spec_has_prefix(s: Seq<char>, p: Seq<char>) -> bool {
    p.len() <= s.len() && s.subrange(0, p.len() as int) == p
}

/// `s` with a leading `p` removed, or `s` unchanged when `p` is no prefix.
pub open spec fn spec_strip_prefix(s: Seq<char>, p: Seq<char>) -> Seq<char> {
    if spec_has_prefix(s, p) {
        s.subrange(p.len() as int, s.len() as int)
    } else {
        s
    }
}

/// The canonical version string: the resolved snapshot identifier with a
/// recognized channel prefix removed.
pub open spec fn spec_canonical_version(s: Seq<char>) -> Seq<char> {
    spec_strip_prefix(spec_strip_prefix(s, "nixos-"@), "nixpkgs-"@)
}

/// Decides whether `p@` is a prefix of `s@`.
pub fn has_prefix(s: &str, p: &str) -> (r: bool)
    ensures
        r == spec_has_prefix(s@, p@),
{
    let sn = s.unicode_len();
    let pn = p.unicode_len();
    if pn > sn {
        return false;
    }
    let mut i: usize = 0;
    while i < pn
        invariant
            i <= pn,
            pn <= sn,
            pn == p@.len(),
            sn == s@.len(),
            forall|j: int| 0 <= j < i ==> s@[j] == p@[j],
        decreases pn - i,
    {
        if s.get_char(i) != p.get_char(i) {
            assert(s@.subrange(0, p@.len() as int)[i as int] == s@[i as int]);
            return false;
        }
        i += 1;
    }
    assert(s@.subrange(0, p@.len() as int) =~= p@);
    true
}

/// Decides whether two strings hold the same characters.
pub fn str_eq(a: &str, b: &str) -> (r: bool)
    ensures
        r == (a@ == b@),
{
    let an = a.unicode_len();
    let bn = b.unicode_len();
    if an != bn {
        return false;
    }
    let mut i: usize = 0;
    while i < an
        invariant
            an == a@.len(),
            an == b@.len(),
            i <= an,
            forall|j: int| 0 <= j < i ==> a@[j] == b@[j],
        decreases an - i,
    {
        if a.get_char(i) != b.get_char(i) {
            return false;
        }
        i += 1;
    }
    assert(a@ =~= b@);
    true
}

/// Removes a leading `p` from `s`, when present.
pub fn strip_prefix_str(s: &str, p: &str) -> (r: String)
    ensures
        r@ == spec_strip_prefix(s@, p@),
{
    if has_prefix(s, p) {
        let r = s.substring_char(p.unicode_len(), s.unicode_len());
        r.to_owned()
    } else {
        s.to_owned()
    }
}

/// The canonical version for a resolved snapshot identifier: strips a
/// leading `"nixos-"`, then a leading `"nixpkgs-"` from what remains.
pub fn canonical_version(resolved: &str) -> (r: String)
    ensures
        r@ == spec_canonical_version(resolved@),
{
    let s1 = strip_prefix_str(resolved, "nixos-");
    strip_prefix_str(s1.as_str(), "nixpkgs-")
}

/// First index `i >= from` with `s[i] == c`.
pub open spec fn spec_find(s: Seq<char>, from: int, c: char) -> Option<int>
    decreases s.len() - from,
{
    if from < 0 || from >= s.len() {
        None
    } else if s[from] == c {
        Some(from)
    } else {
        spec_find(s, from + 1, c)
    }
}

/// Last index `i < before` with `s[i] == c`.
pub open spec fn spec_rfind(s: Seq<char>, before: int, c: char) -> Option<int>
    decreases before,
{
    if before <= 0 || before > s.len() {
        None
    } else if s[before - 1] == c {
        Some(before - 1)
    } else {
        spec_rfind(s, before - 1, c)
    }
}

/// First index `i >= from` where `"://"` starts.
pub open spec fn spec_find_scheme_sep(s: Seq<char>, from: int) -> Option<int>
    decreases s.len() - from,
{
    if from < 0 || from + 3 > s.len() {
        None
    } else if s[from] == ':' && s[from + 1] == '/' && s[from + 2] == '/' {
        Some(from)
    } else {
        spec_find_scheme_sep(s, from + 1)
    }
}

/// The last path segment of an absolute URL: the part of the path after
/// its final `/`, with any query or fragment ignored.  `None` when the
/// text has no `"://"`, or no `/` after the authority.
pub open spec fn spec_last_segment(u: Seq<char>) -> Option<Seq<char>> {
    let cut1 = match spec_find(u, 0, '?') {
        Some(i) => u.subrange(0, i),
        None => u,
    };
    let cut = match spec_find(cut1, 0, '#') {
        Some(i) => cut1.subrange(0, i),
        None => cut1,
    };
    match spec_find_scheme_sep(cut, 0) {
        None => None,
        Some(i) => match spec_find(cut, i + 3, '/') {
            None => None,
            Some(_) => match spec_rfind(cut, cut.len() as int, '/') {
                None => None,
                Some(k) => Some(cut.subrange(k + 1, cut.len() as int)),
            },
        },
    }
}

/// First occurrence of `c` in `s@` at or after `from`.
pub fn find_from(s: &str, from: usize, c: char) -> (r: Option<usize>)
    ensures
        match r {
            Some(i) => spec_find(s@, from as int, c) == Some(i as int) && from <= i < s@.len(),
            None => spec_find(s@, from as int, c) is None,
        },
{
    let n = s.unicode_len();
    let mut i: usize = from;
    while i < n
        invariant
            n == s@.len(),
            i >= from,
            spec_find(s@, from as int, c) == spec_find(s@, i as int, c),
        decreases n - i,
    {
        if s.get_char(i) == c {
            return Some(i);
        }
        i += 1;
    }
    None
}

/// Last occurrence of `c` in `s@` before `before`.
pub fn rfind_before(s: &str, before: usize, c: char) -> (r: Option<usize>)
    requires
        before <= s@.len(),
    ensures
        match r {
            Some(i) => spec_rfind(s@, before as int, c) == Some(i as int) && i < before,
            None => spec_rfind(s@, before as int, c) is None,
        },
{
    let mut i: usize = before;
    while i > 0
        invariant
            i <= before,
            before <= s@.len(),
            spec_rfind(s@, before as int, c) == spec_rfind(s@, i as int, c),
        decreases i,
    {
        if s.get_char(i - 1) == c {
            return Some(i - 1);
        }
        i -= 1;
    }
    None
}

/// First start of `"://"` in `s@` at or after `from`.
pub fn find_scheme_sep(s: &str, from: usize) -> (r: Option<usize>)
    ensures
        match r {
            Some(i) => spec_find_scheme_sep(s@, from as int) == Some(i as int) && from <= i && i
                + 3 <= s@.len(),
            None => spec_find_scheme_sep(s@, from as int) is None,
        },
{
    let n = s.unicode_len();
    if n < 3 || from > n - 3 {
        return None;
    }
    let mut i: usize = from;
    while i <= n - 3
        invariant
            n == s@.len(),
            3 <= n,
            i >= from,
            spec_find_scheme_sep(s@, from as int) == spec_find_scheme_sep(s@, i as int),
        decreases n - i,
    {
        if s.get_char(i) == ':' && s.get_char(i + 1) == '/' && s.get_char(i + 2) == '/' {
            return Some(i);
        }
        i += 1;
    }
    None
}

/// The last path segment of the redirect-resolved URL, the resolved
/// snapshot identifier.
pub fn last_path_segment(u: &str) -> (r: Option<String>)
    ensures
        match r {
            Some(seg) => spec_last_segment(u@) == Some(seg@),
            None => spec_last_segment(u@) is None,
        },
{
    let n = u.unicode_len();
    let cut1: String = match find_from(u, 0, '?') {
        Some(i) => u.substring_char(0, i).to_owned(),
        None => u.to_owned(),
    };
    let c1 = cut1.as_str();
    let cut: String = match find_from(c1, 0, '#') {
        Some(i) => c1.substring_char(0, i).to_owned(),
        None => c1.to_owned(),
    };
    let cs = cut.as_str();
    match find_scheme_sep(cs, 0) {
        None => None,
        Some(i) => match find_from(cs, i + 3, '/') {
            None => None,
            Some(_) => match rfind_before(cs, cut.as_str().unicode_len(), '/') {
                None => None,
                Some(k) => Some(cs.substring_char(k + 1, cs.unicode_len()).to_owned()),
            },
        },
    }
}

/// "Up to date": the marker file holds exactly the canonical version and
/// the database file exists.
pub open spec fn spec_up_to_date(marker: Option<Seq<char>>, version: Seq<char>, db_exists: bool) -> bool {
    match marker {
        Some(m) => m == version && db_exists,
        None => false,
    }
}

/// Decides the staleness check: the pipeline may stop only when the
/// persisted marker equals the canonical version and the database exists.
pub fn up_to_date(marker: &Option<String>, version: &String, db_exists: bool) -> (r: bool)
    ensures
        r == spec_up_to_date(
            match marker { Some(m) => Some(m@), None => None },
            version@,
            db_exists,
        ),
{
    match marker {
        Some(m) => db_exists && *m == *version,
        None => false,
    }
}

} // verus!
