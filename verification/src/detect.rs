//! Multi-signal project detection: a directory listing matches a
//! `DetectionSpec` when any entry's extension, full filename, or (for
//! directories) name is among the configured detection signals.

use vstd::prelude::*;
use vstd::string::*;

verus! {

/// One entry of a directory listing, as the listing collaborator hands it in.
#[derive(Clone, Debug)]
pub struct DirEntry {
    pub name: String,
    pub is_dir: bool,
}

/// The detection signals of one project kind. An empty spec never matches.
#[derive(Clone, Debug)]
pub struct DetectionSpec {
    pub extensions: Vec<String>,
    pub filenames: Vec<String>,
    pub foldernames: Vec<String>,
}

/// Position of the last `.` in a name, if any.
pub open spec fn last_dot(s: Seq<char>) -> Option<int>
    decreases s.len(),
{
    if s.len() == 0 {
        None
    } else if s[s.len() - 1] == '.' {
        Some(s.len() - 1)
    } else {
        last_dot(s.drop_last())
    }
}

/// The extension of a file name: the characters after the last `.`, provided
/// that dot is not the leading character (so a bare dotfile has none).
pub open spec fn spec_ext_of(s: Seq<char>) -> Option<Seq<char>> {
    match last_dot(s) {
        None => None,
        Some(i) => if i == 0 {
            None
        } else {
            Some(s.subrange(i + 1, s.len() as int))
        },
    }
}

/// Extracts the extension of a file name, or `None` when it has none.
pub fn ext_of(name: &str) -> (r: Option<String>)
    ensures
        match r {
            Some(e) => spec_ext_of(name@) == Some(e@),
            None => spec_ext_of(name@) is None,
        },
{
    let n = name.unicode_len();
    let mut i: usize = n;
    proof {
        assert(name@.subrange(0, n as int) =~= name@);
    }
    while i > 0
        invariant
            n == name@.len(),
            i <= n,
            last_dot(name@) == last_dot(name@.subrange(0, i as int)),
        decreases i,
    {
        let c = name.get_char(i - 1);
        proof {
            assert(name@.subrange(0, i as int).drop_last() =~= name@.subrange(0, i - 1));
            assert(name@.subrange(0, i as int)[i - 1] == name@[i - 1]);
        }
        if c == '.' {
            if i - 1 == 0 {
                return None;
            }
            let e = name.substring_char(i, n);
            return Some(String::from_str(e));
        }
        i -= 1;
    }
    None
}

/// A name stands among a set of configured signal strings.
pub open spec fn contains_name(v: Seq<String>, n: Seq<char>) -> bool {
    exists|i: int| 0 <= i < v.len() && #[trigger] v[i]@ == n
}

/// Membership test against one signal list.
pub fn contains_string(v: &Vec<String>, x: &String) -> (r: bool)
    ensures
        r == contains_name(v@, x@),
{
    let mut i: usize = 0;
    while i < v.len()
        invariant
            i <= v@.len(),
            forall|j: int| 0 <= j < i ==> #[trigger] v@[j]@ != x@,
        decreases v@.len() - i,
    {
        if v[i].eq(x) {
            return true;
        }
        i += 1;
    }
    false
}

/// Whether one listing entry satisfies any detection signal.
pub open spec fn entry_matches(e: DirEntry, d: DetectionSpec) -> bool {
    if e.is_dir {
        contains_name(d.foldernames@, e.name@)
    } else {
        ||| contains_name(d.filenames@, e.name@)
        ||| match spec_ext_of(e.name@) {
            Some(x) => contains_name(d.extensions@, x),
            None => false,
        }
    }
}

/// Whether a listing contains at least one entry matching a signal.
pub open spec fn spec_matches(listing: Seq<DirEntry>, d: DetectionSpec) -> bool {
    exists|i: int| 0 <= i < listing.len() && entry_matches(#[trigger] listing[i], d)
}

/// The detection predicate: a short-circuiting OR over all entries and all
/// three signal kinds; the first hit wins.
pub fn is_match(listing: &Vec<DirEntry>, d: &DetectionSpec) -> (r: bool)
    ensures
        r == spec_matches(listing@, *d),
{
    let mut i: usize = 0;
    while i < listing.len()
        invariant
            i <= listing@.len(),
            forall|j: int| 0 <= j < i ==> !entry_matches(#[trigger] listing@[j], *d),
        decreases listing@.len() - i,
    {
        let e = &listing[i];
        if e.is_dir {
            if contains_string(&d.foldernames, &e.name) {
                return true;
            }
        } else {
            if contains_string(&d.filenames, &e.name) {
                return true;
            }
            match ext_of(e.name.as_str()) {
                Some(ext) => {
                    if contains_string(&d.extensions, &ext) {
                        return true;
                    }
                },
                None => {},
            }
        }
        i += 1;
    }
    false
}

/// A listing in which no entry matches any detection signal never detects a
/// project, whatever the spec holds.
pub proof fn lemma_no_signal_no_match(listing: Seq<DirEntry>, d: DetectionSpec)
    requires
        forall|i: int| 0 <= i < listing.len() ==> !entry_matches(#[trigger] listing[i], d),
    ensures
        !spec_matches(listing, d),
{
}

/// An empty directory never detects a project.
pub proof fn lemma_empty_listing_never_matches(listing: Seq<DirEntry>, d: DetectionSpec)
    requires
        listing.len() == 0,
    ensures
        !spec_matches(listing, d),
{
}

/// A spec with no signals at all never matches any listing.
pub proof fn lemma_empty_spec_never_matches(listing: Seq<DirEntry>, d: DetectionSpec)
    requires
        d.extensions@.len() == 0,
        d.filenames@.len() == 0,
        d.foldernames@.len() == 0,
    ensures
        !spec_matches(listing, d),
{
}

/// One file whose extension stands in `extensions` makes the whole listing
/// match, regardless of the other entries present.
pub proof fn lemma_extension_detects(listing: Seq<DirEntry>, d: DetectionSpec, i: int, x: Seq<char>)
    requires
        0 <= i < listing.len(),
        !listing[i].is_dir,
        spec_ext_of(listing[i].name@) == Some(x),
        contains_name(d.extensions@, x),
    ensures
        spec_matches(listing, d),
{
    assert(entry_matches(listing[i], d));
}

} // verus!
