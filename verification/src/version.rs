//! Normalizes a raw, loosely-structured version string into a canonical,
//! possibly truncated dotted representation, per a configurable precision.

use vstd::prelude::*;
use vstd::string::*;
use crate::errors::FormatError;
use crate::text::{is_digit, is_ws, spec_is_digit, spec_is_ws};

verus! {

/// How many leading numeric components of a version to keep.
#[derive(Clone, Copy, Debug, PartialEq, Eq)]
pub struct VersionSpec {
    pub components: usize,
}

/// Index of the first non-whitespace character at or after `i`.
pub open spec fn first_nonws(s: Seq<char>, i: int) -> int
    decreases s.len() - i,
{
    if i < 0 || i >= s.len() {
        s.len() as int
    } else if spec_is_ws(s[i]) {
        first_nonws(s, i + 1)
    } else {
        i
    }
}

/// Index just past the last non-whitespace character strictly before `b`.
pub open spec fn last_nonws(s: Seq<char>, b: int) -> int
    decreases b,
{
    if b <= 0 {
        0
    } else if b > s.len() {
        s.len() as int
    } else if spec_is_ws(s[b - 1]) {
        last_nonws(s, b - 1)
    } else {
        b
    }
}

/// The input with surrounding whitespace removed.
pub open spec fn spec_trim(s: Seq<char>) -> Seq<char> {
    let a = first_nonws(s, 0);
    let b = last_nonws(s, s.len() as int);
    if a <= b {
        s.subrange(a, b)
    } else {
        Seq::empty()
    }
}

/// Length of the run of decimal digits starting at `i`.
pub open spec fn digit_run(s: Seq<char>, i: int) -> nat
    decreases s.len() - i,
{
    if i < 0 || i >= s.len() {
        0
    } else if spec_is_digit(s[i]) {
        1 + digit_run(s, i + 1)
    } else {
        0
    }
}

/// The component separators of a version string.
pub open spec fn spec_is_sep(c: char) -> bool {
    c == '.' || c == '-'
}

/// The maximal leading run of nonempty numeric components of `t` from `i`,
/// where components are separated by `.` or `-`. A component that is empty
/// or touches a non-digit, non-separator character ends the run before it.
pub open spec fn spec_version_parts(t: Seq<char>, i: int) -> Seq<Seq<char>>
    decreases t.len() - i,
{
    if i < 0 || i >= t.len() {
        Seq::empty()
    } else {
        let e = i + digit_run(t, i);
        if e == i {
            Seq::empty()
        } else if e >= t.len() {
            seq![t.subrange(i, t.len() as int)]
        } else if spec_is_sep(t[e]) {
            seq![t.subrange(i, e)].add(spec_version_parts(t, e + 1))
        } else {
            Seq::empty()
        }
    }
}

/// Components joined back with canonical `.` separators.
pub open spec fn spec_join(ps: Seq<Seq<char>>) -> Seq<char>
    decreases ps.len(),
{
    if ps.len() == 0 {
        Seq::empty()
    } else if ps.len() == 1 {
        ps[0]
    } else {
        spec_join(ps.drop_last()) + seq!['.'] + ps.last()
    }
}

/// What the formatter returns: the first `n` numeric components of the
/// trimmed input (all of them, unaltered, when fewer exist), joined with
/// dots; or nothing when no leading numeric component exists at all.
pub open spec fn spec_format_version(raw: Seq<char>, n: nat) -> Option<Seq<char>> {
    let t = spec_trim(raw);
    let ps = spec_version_parts(t, 0);
    if ps.len() == 0 {
        None
    } else {
        let k = if n <= ps.len() { n as int } else { ps.len() as int };
        Some(spec_join(ps.take(k)))
    }
}

/// The views of a list of components.
pub open spec fn parts_view(v: Seq<String>) -> Seq<Seq<char>> {
    v.map_values(|s: String| s@)
}

fn version_parts(t: &str, i: usize) -> (r: Vec<String>)
    requires
        i <= t@.len(),
    ensures
        parts_view(r@) == spec_version_parts(t@, i as int),
    decreases t@.len() - i,
{
    let n = t.unicode_len();
    if i >= n {
        let v: Vec<String> = Vec::new();
        proof {
            assert(parts_view(v@) =~= spec_version_parts(t@, i as int));
        }
        return v;
    }
    let mut e: usize = i;
    while e < n && is_digit(t.get_char(e))
        invariant
            n == t@.len(),
            i <= e <= n,
            digit_run(t@, i as int) == (e - i) + digit_run(t@, e as int),
        decreases n - e,
    {
        e += 1;
    }
    proof {
        assert(digit_run(t@, i as int) == e - i);
    }
    if e == i {
        let v: Vec<String> = Vec::new();
        proof {
            assert(parts_view(v@) =~= spec_version_parts(t@, i as int));
        }
        return v;
    }
    let part = String::from_str(t.substring_char(i, e));
    if e == n {
        let mut v: Vec<String> = Vec::new();
        v.push(part);
        proof {
            assert(parts_view(v@) =~= spec_version_parts(t@, i as int));
        }
        return v;
    }
    let c = t.get_char(e);
    if c == '.' || c == '-' {
        let mut rest = version_parts(t, e + 1);
        rest.insert(0, part);
        proof {
            assert(parts_view(rest@) =~= seq![t@.subrange(i as int, e as int)].add(
                spec_version_parts(t@, e + 1),
            ));
        }
        rest
    } else {
        let v: Vec<String> = Vec::new();
        proof {
            assert(parts_view(v@) =~= spec_version_parts(t@, i as int));
        }
        v
    }
}

/// Formats a raw version string to the precision `vspec` asks for: trims
/// whitespace, keeps the leading numeric dot/dash-delimited components
/// (tolerating fewer than requested), and rejects input with none at all.
pub fn format_version(raw: &str, vspec: &VersionSpec) -> (r: Result<String, FormatError>)
    ensures
        match r {
            Ok(v) => spec_format_version(raw@, vspec.components as nat) == Some(v@),
            Err(e) => spec_format_version(raw@, vspec.components as nat) is None
                && e == FormatError::Version,
        },
{
    let n = raw.unicode_len();
    let mut a: usize = 0;
    while a < n && is_ws(raw.get_char(a))
        invariant
            n == raw@.len(),
            a <= n,
            first_nonws(raw@, 0) == first_nonws(raw@, a as int),
        decreases n - a,
    {
        a += 1;
    }
    proof {
        assert(first_nonws(raw@, 0) == a as int);
    }
    let mut b: usize = n;
    while b > a && is_ws(raw.get_char(b - 1))
        invariant
            n == raw@.len(),
            a <= b <= n,
            a < n ==> !spec_is_ws(raw@[a as int]),
            a < n ==> a < b,
            last_nonws(raw@, n as int) == last_nonws(raw@, b as int),
        decreases b,
    {
        b -= 1;
    }
    let t = raw.substring_char(a, b);
    proof {
        if a < n {
            assert(last_nonws(raw@, b as int) == b as int);
            assert(t@ =~= spec_trim(raw@));
        } else {
            lemma_last_nonws_le(raw@, b as int);
            assert(t@ =~= spec_trim(raw@));
        }
    }
    let parts = version_parts(t, 0);
    if parts.len() == 0 {
        return Err(FormatError::Version);
    }
    let k = if vspec.components <= parts.len() {
        vspec.components
    } else {
        parts.len()
    };
    let ghost kept = parts_view(parts@).take(k as int);
    let mut out = String::new();
    let mut idx: usize = 0;
    while idx < k
        invariant
            k <= parts@.len(),
            idx <= k,
            kept == parts_view(parts@).take(k as int),
            out@ == spec_join(parts_view(parts@).take(idx as int)),
        decreases k - idx,
    {
        if idx > 0 {
            out.append(".");
            proof {
                reveal_strlit(".");
                assert("."@ =~= seq!['.']);
            }
        }
        out.append(parts[idx].as_str());
        proof {
            let ps = parts_view(parts@);
            assert(ps[idx as int] == parts@[idx as int]@);
            if idx == 0 {
                assert(ps.take(1)[0] == ps[0]);
                assert(out@ =~= spec_join(ps.take(1)));
            } else {
                assert(ps.take(idx + 1).drop_last() =~= ps.take(idx as int));
                assert(ps.take(idx + 1).last() == ps[idx as int]);
            }
        }
        idx += 1;
    }
    Ok(out)
}

proof fn lemma_last_nonws_le(s: Seq<char>, b: int)
    requires
        0 <= b <= s.len(),
    ensures
        0 <= last_nonws(s, b) <= b,
    decreases b,
{
    if b <= 0 {
    } else if spec_is_ws(s[b - 1]) {
        lemma_last_nonws_le(s, b - 1);
    }
}

} // verus!
