//! Character classes and small verified string utilities used by the
//! template parser, the version formatter, and the compiler classifier.

use vstd::prelude::*;
use vstd::string::*;

verus! {

/// Characters permitted in a template variable or style name.
pub open spec fn spec_is_name_char(c: char) -> bool {
    ||| 'a' as u32 <= c as u32 && c as u32 <= 'z' as u32
    ||| 'A' as u32 <= c as u32 && c as u32 <= 'Z' as u32
    ||| '0' as u32 <= c as u32 && c as u32 <= '9' as u32
    ||| c == '_'
}

/// Decimal digits, as used by the version formatter.
pub open spec fn spec_is_digit(c: char) -> bool {
    '0' as u32 <= c as u32 && c as u32 <= '9' as u32
}

/// The whitespace stripped from probe output before version parsing.
pub open spec fn spec_is_ws(c: char) -> bool {
    c == ' ' || c == '\t' || c == '\n' || c == '\r'
}

pub fn is_name_char(c: char) -> (r: bool)
    ensures
        r == spec_is_name_char(c),
{
    let u = c as u32;
    ('a' as u32 <= u && u <= 'z' as u32) || ('A' as u32 <= u && u <= 'Z' as u32)
        || ('0' as u32 <= u && u <= '9' as u32) || c == '_'
}

pub fn is_digit(c: char) -> (r: bool)
    ensures
        r == spec_is_digit(c),
{
    let u = c as u32;
    '0' as u32 <= u && u <= '9' as u32
}

pub fn is_ws(c: char) -> (r: bool)
    ensures
        r == spec_is_ws(c),
{
    c == ' ' || c == '\t' || c == '\n' || c == '\r'
}

/// Relies on String::push: appends exactly one character at the end.
#[verifier::external_body]
pub fn push_char(s: &mut String, c: char)
    ensures
        final(s)@ == old(s)@.push(c),
{
    s.push(c)
}

/// Character-for-character string equality.
pub fn str_eq(a: &str, b: &str) -> (r: bool)
    ensures
        r == (a@ == b@),
{
    let na = a.unicode_len();
    let nb = b.unicode_len();
    if na != nb {
        return false;
    }
    let mut i: usize = 0;
    while i < na
        invariant
            na == a@.len(),
            nb == b@.len(),
            na == nb,
            i <= na,
            forall|j: int| 0 <= j < i ==> a@[j] == b@[j],
        decreases na - i,
    {
        if a.get_char(i) != b.get_char(i) {
            return false;
        }
        i += 1;
    }
    proof {
        assert(a@ =~= b@);
    }
    true
}

/// `p` occurs as a contiguous run of characters inside `s`.
pub open spec fn spec_contains(s: Seq<char>, p: Seq<char>) -> bool {
    exists|i: int| 0 <= i && i + p.len() <= s.len() && #[trigger] s.subrange(i, i + p.len() as int) == p
}

/// Substring search, used by the compiler-identity heuristic.
pub fn contains_sub(s: &str, p: &str) -> (r: bool)
    ensures
        r == spec_contains(s@, p@),
{
    let n = s.unicode_len();
    let m = p.unicode_len();
    if m > n {
        proof {
            if spec_contains(s@, p@) {
                let i = choose|i: int| 0 <= i && i + p@.len() <= s@.len()
                    && #[trigger] s@.subrange(i, i + p@.len() as int) == p@;
                assert(false);
            }
        }
        return false;
    }
    let mut i: usize = 0;
    while i <= n - m
        invariant
            n == s@.len(),
            m == p@.len(),
            m <= n,
            i <= n - m + 1,
            forall|k: int| 0 <= k < i ==> #[trigger] s@.subrange(k, k + p@.len() as int) != p@,
        decreases n - m + 1 - i,
    {
        let mut j: usize = 0;
        let mut hit = true;
        while j < m
            invariant
                n == s@.len(),
                m == p@.len(),
                m <= n,
                i <= n - m,
                j <= m,
                hit ==> forall|l: int| 0 <= l < j ==> s@[i + l] == p@[l],
                !hit ==> exists|l: int| 0 <= l < j && s@[i + l] != p@[l],
            decreases m - j,
        {
            if s.get_char(i + j) != p.get_char(j) {
                hit = false;
                j = m;
            } else {
                j += 1;
            }
        }
        if hit {
            proof {
                assert(s@.subrange(i as int, i + p@.len() as int) =~= p@);
            }
            return true;
        }
        proof {
            let l = choose|l: int| 0 <= l < m && s@[i + l] != p@[l];
            assert(s@.subrange(i as int, i + p@.len() as int)[l] == s@[i + l]);
        }
        i += 1;
    }
    proof {
        assert(forall|k: int| 0 <= k && k + p@.len() <= s@.len() ==> #[trigger] s@.subrange(k, k + p@.len() as int) != p@);
    }
    false
}

} // verus!
