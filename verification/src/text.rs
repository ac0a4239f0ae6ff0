//! Text helpers for the dispatcher: string equality, substring search,
//! and the lossy byte-to-text conversion used for descriptive boxes.

use vstd::prelude::*;

verus! {

/// Whether `p` occurs as a contiguous run of characters inside `s`.
pub open spec fn spec_contains(s: Seq<char>, p: Seq<char>) -> bool {
    exists|i: int| 0 <= i && i + p.len() <= s.len() && #[trigger] s.subrange(i, i + p.len()) == p
}

/// Whether two string slices hold the same characters.
pub fn str_eq(a: &str, b: &str) -> (r: bool)
    ensures
        r == (a@ == b@),
{
    let sa = a.to_owned();
    let sb = b.to_owned();
    sa.eq(&sb)
}

/// Substring search: whether `pat` occurs inside `s`.
pub fn contains_substr(s: &str, pat: &str) -> (r: bool)
    ensures
        r == spec_contains(s@, pat@),
{
    let n = s.unicode_len();
    let m = pat.unicode_len();
    if m > n {
        return false;
    }
    if m == 0 {
        proof {
            assert(s@.subrange(0, 0 + pat@.len() as int) =~= pat@);
        }
        return true;
    }
    let mut i: usize = 0;
    while i <= n - m
        invariant
            n == s@.len(),
            m == pat@.len(),
            0 < m <= n,
            i <= n - m + 1,
            forall|q: int| 0 <= q < i as int ==> #[trigger] s@.subrange(q, q + m as int) != pat@,
        decreases n - i,
    {
        let mut j: usize = 0;
        let mut matched = true;
        while j < m
            invariant
                n == s@.len(),
                m == pat@.len(),
                i + m <= n,
                j <= m,
                matched ==> forall|k: int| 0 <= k < j as int ==> s@[i + k] == pat@[k],
                !matched ==> s@.subrange(i as int, i as int + m as int) != pat@,
            decreases m - j,
        {
            if matched {
                let sc = s.get_char(i + j);
                let pc = pat.get_char(j);
                if sc != pc {
                    proof {
                        assert(s@.subrange(i as int, i as int + m as int)[j as int] == s@[
                            i as int + j as int
                        ]);
                    }
                    matched = false;
                }
            }
            j += 1;
        }
        if matched {
            proof {
                assert(s@.subrange(i as int, i as int + m as int) =~= pat@);
            }
            return true;
        }
        i += 1;
    }
    false
}

/// The text that lossy UTF-8 conversion yields for a byte sequence:
/// a pure function of the bytes, with invalid sequences replaced.
pub uninterp spec fn utf8_lossy_of(bytes: Seq<u8>) -> Seq<char>;

/// Relies on `String::from_utf8_lossy`: the conversion is a pure
/// function of the bytes alone, replacing invalid sequences with the
/// replacement character rather than failing.
#[verifier::external_body]
pub fn lossy_string(data: &Vec<u8>) -> (r: String)
    ensures
        r@ == utf8_lossy_of(data@),
{
    String::from_utf8_lossy(data.as_slice()).to_string()
}

} // verus!
