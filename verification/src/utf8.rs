//! UTF-8 validity of stored credential bytes.
//!
//! A de-obfuscated record that is not valid UTF-8 is treated as holding
//! no accounts at all, never as a hard error.  Validity is stated here
//! over byte sequences and checked by a verified scanner, so that the
//! credential store does not depend on an unspecified library routine.

use vstd::prelude::*;

verus! {

/// A UTF-8 continuation byte, `0b10xxxxxx`.
pub open spec fn is_cont(b: u8) -> bool {
    0x80 <= b && b <= 0xBF
}

/// Whether `s` is a well-formed UTF-8 byte sequence: every code point is
/// shortest-form encoded, at most U+10FFFF, and not a surrogate.
pub open spec fn is_utf8(s: Seq<u8>) -> bool
    decreases s.len(),
{
    if s.len() == 0 {
        true
    } else {
        let b0 = s.first();
        if b0 < 0x80 {
            is_utf8(s.skip(1))
        } else if 0xC2 <= b0 && b0 <= 0xDF {
            s.len() >= 2 && is_cont(s[1]) && is_utf8(s.skip(2))
        } else if b0 == 0xE0 {
            s.len() >= 3 && 0xA0 <= s[1] && s[1] <= 0xBF && is_cont(s[2]) && is_utf8(s.skip(3))
        } else if (0xE1 <= b0 && b0 <= 0xEC) || b0 == 0xEE || b0 == 0xEF {
            s.len() >= 3 && is_cont(s[1]) && is_cont(s[2]) && is_utf8(s.skip(3))
        } else if b0 == 0xED {
            s.len() >= 3 && 0x80 <= s[1] && s[1] <= 0x9F && is_cont(s[2]) && is_utf8(s.skip(3))
        } else if b0 == 0xF0 {
            s.len() >= 4 && 0x90 <= s[1] && s[1] <= 0xBF && is_cont(s[2]) && is_cont(s[3])
                && is_utf8(s.skip(4))
        } else if 0xF1 <= b0 && b0 <= 0xF3 {
            s.len() >= 4 && is_cont(s[1]) && is_cont(s[2]) && is_cont(s[3]) && is_utf8(s.skip(4))
        } else if b0 == 0xF4 {
            s.len() >= 4 && 0x80 <= s[1] && s[1] <= 0x8F && is_cont(s[2]) && is_cont(s[3])
                && is_utf8(s.skip(4))
        } else {
            false
        }
    }
}

/// A sequence of plain ASCII bytes is valid UTF-8.
pub proof fn lemma_ascii_is_utf8(s: Seq<u8>)
    requires
        forall|i: int| 0 <= i < s.len() ==> s[i] < 0x80,
    ensures
        is_utf8(s),
    decreases s.len(),
{
    if s.len() > 0 {
        lemma_ascii_is_utf8(s.skip(1));
    }
}

/// Well-formed UTF-8 is closed under concatenation.
pub proof fn lemma_utf8_concat(a: Seq<u8>, b: Seq<u8>)
    requires
        is_utf8(a),
        is_utf8(b),
    ensures
        is_utf8(a + b),
    decreases a.len(),
{
    if a.len() == 0 {
        assert(a + b =~= b);
    } else {
        let s = a + b;
        let b0 = a.first();
        assert(s.first() == b0);
        let step: int = if b0 < 0x80 {
            1
        } else if 0xC2 <= b0 && b0 <= 0xDF {
            2
        } else if 0xE0 <= b0 && b0 <= 0xEF {
            3
        } else {
            4
        };
        assert(forall|i: int| 0 <= i < a.len() ==> s[i] == a[i]);
        assert(s.skip(step) =~= a.skip(step) + b);
        lemma_utf8_concat(a.skip(step), b);
    }
}

/// Check whether `s` is well-formed UTF-8.
pub fn check_utf8(s: &Vec<u8>) -> (r: bool)
    ensures
        r == is_utf8(s@),
{
    let n = s.len();
    let mut i: usize = 0;
    proof {
        assert(s@.skip(0) =~= s@);
    }
    while i < n
        invariant
            n == s@.len(),
            i <= n,
            is_utf8(s@) == is_utf8(s@.skip(i as int)),
        decreases n - i,
    {
        let ghost rest = s@.skip(i as int);
        let b0 = s[i];
        proof {
            assert(rest.first() == s@[i as int]);
        }
        let step: usize;
        if b0 < 0x80 {
            step = 1;
        } else if 0xC2 <= b0 && b0 <= 0xDF {
            if !(n - i >= 2 && 0x80 <= s[i + 1] && s[i + 1] <= 0xBF) {
                return false;
            }
            step = 2;
        } else if b0 == 0xE0 {
            if !(n - i >= 3 && 0xA0 <= s[i + 1] && s[i + 1] <= 0xBF && 0x80 <= s[i + 2]
                && s[i + 2] <= 0xBF) {
                return false;
            }
            step = 3;
        } else if (0xE1 <= b0 && b0 <= 0xEC) || b0 == 0xEE || b0 == 0xEF {
            if !(n - i >= 3 && 0x80 <= s[i + 1] && s[i + 1] <= 0xBF && 0x80 <= s[i + 2]
                && s[i + 2] <= 0xBF) {
                return false;
            }
            step = 3;
        } else if b0 == 0xED {
            if !(n - i >= 3 && 0x80 <= s[i + 1] && s[i + 1] <= 0x9F && 0x80 <= s[i + 2]
                && s[i + 2] <= 0xBF) {
                return false;
            }
            step = 3;
        } else if b0 == 0xF0 {
            if !(n - i >= 4 && 0x90 <= s[i + 1] && s[i + 1] <= 0xBF && 0x80 <= s[i + 2]
                && s[i + 2] <= 0xBF && 0x80 <= s[i + 3] && s[i + 3] <= 0xBF) {
                return false;
            }
            step = 4;
        } else if 0xF1 <= b0 && b0 <= 0xF3 {
            if !(n - i >= 4 && 0x80 <= s[i + 1] && s[i + 1] <= 0xBF && 0x80 <= s[i + 2]
                && s[i + 2] <= 0xBF && 0x80 <= s[i + 3] && s[i + 3] <= 0xBF) {
                return false;
            }
            step = 4;
        } else if b0 == 0xF4 {
            if !(n - i >= 4 && 0x80 <= s[i + 1] && s[i + 1] <= 0x8F && 0x80 <= s[i + 2]
                && s[i + 2] <= 0xBF && 0x80 <= s[i + 3] && s[i + 3] <= 0xBF) {
                return false;
            }
            step = 4;
        } else {
            return false;
        }
        proof {
            assert(rest.skip(step as int) =~= s@.skip(i as int + step as int));
            assert(is_utf8(rest) == is_utf8(s@.skip(i as int + step as int)));
        }
        i = i + step;
    }
    proof {
        assert(s@.skip(n as int) =~= Seq::<u8>::empty());
    }
    true
}

} // verus!
