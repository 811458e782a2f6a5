use vstd::prelude::*;

verus! {

/// A UTF-8 continuation byte.
pub open spec fn is_cont(b: u8) -> bool {
    0x80 <= b <= 0xBF
}

/// Validity of a byte sequence as UTF-8, following the encoding's byte
/// tables: one to four bytes per scalar value, overlongs and surrogates
/// excluded.
pub open spec fn is_valid_utf8(s: Seq<u8>) -> bool
    decreases s.len(),
{
    if s.len() == 0 {
        true
    } else {
        let b0 = s[0];
        if b0 < 0x80 {
            is_valid_utf8(s.skip(1))
        } else if 0xC2 <= b0 <= 0xDF {
            s.len() >= 2 && is_cont(s[1]) && is_valid_utf8(s.skip(2))
        } else if b0 == 0xE0 {
            s.len() >= 3 && 0xA0 <= s[1] <= 0xBF && is_cont(s[2]) && is_valid_utf8(s.skip(3))
        } else if 0xE1 <= b0 <= 0xEC || b0 == 0xEE || b0 == 0xEF {
            s.len() >= 3 && is_cont(s[1]) && is_cont(s[2]) && is_valid_utf8(s.skip(3))
        } else if b0 == 0xED {
            s.len() >= 3 && 0x80 <= s[1] <= 0x9F && is_cont(s[2]) && is_valid_utf8(s.skip(3))
        } else if b0 == 0xF0 {
            s.len() >= 4 && 0x90 <= s[1] <= 0xBF && is_cont(s[2]) && is_cont(s[3])
                && is_valid_utf8(s.skip(4))
        } else if 0xF1 <= b0 <= 0xF3 {
            s.len() >= 4 && is_cont(s[1]) && is_cont(s[2]) && is_cont(s[3])
                && is_valid_utf8(s.skip(4))
        } else if b0 == 0xF4 {
            s.len() >= 4 && 0x80 <= s[1] <= 0x8F && is_cont(s[2]) && is_cont(s[3])
                && is_valid_utf8(s.skip(4))
        } else {
            false
        }
    }
}

/// Checks whether `b` is valid UTF-8.
pub fn check_utf8(b: &Vec<u8>) -> (r: bool)
    ensures
        r == is_valid_utf8(b@),
{
    let n = b.len();
    let mut i: usize = 0;
    proof {
        assert(b@.skip(0) =~= b@);
    }
    loop
        invariant
            i <= n,
            n == b@.len(),
            is_valid_utf8(b@) == is_valid_utf8(b@.skip(i as int)),
        decreases n - i,
    {
        proof {
            assert(b@.skip(i as int).len() == n - i);
        }
        if i >= n {
            proof {
                assert(b@.skip(i as int) =~= Seq::<u8>::empty());
            }
            return true;
        }
        let ghost tail = b@.skip(i as int);
        proof {
            assert(tail[0] == b@[i as int]);
            assert(forall|j: int| 0 <= j < tail.len() ==> tail[j] == b@[i + j]);
        }
        let b0 = b[i];
        let rem = n - i;
        let w: usize;
        if b0 < 0x80 {
            w = 1;
        } else if 0xC2 <= b0 && b0 <= 0xDF {
            if !(rem >= 2 && 0x80 <= b[i + 1] && b[i + 1] <= 0xBF) {
                return false;
            }
            w = 2;
        } else if b0 == 0xE0 {
            if !(rem >= 3 && 0xA0 <= b[i + 1] && b[i + 1] <= 0xBF && 0x80 <= b[i + 2]
                && b[i + 2] <= 0xBF) {
                return false;
            }
            w = 3;
        } else if (0xE1 <= b0 && b0 <= 0xEC) || b0 == 0xEE || b0 == 0xEF {
            if !(rem >= 3 && 0x80 <= b[i + 1] && b[i + 1] <= 0xBF && 0x80 <= b[i + 2]
                && b[i + 2] <= 0xBF) {
                return false;
            }
            w = 3;
        } else if b0 == 0xED {
            if !(rem >= 3 && 0x80 <= b[i + 1] && b[i + 1] <= 0x9F && 0x80 <= b[i + 2]
                && b[i + 2] <= 0xBF) {
                return false;
            }
            w = 3;
        } else if b0 == 0xF0 {
            if !(rem >= 4 && 0x90 <= b[i + 1] && b[i + 1] <= 0xBF && 0x80 <= b[i + 2]
                && b[i + 2] <= 0xBF && 0x80 <= b[i + 3] && b[i + 3] <= 0xBF) {
                return false;
            }
            w = 4;
        } else if 0xF1 <= b0 && b0 <= 0xF3 {
            if !(rem >= 4 && 0x80 <= b[i + 1] && b[i + 1] <= 0xBF && 0x80 <= b[i + 2]
                && b[i + 2] <= 0xBF && 0x80 <= b[i + 3] && b[i + 3] <= 0xBF) {
                return false;
            }
            w = 4;
        } else if b0 == 0xF4 {
            if !(rem >= 4 && 0x80 <= b[i + 1] && b[i + 1] <= 0x8F && 0x80 <= b[i + 2]
                && b[i + 2] <= 0xBF && 0x80 <= b[i + 3] && b[i + 3] <= 0xBF) {
                return false;
            }
            w = 4;
        } else {
            return false;
        }
        proof {
            assert(b@.skip(i as int).skip(w as int) =~= b@.skip(i + w));
        }
        i = i + w;
    }
}

} // verus!
