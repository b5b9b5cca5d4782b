//! UTF-8 validity of byte sequences.
//!
//! The calendar scanner must abort on a line it cannot decode, and the todo
//! decoder rejects a body that is not UTF-8; both share this checker.

use vstd::prelude::*;

verus! {

/// A UTF-8 continuation byte.
pub open spec fn is_cont(b: u8) -> bool {
    0x80 <= b <= 0xBF
}

/// Length of the well-formed UTF-8 character starting at `i` in `s`, or 0 if
/// no well-formed character starts there.
pub open spec fn utf8_char_len(s: Seq<u8>, i: int) -> int {
    if i < 0 || i >= s.len() {
        0
    } else {
        let b0 = s[i];
        if b0 < 0x80 {
            1
        } else if b0 < 0xC2 {
            0
        } else if b0 < 0xE0 {
            if i + 1 < s.len() && is_cont(s[i + 1]) {
                2
            } else {
                0
            }
        } else if b0 < 0xF0 {
            if i + 2 < s.len() && (if b0 == 0xE0 {
                0xA0 <= s[i + 1] <= 0xBF
            } else if b0 == 0xED {
                0x80 <= s[i + 1] <= 0x9F
            } else {
                is_cont(s[i + 1])
            }) && is_cont(s[i + 2]) {
                3
            } else {
                0
            }
        } else if b0 < 0xF5 {
            if i + 3 < s.len() && (if b0 == 0xF0 {
                0x90 <= s[i + 1] <= 0xBF
            } else if b0 == 0xF4 {
                0x80 <= s[i + 1] <= 0x8F
            } else {
                is_cont(s[i + 1])
            }) && is_cont(s[i + 2]) && is_cont(s[i + 3]) {
                4
            } else {
                0
            }
        } else {
            0
        }
    }
}

/// The suffix of `s` starting at `i` is a sequence of well-formed UTF-8
/// characters.
pub open spec fn utf8_from(s: Seq<u8>, i: int) -> bool
    decreases s.len() - i when 0 <= i <= s.len()
{
    if i >= s.len() {
        true
    } else {
        let l = utf8_char_len(s, i);
        l > 0 && utf8_from(s, i + l)
    }
}

/// `s` is well-formed UTF-8.
pub open spec fn is_utf8(s: Seq<u8>) -> bool {
    utf8_from(s, 0)
}

/// Whether `bytes` is well-formed UTF-8.
pub fn check_utf8(bytes: &[u8]) -> (r: bool)
    ensures
        r == is_utf8(bytes@),
{
    let n = bytes.len();
    let mut i: usize = 0;
    while i < n
        invariant
            i <= n,
            n == bytes@.len(),
            is_utf8(bytes@) == utf8_from(bytes@, i as int),
        decreases n - i,
    {
        let b0 = bytes[i];
        let l: usize = if b0 < 0x80 {
            1
        } else if b0 < 0xC2 {
            return false;
        } else if b0 < 0xE0 {
            if i + 1 < n && bytes[i + 1] >= 0x80 && bytes[i + 1] <= 0xBF {
                2
            } else {
                return false;
            }
        } else if b0 < 0xF0 {
            let lo: u8 = if b0 == 0xE0 {
                0xA0
            } else {
                0x80
            };
            let hi: u8 = if b0 == 0xED {
                0x9F
            } else {
                0xBF
            };
            if n - i > 2 && bytes[i + 1] >= lo && bytes[i + 1] <= hi && bytes[i + 2] >= 0x80
                && bytes[i + 2] <= 0xBF {
                3
            } else {
                return false;
            }
        } else if b0 < 0xF5 {
            let lo: u8 = if b0 == 0xF0 {
                0x90
            } else {
                0x80
            };
            let hi: u8 = if b0 == 0xF4 {
                0x8F
            } else {
                0xBF
            };
            if n - i > 3 && bytes[i + 1] >= lo && bytes[i + 1] <= hi && bytes[i + 2] >= 0x80
                && bytes[i + 2] <= 0xBF && bytes[i + 3] >= 0x80 && bytes[i + 3] <= 0xBF {
                4
            } else {
                return false;
            }
        } else {
            return false;
        };
        assert(utf8_char_len(bytes@, i as int) == l);
        i = i + l;
    }
    true
}

} // verus!
