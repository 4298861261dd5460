use vstd::prelude::*;

verus! {

/// A UTF-8 continuation byte.
pub open spec fn utf8_cont(b: u8) -> bool {
    0x80 <= b <= 0xbf
}

/// The bytes of `s` from position `i` on form a sequence of well-formed
/// UTF-8 encoded scalar values (shortest form, no surrogates, at most
/// U+10FFFF).
pub open spec fn valid_utf8_from(s: Seq<u8>, i: int) -> bool
    decreases s.len() - i when 0 <= i
{
    if i >= s.len() {
        true
    } else {
        let b0 = s[i];
        if b0 < 0x80 {
            valid_utf8_from(s, i + 1)
        } else if 0xc2 <= b0 <= 0xdf {
            &&& i + 1 < s.len()
            &&& utf8_cont(s[i + 1])
            &&& valid_utf8_from(s, i + 2)
        } else if b0 == 0xe0 {
            &&& i + 2 < s.len()
            &&& 0xa0 <= s[i + 1] <= 0xbf
            &&& utf8_cont(s[i + 2])
            &&& valid_utf8_from(s, i + 3)
        } else if 0xe1 <= b0 <= 0xec || b0 == 0xee || b0 == 0xef {
            &&& i + 2 < s.len()
            &&& utf8_cont(s[i + 1])
            &&& utf8_cont(s[i + 2])
            &&& valid_utf8_from(s, i + 3)
        } else if b0 == 0xed {
            &&& i + 2 < s.len()
            &&& 0x80 <= s[i + 1] <= 0x9f
            &&& utf8_cont(s[i + 2])
            &&& valid_utf8_from(s, i + 3)
        } else if b0 == 0xf0 {
            &&& i + 3 < s.len()
            &&& 0x90 <= s[i + 1] <= 0xbf
            &&& utf8_cont(s[i + 2])
            &&& utf8_cont(s[i + 3])
            &&& valid_utf8_from(s, i + 4)
        } else if 0xf1 <= b0 <= 0xf3 {
            &&& i + 3 < s.len()
            &&& utf8_cont(s[i + 1])
            &&& utf8_cont(s[i + 2])
            &&& utf8_cont(s[i + 3])
            &&& valid_utf8_from(s, i + 4)
        } else if b0 == 0xf4 {
            &&& i + 3 < s.len()
            &&& 0x80 <= s[i + 1] <= 0x8f
            &&& utf8_cont(s[i + 2])
            &&& utf8_cont(s[i + 3])
            &&& valid_utf8_from(s, i + 4)
        } else {
            false
        }
    }
}

/// The whole of `s` is well-formed UTF-8.
pub open spec fn is_valid_utf8(s: Seq<u8>) -> bool {
    valid_utf8_from(s, 0)
}

/// Decides well-formedness of UTF-8 over the bytes of `v`.
pub fn check_utf8(v: &Vec<u8>) -> (r: bool)
    ensures
        r == is_valid_utf8(v@),
{
    let n = v.len();
    let mut i: usize = 0;
    while i < n
        invariant
            0 <= i <= n == v@.len(),
            is_valid_utf8(v@) == valid_utf8_from(v@, i as int),
        decreases n - i,
    {
        let b0 = v[i];
        if b0 < 0x80 {
            i = i + 1;
        } else if 0xc2 <= b0 && b0 <= 0xdf {
            if !(n - i > 1 && 0x80 <= v[i + 1] && v[i + 1] <= 0xbf) {
                return false;
            }
            i = i + 2;
        } else if b0 == 0xe0 {
            if !(n - i > 2 && 0xa0 <= v[i + 1] && v[i + 1] <= 0xbf && 0x80 <= v[i + 2] && v[i + 2]
                <= 0xbf) {
                return false;
            }
            i = i + 3;
        } else if (0xe1 <= b0 && b0 <= 0xec) || b0 == 0xee || b0 == 0xef {
            if !(n - i > 2 && 0x80 <= v[i + 1] && v[i + 1] <= 0xbf && 0x80 <= v[i + 2] && v[i + 2]
                <= 0xbf) {
                return false;
            }
            i = i + 3;
        } else if b0 == 0xed {
            if !(n - i > 2 && 0x80 <= v[i + 1] && v[i + 1] <= 0x9f && 0x80 <= v[i + 2] && v[i + 2]
                <= 0xbf) {
                return false;
            }
            i = i + 3;
        } else if b0 == 0xf0 {
            if !(n - i > 3 && 0x90 <= v[i + 1] && v[i + 1] <= 0xbf && 0x80 <= v[i + 2] && v[i + 2]
                <= 0xbf && 0x80 <= v[i + 3] && v[i + 3] <= 0xbf) {
                return false;
            }
            i = i + 4;
        } else if 0xf1 <= b0 && b0 <= 0xf3 {
            if !(n - i > 3 && 0x80 <= v[i + 1] && v[i + 1] <= 0xbf && 0x80 <= v[i + 2] && v[i + 2]
                <= 0xbf && 0x80 <= v[i + 3] && v[i + 3] <= 0xbf) {
                return false;
            }
            i = i + 4;
        } else if b0 == 0xf4 {
            if !(n - i > 3 && 0x80 <= v[i + 1] && v[i + 1] <= 0x8f && 0x80 <= v[i + 2] && v[i + 2]
                <= 0xbf && 0x80 <= v[i + 3] && v[i + 3] <= 0xbf) {
                return false;
            }
            i = i + 4;
        } else {
            return false;
        }
    }
    true
}

} // verus!
