//! A verified UTF-8 validity check for request payloads.

use vstd::prelude::*;
use vstd::utf8::{
    codepoint_width_1, codepoint_width_2, codepoint_width_3, codepoint_width_4,
    decode_first_codepoint, is_continuation_byte, is_leading_byte_width_1,
    is_leading_byte_width_2, is_leading_byte_width_3, is_leading_byte_width_4,
    length_of_first_scalar, pop_first_scalar, valid_first_scalar,
    valid_leading_and_continuation_bytes_first_codepoint, valid_utf8,
};

verus! {

/// Checks whether the bytes form a valid UTF-8 encoding, against vstd's
/// `valid_utf8` specification.
pub fn utf8_validate(v: &[u8]) -> (r: bool)
    ensures
        r == valid_utf8(v@),
{
    let n = v.len();
    proof {
        assert(v@.subrange(0, n as int) =~= v@);
    }
    let mut i: usize = 0;
    while i < n
        invariant
            0 <= i <= n,
            n == v@.len(),
            valid_utf8(v@) == valid_utf8(v@.subrange(i as int, n as int)),
        decreases n - i,
    {
        let ghost suffix = v@.subrange(i as int, n as int);
        proof {
            assert(suffix.len() == n - i);
            assert(suffix[0] == v@[i as int]);
        }
        let b0 = v[i];
        if b0 <= 0x7f {
            proof {
                assert(is_leading_byte_width_1(b0));
                assert(valid_first_scalar(suffix)) by {
                    assert(decode_first_codepoint(suffix) == codepoint_width_1(b0));
                    assert((b0 & 0x7f) <= 0x7f) by (bit_vector);
                };
                assert(length_of_first_scalar(suffix) == 1);
                assert(pop_first_scalar(suffix) =~= v@.subrange(i + 1, n as int));
                assert(valid_utf8(suffix) == valid_utf8(v@.subrange(i + 1, n as int)));
            }
            i += 1;
        } else if 0xc0 <= b0 && b0 <= 0xdf {
            if n - i < 2 {
                proof {
                    assert(!valid_leading_and_continuation_bytes_first_codepoint(suffix));
                    assert(!valid_utf8(suffix));
                }
                return false;
            }
            let b1 = v[i + 1];
            proof {
                assert(suffix[1] == b1);
            }
            if b1 < 0x80 || 0xbf < b1 {
                proof {
                    assert(!valid_leading_and_continuation_bytes_first_codepoint(suffix));
                    assert(!valid_utf8(suffix));
                }
                return false;
            }
            let cp: u32 = (((b0 & 0x1f) as u32) << 6u32) | ((b1 & 0x3f) as u32);
            proof {
                assert(cp == codepoint_width_2(b0, b1));
                assert(decode_first_codepoint(suffix) == codepoint_width_2(b0, b1));
            }
            if cp < 0x80 {
                proof {
                    assert(!valid_first_scalar(suffix));
                    assert(!valid_utf8(suffix));
                }
                return false;
            }
            proof {
                assert((((b0 & 0x1f) as u32) << 6u32) | ((b1 & 0x3f) as u32) <= 0x7ff)
                    by (bit_vector);
                assert(valid_first_scalar(suffix));
                assert(length_of_first_scalar(suffix) == 2);
                assert(pop_first_scalar(suffix) =~= v@.subrange(i + 2, n as int));
                assert(valid_utf8(suffix) == valid_utf8(v@.subrange(i + 2, n as int)));
            }
            i += 2;
        } else if 0xe0 <= b0 && b0 <= 0xef {
            if n - i < 3 {
                proof {
                    assert(!valid_leading_and_continuation_bytes_first_codepoint(suffix));
                    assert(!valid_utf8(suffix));
                }
                return false;
            }
            let b1 = v[i + 1];
            let b2 = v[i + 2];
            proof {
                assert(suffix[1] == b1);
                assert(suffix[2] == b2);
            }
            if b1 < 0x80 || 0xbf < b1 || b2 < 0x80 || 0xbf < b2 {
                proof {
                    assert(!valid_leading_and_continuation_bytes_first_codepoint(suffix));
                    assert(!valid_utf8(suffix));
                }
                return false;
            }
            let cp: u32 = (((b0 & 0x0f) as u32) << 12u32) | (((b1 & 0x3f) as u32) << 6u32) | ((
            b2 & 0x3f) as u32);
            proof {
                assert(cp == codepoint_width_3(b0, b1, b2));
                assert(decode_first_codepoint(suffix) == codepoint_width_3(b0, b1, b2));
            }
            if cp < 0x800 || (0xd800 <= cp && cp <= 0xdfff) {
                proof {
                    assert(!valid_first_scalar(suffix));
                    assert(!valid_utf8(suffix));
                }
                return false;
            }
            proof {
                assert(valid_first_scalar(suffix));
                assert(length_of_first_scalar(suffix) == 3);
                assert(pop_first_scalar(suffix) =~= v@.subrange(i + 3, n as int));
                assert(valid_utf8(suffix) == valid_utf8(v@.subrange(i + 3, n as int)));
            }
            i += 3;
        } else if 0xf0 <= b0 && b0 <= 0xf7 {
            if n - i < 4 {
                proof {
                    assert(!valid_leading_and_continuation_bytes_first_codepoint(suffix));
                    assert(!valid_utf8(suffix));
                }
                return false;
            }
            let b1 = v[i + 1];
            let b2 = v[i + 2];
            let b3 = v[i + 3];
            proof {
                assert(suffix[1] == b1);
                assert(suffix[2] == b2);
                assert(suffix[3] == b3);
            }
            if b1 < 0x80 || 0xbf < b1 || b2 < 0x80 || 0xbf < b2 || b3 < 0x80 || 0xbf < b3 {
                proof {
                    assert(!valid_leading_and_continuation_bytes_first_codepoint(suffix));
                    assert(!valid_utf8(suffix));
                }
                return false;
            }
            let cp: u32 = (((b0 & 0x07) as u32) << 18u32) | (((b1 & 0x3f) as u32) << 12u32) | (((
            b2 & 0x3f) as u32) << 6u32) | ((b3 & 0x3f) as u32);
            proof {
                assert(cp == codepoint_width_4(b0, b1, b2, b3));
                assert(decode_first_codepoint(suffix) == codepoint_width_4(b0, b1, b2, b3));
            }
            if cp < 0x10000 || 0x10ffff < cp {
                proof {
                    assert(!valid_first_scalar(suffix));
                    assert(!valid_utf8(suffix));
                }
                return false;
            }
            proof {
                assert(valid_first_scalar(suffix));
                assert(length_of_first_scalar(suffix) == 4);
                assert(pop_first_scalar(suffix) =~= v@.subrange(i + 4, n as int));
                assert(valid_utf8(suffix) == valid_utf8(v@.subrange(i + 4, n as int)));
            }
            i += 4;
        } else {
            proof {
                assert(!valid_leading_and_continuation_bytes_first_codepoint(suffix));
                assert(!valid_utf8(suffix));
            }
            return false;
        }
    }
    proof {
        assert(v@.subrange(n as int, n as int) =~= Seq::<u8>::empty());
        assert(valid_utf8(v@.subrange(n as int, n as int)));
    }
    true
}

} // verus!
