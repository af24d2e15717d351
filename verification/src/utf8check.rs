//! A runtime check that a byte string is valid UTF-8, proved equal to the
//! encoding validity predicate of vstd.
//!
//! The grammar extracts text regions from the transcript; a region that is
//! not valid UTF-8 is a hard parse failure, so the recognizers call this
//! check on every captured region.
use vstd::prelude::*;
use vstd::utf8::*;

verus! {

/// Whether `input` is a valid UTF-8 encoding.
///
/// The loop walks one encoded scalar at a time, mirroring the conditions of
/// `valid_first_scalar`: the leading-byte class, the continuation bytes, the
/// overlong-encoding bounds and the surrogate range.
pub fn is_utf8(input: &[u8]) -> (r: bool)
    ensures
        r == valid_utf8(input@),
{
    let n = input.len();
    let mut i: usize = 0;
    proof {
        assert(input@.skip(0) =~= input@);
    }
    while i < n
        invariant
            i <= n,
            n == input.len(),
            valid_utf8(input@) == valid_utf8(input@.skip(i as int)),
        decreases n - i,
    {
        let ghost s = input@.skip(i as int);
        proof {
            assert(s.len() == n - i);
            assert(s[0] == input@[i as int]);
        }
        let rem = n - i;
        let b0 = input[i];
        if b0 < 0x80 {
            // One byte; a codepoint below 0x80 can be neither overlong nor a
            // surrogate, but the checks mirror the specification verbatim.
            let cp: u32 = (b0 & 0x7f) as u32;
            if 0xd800 <= cp && cp <= 0xdfff {
                proof {
                    assert(!valid_first_scalar(s));
                }
                return false;
            }
            proof {
                assert(valid_first_scalar(s));
                assert(length_of_first_scalar(s) == 1);
                assert(pop_first_scalar(s) =~= input@.skip(i as int + 1));
            }
            i = i + 1;
        } else if b0 < 0xc0 {
            // A continuation byte cannot lead an encoding.
            proof {
                assert(!valid_first_scalar(s));
            }
            return false;
        } else if b0 < 0xe0 {
            if rem < 2 {
                proof {
                    assert(!valid_first_scalar(s));
                }
                return false;
            }
            let b1 = input[i + 1];
            proof {
                assert(s[1] == input@[i as int + 1]);
            }
            if !(0x80 <= b1 && b1 <= 0xbf) {
                proof {
                    assert(!valid_first_scalar(s));
                }
                return false;
            }
            let cp: u32 = (((b0 & 0x1f) as u32) << 6) | ((b1 & 0x3f) as u32);
            proof {
                assert(cp == codepoint_width_2(s[0], s[1]));
            }
            if cp < 0x80 || (0xd800 <= cp && cp <= 0xdfff) {
                proof {
                    assert(!valid_first_scalar(s));
                }
                return false;
            }
            proof {
                assert(valid_first_scalar(s));
                assert(length_of_first_scalar(s) == 2);
                assert(pop_first_scalar(s) =~= input@.skip(i as int + 2));
            }
            i = i + 2;
        } else if b0 < 0xf0 {
            if rem < 3 {
                proof {
                    assert(!valid_first_scalar(s));
                }
                return false;
            }
            let b1 = input[i + 1];
            let b2 = input[i + 2];
            proof {
                assert(s[1] == input@[i as int + 1]);
                assert(s[2] == input@[i as int + 2]);
            }
            if !(0x80 <= b1 && b1 <= 0xbf) || !(0x80 <= b2 && b2 <= 0xbf) {
                proof {
                    assert(!valid_first_scalar(s));
                }
                return false;
            }
            let cp: u32 = (((b0 & 0x0f) as u32) << 12) | (((b1 & 0x3f) as u32) << 6) | ((b2
                & 0x3f) as u32);
            proof {
                assert(cp == codepoint_width_3(s[0], s[1], s[2]));
            }
            if cp < 0x800 || (0xd800 <= cp && cp <= 0xdfff) {
                proof {
                    assert(!valid_first_scalar(s));
                }
                return false;
            }
            proof {
                assert(valid_first_scalar(s));
                assert(length_of_first_scalar(s) == 3);
                assert(pop_first_scalar(s) =~= input@.skip(i as int + 3));
            }
            i = i + 3;
        } else if b0 < 0xf8 {
            if rem < 4 {
                proof {
                    assert(!valid_first_scalar(s));
                }
                return false;
            }
            let b1 = input[i + 1];
            let b2 = input[i + 2];
            let b3 = input[i + 3];
            proof {
                assert(s[1] == input@[i as int + 1]);
                assert(s[2] == input@[i as int + 2]);
                assert(s[3] == input@[i as int + 3]);
            }
            if !(0x80 <= b1 && b1 <= 0xbf) || !(0x80 <= b2 && b2 <= 0xbf) || !(0x80 <= b3 && b3
                <= 0xbf) {
                proof {
                    assert(!valid_first_scalar(s));
                }
                return false;
            }
            let cp: u32 = (((b0 & 0x07) as u32) << 18) | (((b1 & 0x3f) as u32) << 12) | (((b2
                & 0x3f) as u32) << 6) | ((b3 & 0x3f) as u32);
            proof {
                assert(cp == codepoint_width_4(s[0], s[1], s[2], s[3]));
            }
            if !(0x10000 <= cp && cp <= 0x10ffff) || (0xd800 <= cp && cp <= 0xdfff) {
                proof {
                    assert(!valid_first_scalar(s));
                }
                return false;
            }
            proof {
                assert(valid_first_scalar(s));
                assert(length_of_first_scalar(s) == 4);
                assert(pop_first_scalar(s) =~= input@.skip(i as int + 4));
            }
            i = i + 4;
        } else {
            // 0xf8 and above lead no encoding at all.
            proof {
                assert(!valid_first_scalar(s));
            }
            return false;
        }
    }
    proof {
        assert(input@.skip(n as int).len() == 0);
    }
    true
}

} // verus!
