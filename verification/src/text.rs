use vstd::prelude::*;
use vstd::utf8::*;

verus! {

/// Relate the front of the remaining input to the whole input.
proof fn lemma_skip_front(bytes: Seq<u8>, i: int, j: int)
    requires
        0 <= i,
        0 <= j,
        i + j <= bytes.len(),
    ensures
        bytes.skip(i).len() == bytes.len() - i,
        forall|k: int| 0 <= k < j ==> #[trigger] bytes.skip(i)[k] == bytes[i + k],
{
}

/// After consuming one scalar of `k` bytes at offset `i`, the remaining input
/// is the input from offset `i + k`.
proof fn lemma_pop_is_skip(bytes: Seq<u8>, i: int, k: int)
    requires
        0 <= i,
        1 <= k,
        i + k <= bytes.len(),
        valid_first_scalar(bytes.skip(i)),
        length_of_first_scalar(bytes.skip(i)) == k,
    ensures
        pop_first_scalar(bytes.skip(i)) == bytes.skip(i + k),
{
    assert(pop_first_scalar(bytes.skip(i)) =~= bytes.skip(i + k));
}

/// Check whether the bytes form a valid UTF-8 encoding, as `str` defines it:
/// each scalar is encoded in its shortest form, surrogate codepoints are
/// rejected, and nothing above the last Unicode scalar value is accepted.
pub fn is_valid_utf8(bytes: &[u8]) -> (r: bool)
    ensures
        r == valid_utf8(bytes@),
{
    let n = bytes.len();
    let mut i: usize = 0;
    proof {
        assert(bytes@.skip(0) =~= bytes@);
    }
    while i < n
        invariant
            i <= n,
            n == bytes@.len(),
            valid_utf8(bytes@) == valid_utf8(bytes@.skip(i as int)),
        decreases n - i,
    {
        let ghost s = bytes@.skip(i as int);
        proof {
            lemma_skip_front(bytes@, i as int, if n - i < 4 { n - i } else { 4 } as int);
        }
        let b0 = bytes[i];
        if b0 < 0x80 {
            // One-byte scalar: never overlong, never a surrogate.
            proof {
                assert(valid_first_scalar(s));
                assert(b0 & 0x7f == b0) by (bit_vector)
                    requires
                        b0 < 0x80,
                ;
                lemma_pop_is_skip(bytes@, i as int, 1);
            }
            i = i + 1;
        } else if 0xc0 <= b0 && b0 <= 0xdf {
            if n - i < 2 {
                proof {
                    assert(!valid_leading_and_continuation_bytes_first_codepoint(s));
                }
                return false;
            }
            let b1 = bytes[i + 1];
            if !(0x80 <= b1 && b1 <= 0xbf) {
                proof {
                    assert(!valid_leading_and_continuation_bytes_first_codepoint(s));
                }
                return false;
            }
            let c: u32 = (((b0 & 0x1f) as u32) << 6u32) | ((b1 & 0x3f) as u32);
            proof {
                assert(c == decode_first_codepoint(s));
                assert(c <= 0x7ff) by (bit_vector)
                    requires
                        c == (((b0 & 0x1f) as u32) << 6u32) | ((b1 & 0x3f) as u32),
                ;
            }
            if c < 0x80 {
                // Overlong two-byte encoding of a one-byte value.
                proof {
                    assert(!not_overlong_encoding(decode_first_codepoint(s), 2));
                }
                return false;
            }
            proof {
                assert(valid_first_scalar(s));
                lemma_pop_is_skip(bytes@, i as int, 2);
            }
            i = i + 2;
        } else if 0xe0 <= b0 && b0 <= 0xef {
            if n - i < 3 {
                proof {
                    assert(!valid_leading_and_continuation_bytes_first_codepoint(s));
                }
                return false;
            }
            let b1 = bytes[i + 1];
            let b2 = bytes[i + 2];
            if !(0x80 <= b1 && b1 <= 0xbf) || !(0x80 <= b2 && b2 <= 0xbf) {
                proof {
                    assert(!valid_leading_and_continuation_bytes_first_codepoint(s));
                }
                return false;
            }
            let c: u32 = (((b0 & 0x0f) as u32) << 12u32) | (((b1 & 0x3f) as u32) << 6u32) | ((b2
                & 0x3f) as u32);
            proof {
                assert(c == decode_first_codepoint(s));
            }
            if c < 0x800 {
                // Overlong three-byte encoding of a shorter value.
                proof {
                    assert(!not_overlong_encoding(decode_first_codepoint(s), 3));
                }
                return false;
            }
            if 0xd800 <= c && c <= 0xdfff {
                // Surrogate codepoints are not Unicode scalars.
                return false;
            }
            proof {
                assert(valid_first_scalar(s));
                lemma_pop_is_skip(bytes@, i as int, 3);
            }
            i = i + 3;
        } else if 0xf0 <= b0 && b0 <= 0xf7 {
            if n - i < 4 {
                proof {
                    assert(!valid_leading_and_continuation_bytes_first_codepoint(s));
                }
                return false;
            }
            let b1 = bytes[i + 1];
            let b2 = bytes[i + 2];
            let b3 = bytes[i + 3];
            if !(0x80 <= b1 && b1 <= 0xbf) || !(0x80 <= b2 && b2 <= 0xbf) || !(0x80 <= b3 && b3
                <= 0xbf) {
                proof {
                    assert(!valid_leading_and_continuation_bytes_first_codepoint(s));
                }
                return false;
            }
            let c: u32 = (((b0 & 0x07) as u32) << 18u32) | (((b1 & 0x3f) as u32) << 12u32) | (((b2
                & 0x3f) as u32) << 6u32) | ((b3 & 0x3f) as u32);
            proof {
                assert(c == decode_first_codepoint(s));
            }
            if c < 0x10000 || c > 0x10ffff {
                // Overlong four-byte encoding, or a value past the last scalar.
                proof {
                    assert(!not_overlong_encoding(decode_first_codepoint(s), 4));
                }
                return false;
            }
            proof {
                assert(valid_first_scalar(s));
                lemma_pop_is_skip(bytes@, i as int, 4);
            }
            i = i + 4;
        } else {
            // A stray continuation byte, or a byte no encoding ever uses.
            proof {
                assert(!valid_leading_and_continuation_bytes_first_codepoint(s));
            }
            return false;
        }
    }
    proof {
        assert(bytes@.skip(n as int) =~= Seq::<u8>::empty());
    }
    true
}

} // verus!
