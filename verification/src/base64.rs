//! A forgiving base64 decoder for configurations passed on the command
//! line: characters outside the alphabet are skipped, the first padding
//! character ends the input, and whole bytes are emitted as soon as six-bit
//! groups fill them.

use vstd::prelude::*;
use vstd::string::StringSliceAdditionalSpecFns;

verus! {

/// ASCII 'A'.
pub const UPPER_A: u8 = 65;

/// ASCII 'Z'.
pub const UPPER_Z: u8 = 90;

/// ASCII 'a'.
pub const LOWER_A: u8 = 97;

/// ASCII 'z'.
pub const LOWER_Z: u8 = 122;

/// ASCII '0'.
pub const DIGIT_0: u8 = 48;

/// ASCII '9'.
pub const DIGIT_9: u8 = 57;

/// ASCII '+'.
pub const PLUS: u8 = 43;

/// ASCII '/'.
pub const SLASH: u8 = 47;

/// ASCII '=', the padding character.
pub const PAD: u8 = 61;

/// The six-bit value of a base64 alphabet character, if it is one.
pub open spec fn spec_b64_value(b: u8) -> Option<u8> {
    if UPPER_A <= b <= UPPER_Z {
        Some((b - UPPER_A) as u8)
    } else if LOWER_A <= b <= LOWER_Z {
        Some((b - LOWER_A + 26) as u8)
    } else if DIGIT_0 <= b <= DIGIT_9 {
        Some((b - DIGIT_0 + 52) as u8)
    } else if b == PLUS {
        Some(62u8)
    } else if b == SLASH {
        Some(63u8)
    } else {
        None
    }
}

/// The bytes decoded from position `i` on, with `buflen` bits of pending
/// input in the low end of `buffer`.  Padding ends the input; characters
/// outside the alphabet are skipped.
pub open spec fn spec_decode_from(s: Seq<u8>, i: int, buffer: u32, buflen: u32) -> Seq<u8>
    decreases s.len() - i,
{
    if i < 0 || i >= s.len() || s[i] == PAD {
        Seq::empty()
    } else {
        match spec_b64_value(s[i]) {
            Option::None => spec_decode_from(s, i + 1, buffer, buflen),
            Option::Some(v) => {
                let nb = (buffer << 6) | (v as u32);
                if buflen + 6 >= 8 {
                    let nl = ((buflen + 6) - 8) as u32;
                    seq![(nb >> nl) as u8] + spec_decode_from(s, i + 1, nb, nl)
                } else {
                    spec_decode_from(s, i + 1, nb, (buflen + 6) as u32)
                }
            },
        }
    }
}

/// Everything the decoder makes of a byte string.
pub open spec fn spec_base64_decode(s: Seq<u8>) -> Seq<u8> {
    spec_decode_from(s, 0, 0, 0)
}

/// Classifies one input byte.
fn b64_value(b: u8) -> (r: Option<u8>)
    ensures
        r == spec_b64_value(b),
{
    if b >= UPPER_A && b <= UPPER_Z {
        Some(b - UPPER_A)
    } else if b >= LOWER_A && b <= LOWER_Z {
        Some(b - LOWER_A + 26)
    } else if b >= DIGIT_0 && b <= DIGIT_9 {
        Some(b - DIGIT_0 + 52)
    } else if b == PLUS {
        Some(62)
    } else if b == SLASH {
        Some(63)
    } else {
        None
    }
}

/// Decodes a base64 string, skipping foreign characters and stopping at the
/// first padding character.
pub fn base64_decode(input: &str) -> (r: Vec<u8>)
    ensures
        r@ == spec_base64_decode(input.spec_bytes()),
{
    let bytes = input.as_bytes();
    let mut output: Vec<u8> = Vec::new();
    let mut buffer: u32 = 0;
    let mut buflen: u32 = 0;
    let mut i: usize = 0;
    while i < bytes.len()
        invariant
            bytes@ == input.spec_bytes(),
            i <= bytes@.len(),
            buflen < 8,
            spec_base64_decode(input.spec_bytes()) == output@ + spec_decode_from(
                bytes@,
                i as int,
                buffer,
                buflen,
            ),
        decreases bytes@.len() - i,
    {
        let b = bytes[i];
        if b == PAD {
            proof {
                assert(spec_decode_from(bytes@, i as int, buffer, buflen) =~= Seq::<u8>::empty());
                assert(spec_decode_from(bytes@, bytes@.len() as int, buffer, buflen)
                    =~= Seq::<u8>::empty());
            }
            i = bytes.len();
        } else {
            let ghost prev_out = output@;
            let ghost pb = buffer;
            let ghost pl = buflen;
            match b64_value(b) {
                Some(v) => {
                    buffer = (buffer << 6) | (v as u32);
                    buflen = buflen + 6;
                    if buflen >= 8 {
                        buflen = buflen - 8;
                        let byte = (buffer >> buflen) as u8;
                        output.push(byte);
                        proof {
                            assert(spec_decode_from(bytes@, i as int, pb, pl) == seq![byte]
                                + spec_decode_from(bytes@, i + 1, buffer, buflen));
                            assert(prev_out + spec_decode_from(bytes@, i as int, pb, pl)
                                =~= output@ + spec_decode_from(bytes@, i + 1, buffer, buflen));
                        }
                    } else {
                        proof {
                            assert(spec_decode_from(bytes@, i as int, pb, pl)
                                == spec_decode_from(bytes@, i + 1, buffer, buflen));
                        }
                    }
                },
                None => {
                    proof {
                        assert(spec_decode_from(bytes@, i as int, pb, pl) == spec_decode_from(
                            bytes@,
                            i + 1,
                            pb,
                            pl,
                        ));
                    }
                },
            }
            i = i + 1;
        }
    }
    proof {
        assert(spec_decode_from(bytes@, bytes@.len() as int, buffer, buflen)
            =~= Seq::<u8>::empty());
        assert(output@ + Seq::<u8>::empty() =~= output@);
    }
    output
}

} // verus!
