//! Small bit-level helpers used by byte-lookup tables.

use vstd::prelude::*;

verus! {

/// Shifts a byte to the right and returns both the shifted byte and the bits
/// that carried: `input == r.0 * 2^c + r.1` for `c = rotation % 8`.
pub fn shr_carry(input: u8, rotation: u8) -> (r: (u8, u8))
    ensures
        r.0 == input >> (rotation & 0x7),
        r.1 == input % (1u8 << (rotation & 0x7)),
        input == r.0 * (1u8 << (rotation & 0x7)) + r.1,
{
    let c_mod = rotation & 0x7;
    proof {
        assert(c_mod < 8) by (bit_vector)
            requires
                c_mod == rotation & 0x7,
        ;
    }
    if c_mod != 0 {
        let res = input >> c_mod;
        let carry = (input << (8 - c_mod)) >> (8 - c_mod);
        proof {
            assert(res == input >> (rotation & 0x7) && carry == input % (1u8 << (rotation & 0x7))
                && input == res * (1u8 << (rotation & 0x7)) + carry) by (bit_vector)
                requires
                    c_mod == rotation & 0x7,
                    c_mod != 0,
                    res == input >> c_mod,
                    carry == (input << (8 - c_mod) as u8) >> (8 - c_mod) as u8,
            ;
        }
        (res, carry)
    } else {
        proof {
            assert(input == input >> (rotation & 0x7) && input % (1u8 << (rotation & 0x7)) == 0
                && input == input * (1u8 << (rotation & 0x7)) + 0) by (bit_vector)
                requires
                    rotation & 0x7 == 0,
            ;
        }
        (input, 0u8)
    }
}

/// Computes `b < c` and returns the result as a `u8`.
pub fn lt(b: u8, c: u8) -> (r: u8)
    ensures
        r == (if b < c {
            1u8
        } else {
            0u8
        }),
{
    if b < c {
        1
    } else {
        0
    }
}

} // verus!
