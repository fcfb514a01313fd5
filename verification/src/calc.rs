use vstd::prelude::*;

verus! {

/// One 16-bit register value. All arithmetic wraps around modulo 2^16;
/// signed readings use the two's-complement interpretation.
#[derive(Clone, Copy, PartialEq, Eq, Structural, Debug)]
pub struct Reg(pub u16);

/// Interpret a 16-bit word as a signed two's-complement value.
pub open spec fn as_signed(w: u16) -> int {
    if w < 0x8000 {
        w as int
    } else {
        w - 0x10000
    }
}

/// Wrapping 16-bit addition.
pub open spec fn spec_add16(a: u16, b: u16) -> u16 {
    vstd::wrapping::u16_specs::wrapping_add(a, b)
}

/// Wrapping 16-bit subtraction.
pub open spec fn spec_sub16(a: u16, b: u16) -> u16 {
    vstd::wrapping::u16_specs::wrapping_sub(a, b)
}

/// Sign-extend the low 6 bits of `n` (a two's-complement 6-bit immediate)
/// to a 16-bit word. Bits of `n` above the low 6 are ignored.
pub open spec fn spec_se_6(n: u8) -> u16 {
    if n & 0x20 == 0 {
        (n & 0x3F) as u16
    } else {
        ((n & 0x3F) as u16) | 0xFFC0
    }
}

/// Sign-extend an 8-bit two's-complement immediate to a 16-bit word.
pub open spec fn spec_se_8(n: u8) -> u16 {
    if n & 0x80 == 0 {
        n as u16
    } else {
        (n as u16) | 0xFF00
    }
}

/// Sign-extend the low 6 bits of an immediate to 16 bits.
pub fn se_6(n: u8) -> (r: u16)
    ensures
        r == spec_se_6(n),
{
    if n & 0x20 == 0 {
        (n & 0x3F) as u16
    } else {
        ((n & 0x3F) as u16) | 0xFFC0
    }
}

/// Sign-extend an 8-bit immediate to 16 bits.
pub fn se_8(n: u8) -> (r: u16)
    ensures
        r == spec_se_8(n),
{
    if n & 0x80 == 0 {
        n as u16
    } else {
        (n as u16) | 0xFF00
    }
}

/// The shift amount that a shift instruction takes from its second operand:
/// the low 4 bits.
pub open spec fn spec_shamt(b: u16) -> u16 {
    b & 0xF
}

/// Bit 4 of the second operand selects the direction: set means shift right.
pub open spec fn spec_shift_right(b: u16) -> bool {
    b & 0x10 != 0
}

/// A mask of ones in the top `k` bit positions of a 16-bit word (`k <= 16`).
pub open spec fn spec_high_mask(k: u16) -> u16 {
    !(0xFFFFu16 >> k)
}

/// Arithmetic shift: right shifts replicate the sign bit of `a`, left shifts
/// fill with zeroes.
pub open spec fn spec_sha(a: u16, b: u16) -> u16 {
    if spec_shift_right(b) {
        if a & 0x8000 == 0 {
            a >> spec_shamt(b)
        } else {
            (a >> spec_shamt(b)) | spec_high_mask(spec_shamt(b))
        }
    } else {
        a << spec_shamt(b)
    }
}

/// Logical shift: both directions fill with zeroes.
pub open spec fn spec_shl(a: u16, b: u16) -> u16 {
    if spec_shift_right(b) {
        a >> spec_shamt(b)
    } else {
        a << spec_shamt(b)
    }
}

impl Reg {
    /// Arithmetic shift of `self` by `rhs`: the low 4 bits of `rhs` give the
    /// amount, bit 4 of `rhs` gives the direction (set means right). A right
    /// shift replicates the sign bit of `self`.
    pub fn sha(self, rhs: Reg) -> (r: Reg)
        ensures
            r.0 == spec_sha(self.0, rhs.0),
    {
        let b0 = rhs.0;
        let shamt = b0 & 0xF;
        assert(shamt < 16) by (bit_vector)
            requires
                shamt == b0 & 0xF,
        ;
        if b0 & 0x10 != 0 {
            if self.0 & 0x8000 == 0 {
                Reg(self.0 >> shamt)
            } else {
                Reg((self.0 >> shamt) | !(0xFFFFu16 >> shamt))
            }
        } else {
            Reg(self.0 << shamt)
        }
    }

    /// Logical shift of `self` by `rhs`, with the same amount and direction
    /// convention as `sha` but zero-filling in both directions.
    pub fn shl(self, rhs: Reg) -> (r: Reg)
        ensures
            r.0 == spec_shl(self.0, rhs.0),
    {
        let b0 = rhs.0;
        let shamt = b0 & 0xF;
        assert(shamt < 16) by (bit_vector)
            requires
                shamt == b0 & 0xF,
        ;
        if b0 & 0x10 != 0 {
            Reg(self.0 >> shamt)
        } else {
            Reg(self.0 << shamt)
        }
    }
}

/// An arithmetic right shift leaves the sign bit of its first operand
/// unchanged, and fills every vacated high bit with a copy of it.
pub proof fn lemma_sha_right_preserves_sign(a: u16, b: u16)
    by (bit_vector)
    requires
        b & 0x10 != 0,
    ensures
        spec_sha(a, b) & 0x8000 == a & 0x8000,
        a & 0x8000 != 0 ==> spec_sha(a, b) & spec_high_mask(spec_shamt(b)) == spec_high_mask(
            spec_shamt(b),
        ),
{
}

/// A logical right shift fills every vacated high bit with zero, whatever
/// the sign of its first operand.
pub proof fn lemma_shl_right_zero_fills(a: u16, b: u16)
    by (bit_vector)
    requires
        b & 0x10 != 0,
    ensures
        spec_shl(a, b) & spec_high_mask(spec_shamt(b)) == 0,
        spec_shamt(b) != 0 ==> spec_shl(a, b) & 0x8000 == 0,
{
}

} // verus!
