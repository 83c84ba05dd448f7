//! Bit-field extraction and two's-complement arithmetic.
//!
//! Instruction words are 32-bit little-endian values; registers hold 32-bit
//! unsigned words that signed operations reinterpret as two's complement.
//! The spec functions here give the mathematical meaning of those
//! reinterpretations, and the executable helpers compute them with proofs.

use vstd::arithmetic::div_mod::{lemma_mod_sub_multiples_vanish, lemma_small_mod};
use vstd::math::abs;
use vstd::prelude::*;

verus! {

// ---------------------------------------------------------------------------
// Instruction fields
// ---------------------------------------------------------------------------

/// Primary opcode: bits 31-26.
pub open spec fn op_of(inst: u32) -> u32 {
    (inst & 0xFC000000) >> 26
}

/// First source register index: bits 25-21.
pub open spec fn rs_of(inst: u32) -> u32 {
    (inst & 0x3E00000) >> 21
}

/// Second source / target register index: bits 20-16.
pub open spec fn rt_of(inst: u32) -> u32 {
    (inst & 0x1F0000) >> 16
}

/// Destination register index: bits 15-11.
pub open spec fn rd_of(inst: u32) -> u32 {
    (inst & 0xF800) >> 11
}

/// Shift amount: bits 10-6.
pub open spec fn shamt_of(inst: u32) -> u32 {
    (inst & 0x7C0) >> 6
}

/// Function code of a register-type instruction: bits 5-0.
pub open spec fn funct_of(inst: u32) -> u32 {
    inst & 0x3F
}

/// Unsigned 16-bit immediate: bits 15-0.
pub open spec fn imm16_of(inst: u32) -> u32 {
    inst & 0xFFFF
}

/// Jump target field: bits 25-0.
pub open spec fn jtarget_of(inst: u32) -> u32 {
    inst & 0x3FFFFFF
}

pub(crate) fn field_rs(inst: u32) -> (r: usize)
    ensures
        r == rs_of(inst),
        r < 32,
{
    proof {
        assert((inst & 0x3E00000) >> 21 < 32) by (bit_vector);
    }
    ((inst & 0x3E00000) >> 21) as usize
}

pub(crate) fn field_rt(inst: u32) -> (r: usize)
    ensures
        r == rt_of(inst),
        r < 32,
{
    proof {
        assert((inst & 0x1F0000) >> 16 < 32) by (bit_vector);
    }
    ((inst & 0x1F0000) >> 16) as usize
}

pub(crate) fn field_rd(inst: u32) -> (r: usize)
    ensures
        r == rd_of(inst),
        r < 32,
{
    proof {
        assert((inst & 0xF800) >> 11 < 32) by (bit_vector);
    }
    ((inst & 0xF800) >> 11) as usize
}

pub(crate) fn field_shamt(inst: u32) -> (r: u32)
    ensures
        r == shamt_of(inst),
        r < 32,
{
    proof {
        assert((inst & 0x7C0) >> 6 < 32) by (bit_vector);
    }
    (inst & 0x7C0) >> 6
}

pub(crate) fn field_imm16(inst: u32) -> (r: u32)
    ensures
        r == imm16_of(inst),
        r < 0x10000,
{
    proof {
        assert(inst & 0xFFFF < 0x10000) by (bit_vector);
    }
    inst & 0xFFFF
}

// ---------------------------------------------------------------------------
// Sign extension and two's-complement reinterpretation
// ---------------------------------------------------------------------------

/// The 16-bit pattern `h`, sign-extended to a 32-bit word.
pub open spec fn sext16(h: u32) -> u32
    recommends
        h < 0x10000,
{
    if h >= 0x8000 {
        (h + 0xFFFF0000) as u32
    } else {
        h
    }
}

/// The 8-bit pattern `b`, sign-extended to a 32-bit word.
pub open spec fn sext8(b: u8) -> u32 {
    if b >= 0x80 {
        (b + 0xFFFFFF00) as u32
    } else {
        b as u32
    }
}

/// The two's-complement (signed) value of a stored 32-bit word.
pub open spec fn to_signed(x: u32) -> int {
    if x >= 0x80000000 {
        x - 0x100000000
    } else {
        x as int
    }
}

/// An integer reduced into 64-bit two's-complement representation.
pub open spec fn wrap64(v: int) -> u64 {
    (v % 0x1_0000_0000_0000_0000) as u64
}

/// The upper 32 bits of a 64-bit word.
pub open spec fn hi_of(x: u64) -> u32 {
    ((x as int) / 0x1_0000_0000) as u32
}

/// The lower 32 bits of a 64-bit word.
pub open spec fn lo_of(x: u64) -> u32 {
    ((x as int) % 0x1_0000_0000) as u32
}

/// An integer wrapped into the signed 32-bit range [-2^31, 2^31).
pub open spec fn signed_wrap(v: int) -> int {
    ((v + 0x80000000) % 0x1_0000_0000) - 0x80000000
}

pub(crate) fn sign_extend16(h: u32) -> (r: u32)
    requires
        h < 0x10000,
    ensures
        r == sext16(h),
{
    if h >= 0x8000 {
        h + 0xFFFF0000
    } else {
        h
    }
}

pub(crate) fn sign_extend8(b: u8) -> (r: u32)
    ensures
        r == sext8(b),
{
    if b >= 0x80 {
        (b as u32) + 0xFFFFFF00
    } else {
        b as u32
    }
}

pub(crate) fn signed_lt(a: u32, b: u32) -> (r: bool)
    ensures
        r == (to_signed(a) < to_signed(b)),
{
    let an = a >= 0x80000000;
    let bn = b >= 0x80000000;
    if an == bn {
        a < b
    } else {
        an
    }
}

pub(crate) fn signed_lez(a: u32) -> (r: bool)
    ensures
        r == (to_signed(a) <= 0),
{
    a == 0 || a >= 0x80000000
}

pub(crate) fn signed_neg(a: u32) -> (r: bool)
    ensures
        r == (to_signed(a) < 0),
{
    a >= 0x80000000
}

// ---------------------------------------------------------------------------
// Shifts, multiplication and division on two's-complement words
// ---------------------------------------------------------------------------

/// The word `x` sign-extended to 64 bits.
pub open spec fn sext_u64(x: u32) -> u64 {
    if x >= 0x80000000 {
        (x + 0xFFFFFFFF_0000_0000) as u64
    } else {
        x as u64
    }
}

/// Arithmetic (sign-propagating) right shift of `x` by `s` places:
/// sign-extend to 64 bits, shift, and keep the low 32 bits.
pub open spec fn sra32(x: u32, s: u32) -> u32
    recommends
        s < 32,
{
    ((sext_u64(x) >> (s as u64)) % 0x1_0000_0000) as u32
}

pub(crate) fn sra(x: u32, s: u32) -> (r: u32)
    requires
        s < 32,
    ensures
        r == sra32(x, s),
{
    let e: u64 = if x >= 0x80000000 {
        (x as u64) + 0xFFFFFFFF_0000_0000
    } else {
        x as u64
    };
    ((e >> (s as u64)) % 0x1_0000_0000) as u32
}

pub(crate) proof fn lemma_mask31(x: u32)
    ensures
        x & 0x1F < 32,
{
    assert(x & 0x1F < 32) by (bit_vector);
}

/// Signed division with the quotient rounded toward zero, as machine
/// division performs it.
pub open spec fn trunc_div(x: int, y: int) -> int
    recommends
        y != 0,
{
    if x >= 0 && y >= 0 {
        x / y
    } else if x < 0 && y < 0 {
        (-x) / (-y)
    } else if x < 0 {
        -((-x) / y)
    } else {
        -(x / (-y))
    }
}

/// The magnitude of the two's-complement value of `x`, as a 64-bit word.
pub(crate) fn magnitude(x: u32) -> (m: u64)
    ensures
        m == abs(to_signed(x)),
        m <= 0x80000000,
{
    if x >= 0x80000000 {
        0x1_0000_0000u64 - (x as u64)
    } else {
        x as u64
    }
}

/// `v` reduced into 64-bit two's-complement form, for a magnitude `p` and a
/// sign: the core of the HI/LO updates of multiply and divide.
proof fn lemma_wrap64_of_signed(v: int, p: u64, neg: bool)
    requires
        if neg {
            v == -(p as int)
        } else {
            v == p as int
        },
    ensures
        wrap64(v) == (if neg && p > 0 {
            (0x1_0000_0000_0000_0000 - p) as u64
        } else {
            p
        }),
{
    let m: int = 0x1_0000_0000_0000_0000;
    if neg && p > 0 {
        lemma_mod_sub_multiples_vanish(m - p, m);
        lemma_small_mod((m - p) as nat, m as nat);
    } else {
        lemma_small_mod(p as nat, m as nat);
    }
}

/// The 64-bit two's-complement product of the signed values of `a` and `b`.
pub(crate) fn mult_signed(a: u32, b: u32) -> (r: u64)
    ensures
        r == wrap64(to_signed(a) * to_signed(b)),
{
    let ma: u64 = magnitude(a);
    let mb: u64 = magnitude(b);
    proof {
        assert(ma * mb <= 0x80000000u64 * 0x80000000u64) by (nonlinear_arith)
            requires
                ma <= 0x80000000u64,
                mb <= 0x80000000u64,
        ;
    }
    let p: u64 = ma * mb;
    let neg: bool = (a >= 0x80000000) != (b >= 0x80000000);
    let r: u64 = if neg {
        0u64.wrapping_sub(p)
    } else {
        p
    };
    proof {
        let sa = to_signed(a);
        let sb = to_signed(b);
        assert(sa * sb == if neg {
            -((ma * mb) as int)
        } else {
            (ma * mb) as int
        }) by (nonlinear_arith)
            requires
                ma == abs(sa),
                mb == abs(sb),
                neg == ((sa < 0) != (sb < 0)),
        ;
        lemma_wrap64_of_signed(sa * sb, p, neg);
    }
    r
}

/// The 64-bit two's-complement form of the truncated signed quotient of the
/// signed values of `a` and `b`.
pub(crate) fn div_signed(a: u32, b: u32) -> (r: u64)
    requires
        b != 0,
    ensures
        r == wrap64(trunc_div(to_signed(a), to_signed(b))),
{
    let ma: u64 = magnitude(a);
    let mb: u64 = magnitude(b);
    let q: u64 = ma / mb;
    let neg: bool = (a >= 0x80000000) != (b >= 0x80000000);
    let r: u64 = if neg {
        0u64.wrapping_sub(q)
    } else {
        q
    };
    proof {
        let sa = to_signed(a);
        let sb = to_signed(b);
        assert(trunc_div(sa, sb) == if neg {
            -((ma / mb) as int)
        } else {
            (ma / mb) as int
        }) by (nonlinear_arith)
            requires
                ma == abs(sa),
                mb == abs(sb),
                mb > 0,
                neg == ((sa < 0) != (sb < 0)),
                trunc_div(sa, sb) == (if sa >= 0 && sb >= 0 {
                    sa / sb
                } else if sa < 0 && sb < 0 {
                    (-sa) / (-sb)
                } else if sa < 0 {
                    -((-sa) / sb)
                } else {
                    -(sa / (-sb))
                }),
        ;
        lemma_wrap64_of_signed(trunc_div(sa, sb), q, neg);
    }
    r
}

/// The upper 32 bits of a 64-bit word.
pub(crate) fn split_hi(w: u64) -> (r: u32)
    ensures
        r == hi_of(w),
{
    proof {
        assert(w / 0x1_0000_0000u64 < 0x1_0000_0000) by (bit_vector);
    }
    (w / 0x1_0000_0000) as u32
}

/// The lower 32 bits of a 64-bit word.
pub(crate) fn split_lo(w: u64) -> (r: u32)
    ensures
        r == lo_of(w),
{
    (w % 0x1_0000_0000) as u32
}

} // verus!
