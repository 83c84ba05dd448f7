//! The engine's cross-cutting laws, stated and proved once over the
//! transition predicates and value functions that the instruction contracts
//! use.

use vstd::arithmetic::div_mod::{lemma_mod_sub_multiples_vanish, lemma_small_mod};
use vstd::prelude::*;

use crate::bits::{jtarget_of, op_of, rt_of, sext16, sext8, signed_wrap, to_signed};
use crate::cpu::{
    branch_taken, itype_post, jump_target, only_pc_write, regimm_post, Processor,
};
use crate::memory::Fault;

verus! {

/// ADDIU followed by SLT/SLTI agrees with plain two's-complement comparison
/// semantics, and the unsigned compares with plain modular comparison: the
/// word ADDIU writes, read as a signed value, is the exact signed sum
/// wrapped into the signed 32-bit range, and read as an unsigned value it is
/// the exact sum modulo 2^32; the signed and unsigned compare instructions
/// therefore decide exactly those comparisons of the sum.
pub proof fn lemma_addiu_slt_agreement(a: u32, b: u32, i: u32)
    requires
        i < 0x10000,
    ensures
        to_signed(a.wrapping_add(sext16(i))) == signed_wrap(to_signed(a) + to_signed(sext16(i))),
        a.wrapping_add(sext16(i)) == (a + sext16(i)) % 0x1_0000_0000,
        (to_signed(a.wrapping_add(sext16(i))) < to_signed(b)) <==> signed_wrap(
            to_signed(a) + to_signed(sext16(i)),
        ) < to_signed(b),
        (a.wrapping_add(sext16(i)) < b) <==> (a + sext16(i)) % 0x1_0000_0000 < b,
{
    let s = sext16(i);
    let t = to_signed(a) + to_signed(s);
    let m: int = 0x1_0000_0000;
    if t + 0x80000000 < 0 {
        lemma_mod_sub_multiples_vanish(t + 0x80000000 + m, m);
        lemma_small_mod((t + 0x80000000 + m) as nat, m as nat);
    } else if t + 0x80000000 >= m {
        lemma_mod_sub_multiples_vanish(t + 0x80000000, m);
        lemma_small_mod((t + 0x80000000 - m) as nat, m as nat);
    } else {
        lemma_small_mod((t + 0x80000000) as nat, m as nat);
    }
    if a + s < m {
        lemma_small_mod((a + s) as nat, m as nat);
    } else {
        lemma_mod_sub_multiples_vanish(a + s, m);
        lemma_small_mod((a + s - m) as nat, m as nat);
    }
}

/// LB and LH sign-extend correctly: the word a signed byte or half-word
/// load writes, read as a signed value, equals the signed value of the
/// loaded pattern at its own width; the unsigned loads keep the pattern's
/// unsigned value.
pub proof fn lemma_load_sign_extension(b: u8, h: u32)
    requires
        h < 0x10000,
    ensures
        to_signed(sext8(b)) == (if b >= 0x80 {
            b - 0x100
        } else {
            b as int
        }),
        to_signed(sext16(h)) == (if h >= 0x8000 {
            h - 0x10000
        } else {
            h as int
        }),
        sext8(b) as int % 0x100 == b as int,
        sext16(h) as int % 0x10000 == h as int,
{
    assert(sext8(b) % 0x100 == b) by (bit_vector)
        requires
            sext8(b) == (if b >= 0x80 {
                (b + 0xFFFFFF00) as u32
            } else {
                b as u32
            }),
    ;
    assert(sext16(h) % 0x10000 == h) by (bit_vector)
        requires
            h < 0x10000,
            sext16(h) == (if h >= 0x8000 {
                (h + 0xFFFF0000) as u32
            } else {
                h
            }),
    ;
}

/// Every modeled branch owns the PC for its cycle: it reports true to the
/// driver even when its condition is false, and in that case its only
/// effect is the sequential advance of 4, so after the driver skips its own
/// increment the PC ends at exactly the branch's address plus 4 (a
/// not-taken branch never double-advances the PC and never strands it).
pub proof fn lemma_branch_owns_pc(
    pre: Processor,
    post: Processor,
    inst: u32,
    r: Result<bool, Fault>,
)
    requires
        (0x04 <= op_of(inst) <= 0x07 && itype_post(pre, post, inst, r)) || (op_of(inst) == 0x01
            && (rt_of(inst) == 0x00 || rt_of(inst) == 0x01 || rt_of(inst) == 0x10 || rt_of(inst)
            == 0x11) && regimm_post(pre, post, inst, r)),
    ensures
        r == Ok::<bool, Fault>(true),
        !branch_taken(pre, inst) ==> only_pc_write(pre, post, pre.pc.wrapping_add(4)),
        !branch_taken(pre, inst) ==> post.pc == pre.pc.wrapping_add(4),
{
}

/// J and JAL jump within the current 256 MB segment: the new PC keeps the
/// pre-jump PC's top 4 bits, and its low 28 bits are exactly the 26-bit
/// target field scaled to words.
pub proof fn lemma_jump_target_segment(pc: u32, inst: u32)
    ensures
        jump_target(pc, inst) & 0xF0000000 == pc & 0xF0000000,
        jump_target(pc, inst) & 0x0FFFFFFF == jtarget_of(inst) << 2,
{
    assert(((pc & 0xF0000000) | ((inst & 0x3FFFFFF) << 2)) & 0xF0000000 == pc & 0xF0000000)
        by (bit_vector);
    assert(((pc & 0xF0000000) | ((inst & 0x3FFFFFF) << 2)) & 0x0FFFFFFF == (inst & 0x3FFFFFF) << 2)
        by (bit_vector);
}

} // verus!
