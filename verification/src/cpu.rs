//! The processor core: register file, program counter, HI/LO accumulators,
//! the two memory regions, and the decode/execute engine.

use vstd::prelude::*;

use crate::bits::{
    div_signed, field_imm16, field_rd, field_rs, field_rt, field_shamt, funct_of, hi_of, imm16_of,
    jtarget_of, lemma_mask31, lo_of, mult_signed, op_of, rd_of, rs_of, rt_of, sext16,
    sext8, shamt_of, sign_extend16, sign_extend8, signed_lez, signed_lt, signed_neg, split_hi,
    split_lo, sra, sra32, to_signed, trunc_div, wrap64,
};
use crate::memory::{
    half_at, other_region, phys_of, region_of, region_off, store_half, store_word, word_at, Fault,
    MemType,
};

verus! {

// Physical address extent of the boot/flash region.
pub const BFM_BASE: u32 = 0x1FC00000;
pub const BFM_SIZE: u32 = 0x00003000;

// Size of the data region, whose physical base is 0.
pub const DRM_SIZE: u32 = 0x00008000;

// Virtual address where execution starts.
pub const BOOT_VIRT_ADDR: u32 = 0xBFC00000;

// The two live virtual windows, aliased onto physical space by base
// subtraction.
pub const KSEG0_BASE: u32 = 0x80000000;
pub const KSEG0_SIZE: u32 = 0x20000000;
pub const KSEG1_BASE: u32 = 0xA0000000;
pub const KSEG1_SIZE: u32 = 0x20000000;

/// The processor state: 32 general-purpose registers, the program counter,
/// the HI/LO accumulators, and the two byte-addressable memory regions.
///
/// Register 0 is a plain mutable slot: no write to it is intercepted.
pub struct Processor {
    /// Virtual address of the next instruction to fetch.
    pub pc: u32,
    /// The 32 general-purpose registers; always exactly 32 entries.
    pub regs: Vec<u32>,
    /// Data region: general read/write memory, physical base 0.
    pub drm: Vec<u8>,
    /// Boot/flash region: holds the loaded program image.
    pub bfm: Vec<u8>,
    /// Upper half of multiply results; divide output per the HI/LO policy.
    pub hi: u32,
    /// Lower half of multiply results; divide output per the HI/LO policy.
    pub lo: u32,
}

impl Processor {
    /// Structural well-formedness: the register file and both regions have
    /// their fixed sizes.  Established by the constructor and preserved by
    /// every operation.
    pub open spec fn wf(self) -> bool {
        &&& self.regs@.len() == 32
        &&& self.bfm@.len() == BFM_SIZE
        &&& self.drm@.len() == DRM_SIZE
    }

    /// The backing bytes of the selected region.
    pub open spec fn mem(self, t: MemType) -> Seq<u8> {
        match t {
            MemType::BFM => self.bfm@,
            MemType::DRM => self.drm@,
        }
    }

    /// The word held by register `i`.
    pub open spec fn reg_val(self, i: u32) -> u32
        recommends
            i < 32,
    {
        self.regs@[i as int]
    }

    /// A processor at the boot state: PC at the boot virtual address, all
    /// registers and accumulators zero, both regions zero-filled.
    pub fn new() -> (p: Processor)
        ensures
            p.wf(),
            p.pc == BOOT_VIRT_ADDR,
            p.hi == 0,
            p.lo == 0,
            forall|i: int| 0 <= i < 32 ==> p.regs@[i] == 0,
            forall|i: int| 0 <= i < BFM_SIZE ==> p.bfm@[i] == 0,
            forall|i: int| 0 <= i < DRM_SIZE ==> p.drm@[i] == 0,
    {
        Processor {
            pc: BOOT_VIRT_ADDR,
            regs: zero_words(32),
            drm: zero_bytes(DRM_SIZE as usize),
            bfm: zero_bytes(BFM_SIZE as usize),
            hi: 0,
            lo: 0,
        }
    }

    /// The word held by register `i`, for drivers and tests.
    pub fn reg(&self, i: usize) -> (r: u32)
        requires
            self.wf(),
            i < 32,
        ensures
            r == self.reg_val(i as u32),
    {
        self.regs[i]
    }

    /// Store `v` into register `i`, for drivers and tests.
    pub fn set_reg(&mut self, i: usize, v: u32)
        requires
            old(self).wf(),
            i < 32,
        ensures
            final(self).wf(),
            final(self).regs@ == old(self).regs@.update(i as int, v),
            final(self).pc == old(self).pc,
            final(self).hi == old(self).hi,
            final(self).lo == old(self).lo,
            final(self).bfm@ == old(self).bfm@,
            final(self).drm@ == old(self).drm@,
    {
        self.regs[i] = v;
    }

    /// Install a program image at offset 0 of the boot region.  The image
    /// must fit in the region's fixed capacity.
    pub fn write_to_bfm(&mut self, bytes: &[u8])
        requires
            old(self).wf(),
            bytes@.len() <= BFM_SIZE,
        ensures
            final(self).wf(),
            final(self).bfm@ == bytes@ + old(self).bfm@.skip(bytes@.len() as int),
            final(self).pc == old(self).pc,
            final(self).regs@ == old(self).regs@,
            final(self).hi == old(self).hi,
            final(self).lo == old(self).lo,
            final(self).drm@ == old(self).drm@,
    {
        let n: usize = bytes.len();
        let mut k: usize = 0;
        while k < n
            invariant
                self.wf(),
                k <= n,
                n == bytes@.len(),
                n <= BFM_SIZE,
                forall|i: int| 0 <= i < k ==> self.bfm@[i] == bytes@[i],
                forall|i: int| k <= i < BFM_SIZE ==> self.bfm@[i] == old(self).bfm@[i],
                self.pc == old(self).pc,
                self.regs@ == old(self).regs@,
                self.hi == old(self).hi,
                self.lo == old(self).lo,
                self.drm@ == old(self).drm@,
            decreases n - k,
        {
            self.bfm[k] = bytes[k];
            k = k + 1;
        }
        proof {
            assert(self.bfm@ =~= bytes@ + old(self).bfm@.skip(bytes@.len() as int));
        }
    }

    /// Fetch the instruction word at the current program counter: translate
    /// the PC, then load 32 bits from the selected region.  Fails exactly
    /// when the translated offset does not leave room for a full word, which
    /// signals end-of-program to the driver.
    pub fn get_inst(&mut self) -> (r: Result<u32, Fault>)
        requires
            old(self).wf(),
        ensures
            *final(self) == *old(self),
            ({
                let t = region_of(phys_of(old(self).pc));
                let off = region_off(phys_of(old(self).pc));
                let buf = old(self).mem(t);
                if off + 4 <= buf.len() {
                    r == Ok::<u32, Fault>(word_at(buf, off as int))
                } else {
                    r == Err::<u32, Fault>(Fault::OutOfBounds)
                }
            }),
    {
        let memtype_addr = self.addr_loc(self.pc);
        self.load32(memtype_addr.0, memtype_addr.1)
    }

    /// Execute a register-type instruction (primary opcode 0), dispatched by
    /// its function code.  Returns the control-flow-ownership flag: true for
    /// the two register jumps, false for every other modeled operation.
    pub fn handle_r_instruction(&mut self, inst: u32) -> (r: Result<bool, Fault>)
        requires
            old(self).wf(),
        ensures
            final(self).wf(),
            r_type_post(*old(self), *final(self), inst, r),
    {
        let rs = field_rs(inst);
        let rt = field_rt(inst);
        let rd = field_rd(inst);
        let shamt = field_shamt(inst);
        let funct: u32 = inst & 0x3F;
        let a: u32 = self.regs[rs];
        let b: u32 = self.regs[rt];
        match funct {
            0x00 => {
                // SLL
                self.set_reg(rd, b << shamt);
                Ok(false)
            },
            0x02 => {
                // SRL
                self.set_reg(rd, b >> shamt);
                Ok(false)
            },
            0x03 => {
                // SRA
                self.set_reg(rd, sra(b, shamt));
                Ok(false)
            },
            0x04 => {
                // SLLV
                let sh: u32 = a & 0x1F;
                proof {
                    lemma_mask31(a);
                }
                self.set_reg(rd, b << sh);
                Ok(false)
            },
            0x06 => {
                // SRLV
                let sh: u32 = a & 0x1F;
                proof {
                    lemma_mask31(a);
                }
                self.set_reg(rd, b >> sh);
                Ok(false)
            },
            0x07 => {
                // SRAV
                let sh: u32 = a & 0x1F;
                proof {
                    lemma_mask31(a);
                }
                self.set_reg(rd, sra(b, sh));
                Ok(false)
            },
            0x08 => {
                // JR
                self.pc = a;
                Ok(true)
            },
            0x09 => {
                // JALR: the link write lands before the jump target is read,
                // so a jump through register 31 leaves through the new link.
                let link: u32 = self.pc.wrapping_add(4);
                self.set_reg(31, link);
                let target: u32 = self.regs[rs];
                self.pc = target;
                Ok(true)
            },
            0x10 => {
                // MFHI
                self.set_reg(rd, self.hi);
                Ok(false)
            },
            0x11 => {
                // MTHI
                self.hi = a;
                Ok(false)
            },
            0x12 => {
                // MFLO
                self.set_reg(rd, self.lo);
                Ok(false)
            },
            0x13 => {
                // MTLO
                self.lo = a;
                Ok(false)
            },
            0x18 => {
                // MULT
                let w: u64 = mult_signed(a, b);
                self.hi = split_hi(w);
                self.lo = split_lo(w);
                Ok(false)
            },
            0x19 => {
                // MULTU
                proof {
                    assert((a as u64) * (b as u64) == a * b) by (nonlinear_arith);
                    assert(wrap64(a * b) == (a as u64) * (b as u64)) by {
                        assert((a as u64) * (b as u64) < 0x1_0000_0000_0000_0000) by (
                        nonlinear_arith)
                            requires
                                a <= 0xFFFFFFFFu32,
                                b <= 0xFFFFFFFFu32,
                        ;
                        vstd::arithmetic::div_mod::lemma_small_mod(
                            ((a as u64) * (b as u64)) as nat,
                            0x1_0000_0000_0000_0000,
                        );
                    }
                }
                let w: u64 = (a as u64) * (b as u64);
                self.hi = split_hi(w);
                self.lo = split_lo(w);
                Ok(false)
            },
            0x1A => {
                // DIV: divide by zero leaves HI/LO unchanged.
                if b == 0 {
                    Ok(false)
                } else {
                    let w: u64 = div_signed(a, b);
                    self.hi = split_hi(w);
                    self.lo = split_lo(w);
                    Ok(false)
                }
            },
            0x1B => {
                // DIVU: divide by zero leaves HI/LO unchanged.
                if b == 0 {
                    Ok(false)
                } else {
                    self.hi = 0;
                    self.lo = a / b;
                    Ok(false)
                }
            },
            0x20 => {
                // ADD: two's-complement addition coincides bit-for-bit with
                // the unsigned wrapping sum.
                self.set_reg(rd, a.wrapping_add(b));
                Ok(false)
            },
            0x21 => {
                // ADDU
                self.set_reg(rd, a.wrapping_add(b));
                Ok(false)
            },
            0x22 => {
                // SUB
                self.set_reg(rd, a.wrapping_sub(b));
                Ok(false)
            },
            0x23 => {
                // SUBU
                self.set_reg(rd, a.wrapping_sub(b));
                Ok(false)
            },
            0x24 => {
                // AND
                self.set_reg(rd, a & b);
                Ok(false)
            },
            0x25 => {
                // OR
                self.set_reg(rd, a | b);
                Ok(false)
            },
            0x26 => {
                // XOR
                self.set_reg(rd, a ^ b);
                Ok(false)
            },
            0x27 => {
                // NOR
                self.set_reg(rd, !(a | b));
                Ok(false)
            },
            0x2A => {
                // SLT
                if signed_lt(a, b) {
                    self.set_reg(rd, 1);
                } else {
                    self.set_reg(rd, 0);
                }
                Ok(false)
            },
            0x2B => {
                // SLTU
                if a < b {
                    self.set_reg(rd, 1);
                } else {
                    self.set_reg(rd, 0);
                }
                Ok(false)
            },
            _ => Err(Fault::UnknownInstruction),
        }
    }

    /// Execute a REGIMM branch (primary opcode 1): a signed sign-test branch
    /// on rs, dispatched by the rt field, with link variants.  Always returns
    /// true: the branch owns the PC for this cycle, performing the sequential
    /// advance of 4 itself when it is not taken.
    pub fn handle_i_branch_instruction(&mut self, inst: u32) -> (r: Result<bool, Fault>)
        requires
            old(self).wf(),
        ensures
            final(self).wf(),
            regimm_post(*old(self), *final(self), inst, r),
    {
        let rs = field_rs(inst);
        let sub = field_rt(inst);
        let a: u32 = self.regs[rs];
        let imm: u32 = field_imm16(inst);
        let offset: u32 = sign_extend16(imm);
        match sub {
            0x00 => {
                // BLTZ
                if signed_neg(a) {
                    self.pc = self.pc.wrapping_add(offset << 2);
                } else {
                    self.pc = self.pc.wrapping_add(4);
                }
                Ok(true)
            },
            0x01 => {
                // BGEZ
                if !signed_neg(a) {
                    self.pc = self.pc.wrapping_add(offset << 2);
                } else {
                    self.pc = self.pc.wrapping_add(4);
                }
                Ok(true)
            },
            0x10 => {
                // BLTZAL
                if signed_neg(a) {
                    let link: u32 = self.pc.wrapping_add(4);
                    self.set_reg(31, link);
                    self.pc = self.pc.wrapping_add(offset << 2);
                } else {
                    self.pc = self.pc.wrapping_add(4);
                }
                Ok(true)
            },
            0x11 => {
                // BGEZAL
                if !signed_neg(a) {
                    let link: u32 = self.pc.wrapping_add(4);
                    self.set_reg(31, link);
                    self.pc = self.pc.wrapping_add(offset << 2);
                } else {
                    self.pc = self.pc.wrapping_add(4);
                }
                Ok(true)
            },
            _ => Err(Fault::UnknownInstruction),
        }
    }

    /// Decode and execute one instruction word: extract the primary opcode
    /// and dispatch to the register-type, REGIMM, jump, or immediate-type
    /// group.  Returns the control-flow-ownership flag: when true the
    /// instruction fully owns the next PC value and the driver must not add
    /// 4; when false the driver advances the PC itself.
    pub fn handle_instruction(&mut self, inst: u32) -> (r: Result<bool, Fault>)
        requires
            old(self).wf(),
        ensures
            final(self).wf(),
            op_of(inst) == 0x00 ==> r_type_post(*old(self), *final(self), inst, r),
            op_of(inst) == 0x01 ==> regimm_post(*old(self), *final(self), inst, r),
            op_of(inst) >= 0x02 ==> itype_post(*old(self), *final(self), inst, r),
    {
        let opcode: u32 = (inst & 0xFC000000) >> 26;
        match opcode {
            0x00 => self.handle_r_instruction(inst),
            0x01 => self.handle_i_branch_instruction(inst),
            _ => self.handle_itype_instruction(inst),
        }
    }

    /// Execute a jump, branch, immediate, load or store instruction: every
    /// primary opcode of 2 or above.
    fn handle_itype_instruction(&mut self, inst: u32) -> (r: Result<bool, Fault>)
        requires
            old(self).wf(),
            op_of(inst) >= 0x02,
        ensures
            final(self).wf(),
            itype_post(*old(self), *final(self), inst, r),
    {
        let opcode: u32 = (inst & 0xFC000000) >> 26;
        match opcode {
            0x02 | 0x03 | 0x04 | 0x05 | 0x06 | 0x07 => self.exec_jump_branch(inst),
            0x09 | 0x0A | 0x0B | 0x0C | 0x0D | 0x0E | 0x0F => self.exec_immediate(inst),
            0x20 | 0x21 | 0x23 | 0x24 | 0x25 => self.exec_load(inst),
            0x28 | 0x29 | 0x2B => self.exec_store(inst),
            _ => Err(Fault::UnknownInstruction),
        }
    }

    /// The two absolute jumps and the four I-type branches.
    #[verifier::spinoff_prover]
    fn exec_jump_branch(&mut self, inst: u32) -> (r: Result<bool, Fault>)
        requires
            old(self).wf(),
            0x02 <= op_of(inst) <= 0x07,
        ensures
            final(self).wf(),
            itype_post(*old(self), *final(self), inst, r),
    {
        let opcode: u32 = (inst & 0xFC000000) >> 26;
        let rs = field_rs(inst);
        let rt = field_rt(inst);
        match opcode {
            0x02 => {
                // J
                self.pc = (self.pc & 0xF0000000) | ((inst & 0x3FFFFFF) << 2);
                Ok(true)
            },
            0x03 => {
                // JAL
                let link: u32 = self.pc.wrapping_add(4);
                self.set_reg(31, link);
                self.pc = (self.pc & 0xF0000000) | ((inst & 0x3FFFFFF) << 2);
                Ok(true)
            },
            0x04 => {
                // BEQ
                let offset: u32 = sign_extend16(field_imm16(inst));
                if self.regs[rs] == self.regs[rt] {
                    self.pc = self.pc.wrapping_add(offset << 2);
                } else {
                    self.pc = self.pc.wrapping_add(4);
                }
                Ok(true)
            },
            0x05 => {
                // BNE
                let offset: u32 = sign_extend16(field_imm16(inst));
                if self.regs[rs] != self.regs[rt] {
                    self.pc = self.pc.wrapping_add(offset << 2);
                } else {
                    self.pc = self.pc.wrapping_add(4);
                }
                Ok(true)
            },
            0x06 => {
                // BLEZ
                let offset: u32 = sign_extend16(field_imm16(inst));
                if signed_lez(self.regs[rs]) {
                    self.pc = self.pc.wrapping_add(offset << 2);
                } else {
                    self.pc = self.pc.wrapping_add(4);
                }
                Ok(true)
            },
            _ => {
                // BGTZ
                let offset: u32 = sign_extend16(field_imm16(inst));
                if !signed_lez(self.regs[rs]) {
                    self.pc = self.pc.wrapping_add(offset << 2);
                } else {
                    self.pc = self.pc.wrapping_add(4);
                }
                Ok(true)
            },
        }
    }

    /// The immediate arithmetic, comparison, logic and load-upper group.
    #[verifier::spinoff_prover]
    fn exec_immediate(&mut self, inst: u32) -> (r: Result<bool, Fault>)
        requires
            old(self).wf(),
            op_of(inst) == 0x09 || 0x0A <= op_of(inst) <= 0x0F,
        ensures
            final(self).wf(),
            itype_post(*old(self), *final(self), inst, r),
    {
        let opcode: u32 = (inst & 0xFC000000) >> 26;
        let rs = field_rs(inst);
        let rt = field_rt(inst);
        match opcode {
            0x09 => {
                // ADDIU
                let imm: u32 = sign_extend16(field_imm16(inst));
                let v: u32 = self.regs[rs].wrapping_add(imm);
                self.set_reg(rt, v);
                Ok(false)
            },
            0x0A => {
                // SLTI: the immediate is sign-extended before the signed
                // comparison.
                let imm: u32 = sign_extend16(field_imm16(inst));
                if signed_lt(self.regs[rs], imm) {
                    self.set_reg(rt, 1);
                } else {
                    self.set_reg(rt, 0);
                }
                Ok(false)
            },
            0x0B => {
                // SLTIU: the immediate is sign-extended, the compare is
                // unsigned.
                let imm: u32 = sign_extend16(field_imm16(inst));
                if self.regs[rs] < imm {
                    self.set_reg(rt, 1);
                } else {
                    self.set_reg(rt, 0);
                }
                Ok(false)
            },
            0x0C => {
                // ANDI
                let imm: u32 = field_imm16(inst);
                let v: u32 = self.regs[rs] & imm;
                self.set_reg(rt, v);
                Ok(false)
            },
            0x0D => {
                // ORI
                let imm: u32 = field_imm16(inst);
                let v: u32 = self.regs[rs] | imm;
                self.set_reg(rt, v);
                Ok(false)
            },
            0x0E => {
                // XORI
                let imm: u32 = field_imm16(inst);
                let v: u32 = self.regs[rs] ^ imm;
                self.set_reg(rt, v);
                Ok(false)
            },
            _ => {
                // LUI
                let imm: u32 = field_imm16(inst);
                self.set_reg(rt, imm << 16);
                Ok(false)
            },
        }
    }

    /// The five loads: byte, half and word, signed and unsigned.
    #[verifier::spinoff_prover]
    fn exec_load(&mut self, inst: u32) -> (r: Result<bool, Fault>)
        requires
            old(self).wf(),
            op_of(inst) == 0x20 || op_of(inst) == 0x21 || op_of(inst) == 0x23 || op_of(inst)
                == 0x24 || op_of(inst) == 0x25,
        ensures
            final(self).wf(),
            itype_post(*old(self), *final(self), inst, r),
    {
        let opcode: u32 = (inst & 0xFC000000) >> 26;
        let rs = field_rs(inst);
        let rt = field_rt(inst);
        match opcode {
            0x20 => {
                // LB
                let imm: u32 = sign_extend16(field_imm16(inst));
                let vaddr: u32 = self.regs[rs].wrapping_add(imm);
                let memtype_addr = self.addr_loc(vaddr);
                match self.load8(memtype_addr.0, memtype_addr.1) {
                    Ok(byte) => {
                        self.set_reg(rt, sign_extend8(byte));
                        Ok(false)
                    },
                    Err(e) => Err(e),
                }
            },
            0x21 => {
                // LH
                let imm: u32 = sign_extend16(field_imm16(inst));
                let vaddr: u32 = self.regs[rs].wrapping_add(imm);
                let memtype_addr = self.addr_loc(vaddr);
                match self.load16(memtype_addr.0, memtype_addr.1) {
                    Ok(half) => {
                        proof {
                            assert(half < 0x10000);
                        }
                        self.set_reg(rt, sign_extend16(half));
                        Ok(false)
                    },
                    Err(e) => Err(e),
                }
            },
            0x23 => {
                // LW
                let imm: u32 = sign_extend16(field_imm16(inst));
                let vaddr: u32 = self.regs[rs].wrapping_add(imm);
                let memtype_addr = self.addr_loc(vaddr);
                match self.load32(memtype_addr.0, memtype_addr.1) {
                    Ok(word) => {
                        self.set_reg(rt, word);
                        Ok(false)
                    },
                    Err(e) => Err(e),
                }
            },
            0x24 => {
                // LBU
                let imm: u32 = sign_extend16(field_imm16(inst));
                let vaddr: u32 = self.regs[rs].wrapping_add(imm);
                let memtype_addr = self.addr_loc(vaddr);
                match self.load8(memtype_addr.0, memtype_addr.1) {
                    Ok(byte) => {
                        self.set_reg(rt, byte as u32);
                        Ok(false)
                    },
                    Err(e) => Err(e),
                }
            },
            _ => {
                // LHU
                let imm: u32 = sign_extend16(field_imm16(inst));
                let vaddr: u32 = self.regs[rs].wrapping_add(imm);
                let memtype_addr = self.addr_loc(vaddr);
                match self.load16(memtype_addr.0, memtype_addr.1) {
                    Ok(half) => {
                        self.set_reg(rt, half);
                        Ok(false)
                    },
                    Err(e) => Err(e),
                }
            },
        }
    }

    /// The three stores: byte, half and word.
    #[verifier::spinoff_prover]
    fn exec_store(&mut self, inst: u32) -> (r: Result<bool, Fault>)
        requires
            old(self).wf(),
            op_of(inst) == 0x28 || op_of(inst) == 0x29 || op_of(inst) == 0x2B,
        ensures
            final(self).wf(),
            itype_post(*old(self), *final(self), inst, r),
    {
        let opcode: u32 = (inst & 0xFC000000) >> 26;
        let rs = field_rs(inst);
        let rt = field_rt(inst);
        match opcode {
            0x28 => {
                // SB
                let imm: u32 = sign_extend16(field_imm16(inst));
                let vaddr: u32 = self.regs[rs].wrapping_add(imm);
                let memtype_addr = self.addr_loc(vaddr);
                let v: u32 = self.regs[rt];
                match self.store8(memtype_addr.0, memtype_addr.1, v) {
                    Ok(_) => Ok(false),
                    Err(e) => Err(e),
                }
            },
            0x29 => {
                // SH
                let imm: u32 = sign_extend16(field_imm16(inst));
                let vaddr: u32 = self.regs[rs].wrapping_add(imm);
                let memtype_addr = self.addr_loc(vaddr);
                let v: u32 = self.regs[rt];
                match self.store16(memtype_addr.0, memtype_addr.1, v) {
                    Ok(_) => Ok(false),
                    Err(e) => Err(e),
                }
            },
            _ => {
                // SW
                let imm: u32 = sign_extend16(field_imm16(inst));
                let vaddr: u32 = self.regs[rs].wrapping_add(imm);
                let memtype_addr = self.addr_loc(vaddr);
                let v: u32 = self.regs[rt];
                match self.store32(memtype_addr.0, memtype_addr.1, v) {
                    Ok(_) => Ok(false),
                    Err(e) => Err(e),
                }
            },
        }
    }
}

// ---------------------------------------------------------------------------
// Transition predicates: what one executed instruction does to the state
// ---------------------------------------------------------------------------

/// No observable state change.
pub open spec fn unchanged_state(pre: Processor, post: Processor) -> bool {
    &&& post.pc == pre.pc
    &&& post.regs@ == pre.regs@
    &&& post.hi == pre.hi
    &&& post.lo == pre.lo
    &&& post.bfm@ == pre.bfm@
    &&& post.drm@ == pre.drm@
}

/// Exactly one register write: register `rd` receives `v`.
pub open spec fn only_reg_write(pre: Processor, post: Processor, rd: u32, v: u32) -> bool {
    &&& post.regs@ == pre.regs@.update(rd as int, v)
    &&& post.pc == pre.pc
    &&& post.hi == pre.hi
    &&& post.lo == pre.lo
    &&& post.bfm@ == pre.bfm@
    &&& post.drm@ == pre.drm@
}

/// Exactly the HI/LO pair changes.
pub open spec fn only_hilo_write(pre: Processor, post: Processor, hi: u32, lo: u32) -> bool {
    &&& post.regs@ == pre.regs@
    &&& post.pc == pre.pc
    &&& post.hi == hi
    &&& post.lo == lo
    &&& post.bfm@ == pre.bfm@
    &&& post.drm@ == pre.drm@
}

/// Exactly the program counter changes.
pub open spec fn only_pc_write(pre: Processor, post: Processor, pc: u32) -> bool {
    &&& post.regs@ == pre.regs@
    &&& post.pc == pc
    &&& post.hi == pre.hi
    &&& post.lo == pre.lo
    &&& post.bfm@ == pre.bfm@
    &&& post.drm@ == pre.drm@
}

/// The link register receives the address after the current instruction and
/// control transfers to `target`.
pub open spec fn link_and_jump(pre: Processor, post: Processor, target: u32) -> bool {
    &&& post.regs@ == pre.regs@.update(31, pre.pc.wrapping_add(4))
    &&& post.pc == target
    &&& post.hi == pre.hi
    &&& post.lo == pre.lo
    &&& post.bfm@ == pre.bfm@
    &&& post.drm@ == pre.drm@
}

/// The destination of a taken PC-relative branch: the sign-extended 16-bit
/// offset, scaled to words, added to the branch's own address.
pub open spec fn branch_target(pc: u32, inst: u32) -> u32 {
    pc.wrapping_add(sext16(imm16_of(inst)) << 2)
}

/// The destination of a J/JAL jump: the top 4 bits of the current PC with
/// the 26-bit target field scaled to words.
pub open spec fn jump_target(pc: u32, inst: u32) -> u32 {
    (pc & 0xF0000000) | (jtarget_of(inst) << 2)
}

/// The virtual address of a load or store: base register plus sign-extended
/// 16-bit displacement.
pub open spec fn eff_addr(pre: Processor, inst: u32) -> u32 {
    pre.reg_val(rs_of(inst)).wrapping_add(sext16(imm16_of(inst)))
}

/// What executing a register-type instruction (primary opcode 0) does, per
/// function code, to the processor and what it returns.
///
/// Deliberate policy decisions, recorded here once:
/// - DIV/DIVU keep the engine's historical HI/LO convention: the 64-bit
///   two's-complement form of the quotient is split across HI:LO, instead of
///   the remainder/quotient pair of standard MIPS.
/// - A divide by zero leaves HI and LO unchanged and is otherwise a no-op.
/// - Function codes outside the modeled set fail with `UnknownInstruction`.
pub open spec fn r_type_post(pre: Processor, post: Processor, inst: u32, r: Result<
    bool,
    Fault,
>) -> bool {
    let f = funct_of(inst);
    let a = pre.reg_val(rs_of(inst));
    let b = pre.reg_val(rt_of(inst));
    let rd = rd_of(inst);
    let sh = shamt_of(inst);
    &&& (f == 0x00 ==> r == Ok::<bool, Fault>(false) && only_reg_write(pre, post, rd, b << sh))
    &&& (f == 0x02 ==> r == Ok::<bool, Fault>(false) && only_reg_write(pre, post, rd, b >> sh))
    &&& (f == 0x03 ==> r == Ok::<bool, Fault>(false) && only_reg_write(
        pre,
        post,
        rd,
        sra32(b, sh),
    ))
    &&& (f == 0x04 ==> r == Ok::<bool, Fault>(false) && only_reg_write(
        pre,
        post,
        rd,
        b << (a & 0x1F),
    ))
    &&& (f == 0x06 ==> r == Ok::<bool, Fault>(false) && only_reg_write(
        pre,
        post,
        rd,
        b >> (a & 0x1F),
    ))
    &&& (f == 0x07 ==> r == Ok::<bool, Fault>(false) && only_reg_write(
        pre,
        post,
        rd,
        sra32(b, a & 0x1F),
    ))
    &&& (f == 0x08 ==> r == Ok::<bool, Fault>(true) && only_pc_write(pre, post, a))
    &&& (f == 0x09 ==> r == Ok::<bool, Fault>(true) && post.regs@ == pre.regs@.update(
        31,
        pre.pc.wrapping_add(4),
    ) && post.pc == post.regs@[rs_of(inst) as int] && post.hi == pre.hi && post.lo == pre.lo
        && post.bfm@ == pre.bfm@ && post.drm@ == pre.drm@)
    &&& (f == 0x10 ==> r == Ok::<bool, Fault>(false) && only_reg_write(pre, post, rd, pre.hi))
    &&& (f == 0x11 ==> r == Ok::<bool, Fault>(false) && only_hilo_write(pre, post, a, pre.lo))
    &&& (f == 0x12 ==> r == Ok::<bool, Fault>(false) && only_reg_write(pre, post, rd, pre.lo))
    &&& (f == 0x13 ==> r == Ok::<bool, Fault>(false) && only_hilo_write(pre, post, pre.hi, a))
    &&& (f == 0x18 ==> r == Ok::<bool, Fault>(false) && only_hilo_write(
        pre,
        post,
        hi_of(wrap64(to_signed(a) * to_signed(b))),
        lo_of(wrap64(to_signed(a) * to_signed(b))),
    ))
    &&& (f == 0x19 ==> r == Ok::<bool, Fault>(false) && only_hilo_write(
        pre,
        post,
        hi_of(wrap64(a * b)),
        lo_of(wrap64(a * b)),
    ))
    &&& (f == 0x1A ==> r == Ok::<bool, Fault>(false) && (if b == 0 {
        unchanged_state(pre, post)
    } else {
        only_hilo_write(
            pre,
            post,
            hi_of(wrap64(trunc_div(to_signed(a), to_signed(b)))),
            lo_of(wrap64(trunc_div(to_signed(a), to_signed(b)))),
        )
    }))
    &&& (f == 0x1B ==> r == Ok::<bool, Fault>(false) && (if b == 0 {
        unchanged_state(pre, post)
    } else {
        only_hilo_write(pre, post, 0, ((a as int) / (b as int)) as u32)
    }))
    &&& (f == 0x20 ==> r == Ok::<bool, Fault>(false) && only_reg_write(
        pre,
        post,
        rd,
        a.wrapping_add(b),
    ))
    &&& (f == 0x21 ==> r == Ok::<bool, Fault>(false) && only_reg_write(
        pre,
        post,
        rd,
        a.wrapping_add(b),
    ))
    &&& (f == 0x22 ==> r == Ok::<bool, Fault>(false) && only_reg_write(
        pre,
        post,
        rd,
        a.wrapping_sub(b),
    ))
    &&& (f == 0x23 ==> r == Ok::<bool, Fault>(false) && only_reg_write(
        pre,
        post,
        rd,
        a.wrapping_sub(b),
    ))
    &&& (f == 0x24 ==> r == Ok::<bool, Fault>(false) && only_reg_write(pre, post, rd, a & b))
    &&& (f == 0x25 ==> r == Ok::<bool, Fault>(false) && only_reg_write(pre, post, rd, a | b))
    &&& (f == 0x26 ==> r == Ok::<bool, Fault>(false) && only_reg_write(pre, post, rd, a ^ b))
    &&& (f == 0x27 ==> r == Ok::<bool, Fault>(false) && only_reg_write(pre, post, rd, !(a | b)))
    &&& (f == 0x2A ==> r == Ok::<bool, Fault>(false) && only_reg_write(
        pre,
        post,
        rd,
        if to_signed(a) < to_signed(b) {
            1u32
        } else {
            0u32
        },
    ))
    &&& (f == 0x2B ==> r == Ok::<bool, Fault>(false) && only_reg_write(
        pre,
        post,
        rd,
        if a < b {
            1u32
        } else {
            0u32
        },
    ))
    &&& (!r_funct_known(f) ==> r == Err::<bool, Fault>(Fault::UnknownInstruction)
        && unchanged_state(pre, post))
}

/// What executing a REGIMM branch (primary opcode 1) does, dispatched by the
/// rt field acting as a sub-opcode.  Every modeled branch owns the PC for its
/// cycle and so reports true, taken or not: a not-taken branch performs the
/// sequential advance of 4 itself, so the PC never advances twice.  The AL
/// variants write the link register only when the branch is taken.
pub open spec fn regimm_post(pre: Processor, post: Processor, inst: u32, r: Result<
    bool,
    Fault,
>) -> bool {
    let sub = rt_of(inst);
    let a = pre.reg_val(rs_of(inst));
    let target = branch_target(pre.pc, inst);
    let next = pre.pc.wrapping_add(4);
    &&& (sub == 0x00 ==> r == Ok::<bool, Fault>(true) && (if to_signed(a) < 0 {
        only_pc_write(pre, post, target)
    } else {
        only_pc_write(pre, post, next)
    }))
    &&& (sub == 0x01 ==> r == Ok::<bool, Fault>(true) && (if to_signed(a) >= 0 {
        only_pc_write(pre, post, target)
    } else {
        only_pc_write(pre, post, next)
    }))
    &&& (sub == 0x10 ==> r == Ok::<bool, Fault>(true) && (if to_signed(a) < 0 {
        link_and_jump(pre, post, target)
    } else {
        only_pc_write(pre, post, next)
    }))
    &&& (sub == 0x11 ==> r == Ok::<bool, Fault>(true) && (if to_signed(a) >= 0 {
        link_and_jump(pre, post, target)
    } else {
        only_pc_write(pre, post, next)
    }))
    &&& (!(sub == 0x00 || sub == 0x01 || sub == 0x10 || sub == 0x11) ==> r == Err::<bool, Fault>(
        Fault::UnknownInstruction,
    ) && unchanged_state(pre, post))
}

/// What executing an instruction whose primary opcode is 2 or above does:
/// the two absolute jumps, the four I-type branches, the immediate
/// arithmetic/logic group, and the loads and stores.  A branch owns the PC
/// for its cycle whether taken or not: when its condition is false it
/// performs the sequential advance of 4 itself.
///
/// A load or store that would run past the end of the selected region's
/// buffer fails with `OutOfBounds` and leaves the processor unchanged, and
/// an opcode outside the modeled set fails with `UnknownInstruction`.
pub open spec fn itype_post(pre: Processor, post: Processor, inst: u32, r: Result<
    bool,
    Fault,
>) -> bool {
    let op = op_of(inst);
    let rt = rt_of(inst);
    let a = pre.reg_val(rs_of(inst));
    let b = pre.reg_val(rt);
    let imm = imm16_of(inst);
    let target = branch_target(pre.pc, inst);
    let t = region_of(phys_of(eff_addr(pre, inst)));
    let off = region_off(phys_of(eff_addr(pre, inst)));
    let buf = pre.mem(t);
    &&& (op == 0x02 ==> r == Ok::<bool, Fault>(true) && only_pc_write(
        pre,
        post,
        jump_target(pre.pc, inst),
    ))
    &&& (op == 0x03 ==> r == Ok::<bool, Fault>(true) && link_and_jump(
        pre,
        post,
        jump_target(pre.pc, inst),
    ))
    &&& (op == 0x04 ==> r == Ok::<bool, Fault>(true) && (if a == b {
        only_pc_write(pre, post, target)
    } else {
        only_pc_write(pre, post, pre.pc.wrapping_add(4))
    }))
    &&& (op == 0x05 ==> r == Ok::<bool, Fault>(true) && (if a != b {
        only_pc_write(pre, post, target)
    } else {
        only_pc_write(pre, post, pre.pc.wrapping_add(4))
    }))
    &&& (op == 0x06 ==> r == Ok::<bool, Fault>(true) && (if to_signed(a) <= 0 {
        only_pc_write(pre, post, target)
    } else {
        only_pc_write(pre, post, pre.pc.wrapping_add(4))
    }))
    &&& (op == 0x07 ==> r == Ok::<bool, Fault>(true) && (if to_signed(a) > 0 {
        only_pc_write(pre, post, target)
    } else {
        only_pc_write(pre, post, pre.pc.wrapping_add(4))
    }))
    &&& (op == 0x09 ==> r == Ok::<bool, Fault>(false) && only_reg_write(
        pre,
        post,
        rt,
        a.wrapping_add(sext16(imm)),
    ))
    &&& (op == 0x0A ==> r == Ok::<bool, Fault>(false) && only_reg_write(
        pre,
        post,
        rt,
        if to_signed(a) < to_signed(sext16(imm)) {
            1u32
        } else {
            0u32
        },
    ))
    &&& (op == 0x0B ==> r == Ok::<bool, Fault>(false) && only_reg_write(
        pre,
        post,
        rt,
        if a < sext16(imm) {
            1u32
        } else {
            0u32
        },
    ))
    &&& (op == 0x0C ==> r == Ok::<bool, Fault>(false) && only_reg_write(pre, post, rt, a & imm))
    &&& (op == 0x0D ==> r == Ok::<bool, Fault>(false) && only_reg_write(pre, post, rt, a | imm))
    &&& (op == 0x0E ==> r == Ok::<bool, Fault>(false) && only_reg_write(pre, post, rt, a ^ imm))
    &&& (op == 0x0F ==> r == Ok::<bool, Fault>(false) && only_reg_write(pre, post, rt, imm << 16))
    &&& (op == 0x20 ==> (if off + 1 <= buf.len() {
        r == Ok::<bool, Fault>(false) && only_reg_write(pre, post, rt, sext8(buf[off as int]))
    } else {
        r == Err::<bool, Fault>(Fault::OutOfBounds) && unchanged_state(pre, post)
    }))
    &&& (op == 0x21 ==> (if off + 2 <= buf.len() {
        r == Ok::<bool, Fault>(false) && only_reg_write(
            pre,
            post,
            rt,
            sext16(half_at(buf, off as int)),
        )
    } else {
        r == Err::<bool, Fault>(Fault::OutOfBounds) && unchanged_state(pre, post)
    }))
    &&& (op == 0x23 ==> (if off + 4 <= buf.len() {
        r == Ok::<bool, Fault>(false) && only_reg_write(pre, post, rt, word_at(buf, off as int))
    } else {
        r == Err::<bool, Fault>(Fault::OutOfBounds) && unchanged_state(pre, post)
    }))
    &&& (op == 0x24 ==> (if off + 1 <= buf.len() {
        r == Ok::<bool, Fault>(false) && only_reg_write(pre, post, rt, buf[off as int] as u32)
    } else {
        r == Err::<bool, Fault>(Fault::OutOfBounds) && unchanged_state(pre, post)
    }))
    &&& (op == 0x25 ==> (if off + 2 <= buf.len() {
        r == Ok::<bool, Fault>(false) && only_reg_write(pre, post, rt, half_at(buf, off as int))
    } else {
        r == Err::<bool, Fault>(Fault::OutOfBounds) && unchanged_state(pre, post)
    }))
    &&& (op == 0x28 ==> (if off + 1 <= buf.len() {
        r == Ok::<bool, Fault>(false) && only_mem_write(
            pre,
            post,
            t,
            buf.update(off as int, (b % 0x100) as u8),
        )
    } else {
        r == Err::<bool, Fault>(Fault::OutOfBounds) && unchanged_state(pre, post)
    }))
    &&& (op == 0x29 ==> (if off + 2 <= buf.len() {
        r == Ok::<bool, Fault>(false) && only_mem_write(pre, post, t, store_half(buf, off as int, b))
    } else {
        r == Err::<bool, Fault>(Fault::OutOfBounds) && unchanged_state(pre, post)
    }))
    &&& (op == 0x2B ==> (if off + 4 <= buf.len() {
        r == Ok::<bool, Fault>(false) && only_mem_write(pre, post, t, store_word(buf, off as int, b))
    } else {
        r == Err::<bool, Fault>(Fault::OutOfBounds) && unchanged_state(pre, post)
    }))
    &&& (op >= 0x02 && !itype_op_known(op) ==> r == Err::<bool, Fault>(Fault::UnknownInstruction)
        && unchanged_state(pre, post))
}

/// Exactly one region's bytes change, to `newbuf`.
pub open spec fn only_mem_write(pre: Processor, post: Processor, t: MemType, newbuf: Seq<u8>) -> bool {
    &&& post.regs@ == pre.regs@
    &&& post.pc == pre.pc
    &&& post.hi == pre.hi
    &&& post.lo == pre.lo
    &&& post.mem(t) == newbuf
    &&& post.mem(other_region(t)) == pre.mem(other_region(t))
}

/// Whether the branch encoded by `inst` is taken in state `pre`: the
/// condition an I-type branch (opcodes 4-7) or REGIMM branch tests.
pub open spec fn branch_taken(pre: Processor, inst: u32) -> bool {
    let a = pre.reg_val(rs_of(inst));
    let b = pre.reg_val(rt_of(inst));
    if op_of(inst) == 0x04 {
        a == b
    } else if op_of(inst) == 0x05 {
        a != b
    } else if op_of(inst) == 0x06 {
        to_signed(a) <= 0
    } else if op_of(inst) == 0x07 {
        to_signed(a) > 0
    } else if op_of(inst) == 0x01 {
        if rt_of(inst) == 0x00 || rt_of(inst) == 0x10 {
            to_signed(a) < 0
        } else {
            to_signed(a) >= 0
        }
    } else {
        false
    }
}

/// The primary opcodes at 2 or above that the engine models.
pub open spec fn itype_op_known(op: u32) -> bool {
    ||| op == 0x02
    ||| op == 0x03
    ||| op == 0x04
    ||| op == 0x05
    ||| op == 0x06
    ||| op == 0x07
    ||| op == 0x09
    ||| op == 0x0A
    ||| op == 0x0B
    ||| op == 0x0C
    ||| op == 0x0D
    ||| op == 0x0E
    ||| op == 0x0F
    ||| op == 0x20
    ||| op == 0x21
    ||| op == 0x23
    ||| op == 0x24
    ||| op == 0x25
    ||| op == 0x28
    ||| op == 0x29
    ||| op == 0x2B
}

/// The function codes of the modeled register-type instructions.
pub open spec fn r_funct_known(f: u32) -> bool {
    ||| f == 0x00
    ||| f == 0x02
    ||| f == 0x03
    ||| f == 0x04
    ||| f == 0x06
    ||| f == 0x07
    ||| f == 0x08
    ||| f == 0x09
    ||| f == 0x10
    ||| f == 0x11
    ||| f == 0x12
    ||| f == 0x13
    ||| f == 0x18
    ||| f == 0x19
    ||| f == 0x1A
    ||| f == 0x1B
    ||| f == 0x20
    ||| f == 0x21
    ||| f == 0x22
    ||| f == 0x23
    ||| f == 0x24
    ||| f == 0x25
    ||| f == 0x26
    ||| f == 0x27
    ||| f == 0x2A
    ||| f == 0x2B
}

fn zero_bytes(n: usize) -> (v: Vec<u8>)
    ensures
        v@.len() == n,
        forall|i: int| 0 <= i < n ==> v@[i] == 0,
{
    let mut v: Vec<u8> = Vec::new();
    let mut k: usize = 0;
    while k < n
        invariant
            k <= n,
            v@.len() == k,
            forall|i: int| 0 <= i < k ==> v@[i] == 0,
        decreases n - k,
    {
        v.push(0);
        k = k + 1;
    }
    v
}

fn zero_words(n: usize) -> (v: Vec<u32>)
    ensures
        v@.len() == n,
        forall|i: int| 0 <= i < n ==> v@[i] == 0,
{
    let mut v: Vec<u32> = Vec::new();
    let mut k: usize = 0;
    while k < n
        invariant
            k <= n,
            v@.len() == k,
            forall|i: int| 0 <= i < k ==> v@[i] == 0,
        decreases n - k,
    {
        v.push(0);
        k = k + 1;
    }
    v
}

} // verus!
