//! End-to-end tests of the decode/execute engine: instruction semantics,
//! control flow, the driver loop, and the two failure kinds.

use mips_emu::cpu::{Processor, BOOT_VIRT_ADDR};
use mips_emu::memory::Fault;

fn enc_r(rs: u32, rt: u32, rd: u32, shamt: u32, funct: u32) -> u32 {
    (rs << 21) | (rt << 16) | (rd << 11) | (shamt << 6) | funct
}

fn enc_i(op: u32, rs: u32, rt: u32, imm: u32) -> u32 {
    (op << 26) | (rs << 21) | (rt << 16) | (imm & 0xFFFF)
}

fn enc_j(op: u32, target: u32) -> u32 {
    (op << 26) | (target & 0x3FFFFFF)
}

/// Run the fetch-execute loop until fetch fails or the PC reaches zero.
/// Returns the number of executed instructions.
fn run(cpu: &mut Processor) -> u32 {
    let mut steps: u32 = 0;
    loop {
        let inst = match cpu.get_inst() {
            Ok(inst) => inst,
            Err(_) => break,
        };
        let branch = cpu.handle_instruction(inst).expect("execution fault");
        steps += 1;
        if !branch {
            cpu.pc = cpu.pc.wrapping_add(4);
        }
        if cpu.pc == 0 {
            break;
        }
    }
    steps
}

#[test]
fn addiu_slt_signed_vs_unsigned() {
    let mut cpu = Processor::new();
    cpu.set_reg(1, 0x7FFFFFFF);
    // ADDIU r2, r1, 1 wraps to the smallest signed word.
    assert_eq!(cpu.handle_instruction(enc_i(0x09, 1, 2, 1)), Ok(false));
    assert_eq!(cpu.reg(2), 0x80000000);
    // SLT r3, r2, r1: signed, -2^31 < 2^31 - 1.
    assert_eq!(cpu.handle_instruction(enc_r(2, 1, 3, 0, 0x2A)), Ok(false));
    assert_eq!(cpu.reg(3), 1);
    // SLTU r4, r2, r1: unsigned, 0x80000000 >= 0x7FFFFFFF.
    assert_eq!(cpu.handle_instruction(enc_r(2, 1, 4, 0, 0x2B)), Ok(false));
    assert_eq!(cpu.reg(4), 0);
    // SLTI r5, r2, 0: signed, -2^31 < 0.
    assert_eq!(cpu.handle_instruction(enc_i(0x0A, 2, 5, 0)), Ok(false));
    assert_eq!(cpu.reg(5), 1);
    // SLTI r6, r1, -1: 2^31 - 1 is not below -1.
    assert_eq!(cpu.handle_instruction(enc_i(0x0A, 1, 6, 0xFFFF)), Ok(false));
    assert_eq!(cpu.reg(6), 0);
    // SLTIU r7, r2, -1: unsigned compare against the sign-extended
    // immediate 0xFFFFFFFF, so even 0x80000000 sits below it.
    assert_eq!(cpu.handle_instruction(enc_i(0x0B, 2, 7, 0xFFFF)), Ok(false));
    assert_eq!(cpu.reg(7), 1);
    // SLTIU r8, r1, -1: 0x7FFFFFFF is below 0xFFFFFFFF as well.
    assert_eq!(cpu.handle_instruction(enc_i(0x0B, 1, 8, 0xFFFF)), Ok(false));
    assert_eq!(cpu.reg(8), 1);
    // SLTIU r9, r2, 0x7FFF: a positive immediate stays itself; 0x80000000
    // is not below 0x7FFF.
    assert_eq!(cpu.handle_instruction(enc_i(0x0B, 2, 9, 0x7FFF)), Ok(false));
    assert_eq!(cpu.reg(9), 0);
}

#[test]
fn addiu_negative_immediate() {
    let mut cpu = Processor::new();
    cpu.set_reg(1, 3);
    // ADDIU r2, r1, -5 = -2 as a 32-bit word.
    assert_eq!(cpu.handle_instruction(enc_i(0x09, 1, 2, 0xFFFB)), Ok(false));
    assert_eq!(cpu.reg(2), 0xFFFFFFFE);
}

#[test]
fn sw_lw_roundtrip_data_region() {
    let mut cpu = Processor::new();
    cpu.set_reg(1, 0x80000000); // virtual base of the data region
    cpu.set_reg(2, 0xDEADBEEF);
    assert_eq!(cpu.handle_instruction(enc_i(0x2B, 1, 2, 0x0100)), Ok(false)); // SW
    assert_eq!(cpu.handle_instruction(enc_i(0x23, 1, 3, 0x0100)), Ok(false)); // LW
    assert_eq!(cpu.reg(3), 0xDEADBEEF);
    // Little-endian byte order in the backing buffer.
    assert_eq!(cpu.drm[0x100], 0xEF);
    assert_eq!(cpu.drm[0x101], 0xBE);
    assert_eq!(cpu.drm[0x102], 0xAD);
    assert_eq!(cpu.drm[0x103], 0xDE);
}

#[test]
fn sw_lw_roundtrip_boot_region() {
    let mut cpu = Processor::new();
    cpu.set_reg(1, 0xBFC00000); // virtual base of the boot region
    cpu.set_reg(2, 0x00000005);
    assert_eq!(cpu.handle_instruction(enc_i(0x2B, 1, 2, 0x0200)), Ok(false)); // SW
    assert_eq!(cpu.handle_instruction(enc_i(0x23, 1, 3, 0x0200)), Ok(false)); // LW
    assert_eq!(cpu.reg(3), 5);
    assert_eq!(cpu.bfm[0x200], 5);
}

#[test]
fn sb_lb_sign_extends() {
    let mut cpu = Processor::new();
    cpu.set_reg(1, 0xFF);
    cpu.set_reg(4, 0x80000000); // virtual base of the data region
    assert_eq!(cpu.handle_instruction(enc_i(0x28, 4, 1, 8)), Ok(false)); // SB r1, 8(r4)
    assert_eq!(cpu.drm[8], 0xFF);
    assert_eq!(cpu.handle_instruction(enc_i(0x20, 4, 2, 8)), Ok(false)); // LB r2, 8(r4)
    assert_eq!(cpu.reg(2), 0xFFFFFFFF);
    assert_eq!(cpu.handle_instruction(enc_i(0x24, 4, 3, 8)), Ok(false)); // LBU r3, 8(r4)
    assert_eq!(cpu.reg(3), 0x000000FF);
}

#[test]
fn sh_lh_sign_extends() {
    let mut cpu = Processor::new();
    cpu.set_reg(1, 0x18000);
    cpu.set_reg(4, 0x80000000); // virtual base of the data region
    // SH stores only the low 16 bits.
    assert_eq!(cpu.handle_instruction(enc_i(0x29, 4, 1, 0x10)), Ok(false));
    assert_eq!(cpu.drm[0x10], 0x00);
    assert_eq!(cpu.drm[0x11], 0x80);
    assert_eq!(cpu.handle_instruction(enc_i(0x21, 4, 2, 0x10)), Ok(false)); // LH
    assert_eq!(cpu.reg(2), 0xFFFF8000);
    assert_eq!(cpu.handle_instruction(enc_i(0x25, 4, 3, 0x10)), Ok(false)); // LHU
    assert_eq!(cpu.reg(3), 0x00008000);
}

#[test]
fn branch_not_taken_still_owns_pc() {
    let mut cpu = Processor::new();
    cpu.set_reg(1, 1);
    cpu.set_reg(2, 2);
    let pc0 = cpu.pc;
    // BEQ r1, r2, +4: condition false, flag still true, and the branch
    // itself performs the single sequential advance; the driver skips its
    // own increment, so the PC ends at exactly old PC + 4.
    assert_eq!(cpu.handle_instruction(enc_i(0x04, 1, 2, 4)), Ok(true));
    assert_eq!(cpu.pc, pc0 + 4);
    // BNE r1, r2, +4: condition true, branch taken from its own address.
    assert_eq!(cpu.handle_instruction(enc_i(0x05, 1, 2, 4)), Ok(true));
    assert_eq!(cpu.pc, pc0 + 4 + 16);
}

#[test]
fn regimm_branches() {
    let mut cpu = Processor::new();
    cpu.set_reg(1, 0x80000001); // negative
    let pc0 = cpu.pc;
    // BLTZ r1, +2: taken.
    assert_eq!(cpu.handle_instruction(enc_i(0x01, 1, 0x00, 2)), Ok(true));
    assert_eq!(cpu.pc, pc0 + 8);
    // BGEZ r1, +2: not taken; the branch advances the PC by 4 itself.
    assert_eq!(cpu.handle_instruction(enc_i(0x01, 1, 0x01, 2)), Ok(true));
    assert_eq!(cpu.pc, pc0 + 12);
    // BGEZAL r0, +4: zero is non-negative, so it links and branches.
    let pc1 = cpu.pc;
    assert_eq!(cpu.handle_instruction(enc_i(0x01, 0, 0x11, 4)), Ok(true));
    assert_eq!(cpu.reg(31), pc1 + 4);
    assert_eq!(cpu.pc, pc1 + 16);
    // BLTZAL r0, +4: not taken, no link written, PC advanced by 4.
    let pc2 = cpu.pc;
    cpu.set_reg(31, 0x1234);
    assert_eq!(cpu.handle_instruction(enc_i(0x01, 0, 0x10, 4)), Ok(true));
    assert_eq!(cpu.reg(31), 0x1234);
    assert_eq!(cpu.pc, pc2 + 4);
}

#[test]
fn jump_target_within_segment() {
    let mut cpu = Processor::new();
    cpu.pc = 0x80000004;
    // J with target field 0x100000 (instruction word 0x08100000).
    assert_eq!(cpu.handle_instruction(0x08100000), Ok(true));
    assert_eq!(cpu.pc & 0xF0000000, 0x80000000);
    assert_eq!(cpu.pc & 0x0FFFFFFF, 0x100000 << 2);
    assert_eq!(cpu.pc, 0x80400000);
}

#[test]
fn jal_links_and_jumps() {
    let mut cpu = Processor::new();
    cpu.pc = 0x80000004;
    assert_eq!(cpu.handle_instruction(enc_j(0x03, 0x100000)), Ok(true));
    assert_eq!(cpu.pc, 0x80400000);
    assert_eq!(cpu.reg(31), 0x80000008);
}

#[test]
fn jr_and_jalr() {
    let mut cpu = Processor::new();
    cpu.set_reg(4, 0x90000000);
    let pc0 = cpu.pc;
    assert_eq!(cpu.handle_instruction(enc_r(4, 0, 0, 0, 0x09)), Ok(true)); // JALR
    assert_eq!(cpu.pc, 0x90000000);
    assert_eq!(cpu.reg(31), pc0 + 4);
    assert_eq!(cpu.handle_instruction(enc_r(0, 0, 0, 0, 0x08)), Ok(true)); // JR r0
    assert_eq!(cpu.pc, 0);
}

#[test]
fn jalr_through_link_register_uses_fresh_link() {
    let mut cpu = Processor::new();
    cpu.set_reg(31, 0x80001234);
    cpu.pc = 0xBFC00010;
    // JALR through r31: the link write lands first, so the jump leaves
    // through the just-written link value.
    assert_eq!(cpu.handle_instruction(enc_r(31, 0, 0, 0, 0x09)), Ok(true));
    assert_eq!(cpu.reg(31), 0xBFC00014);
    assert_eq!(cpu.pc, 0xBFC00014);
}

#[test]
fn mult_minus_one_squared() {
    let mut cpu = Processor::new();
    cpu.set_reg(1, 0xFFFFFFFF);
    cpu.set_reg(2, 0xFFFFFFFF);
    assert_eq!(cpu.handle_instruction(enc_r(1, 2, 0, 0, 0x18)), Ok(false)); // MULT
    assert_eq!(cpu.hi, 0x00000000);
    assert_eq!(cpu.lo, 0x00000001);
}

#[test]
fn mult_and_multu_differ_on_high_half() {
    let mut cpu = Processor::new();
    cpu.set_reg(1, 0xFFFFFFFF);
    cpu.set_reg(2, 2);
    assert_eq!(cpu.handle_instruction(enc_r(1, 2, 0, 0, 0x18)), Ok(false)); // MULT: -1 * 2
    assert_eq!(cpu.hi, 0xFFFFFFFF);
    assert_eq!(cpu.lo, 0xFFFFFFFE);
    assert_eq!(cpu.handle_instruction(enc_r(1, 2, 0, 0, 0x19)), Ok(false)); // MULTU
    assert_eq!(cpu.hi, 0x00000001);
    assert_eq!(cpu.lo, 0xFFFFFFFE);
}

#[test]
fn div_splits_quotient_across_hi_lo() {
    let mut cpu = Processor::new();
    // DIV -7 / 2: quotient -3 held as a 64-bit two's-complement value split
    // across HI:LO (the engine's HI/LO convention for divides).
    cpu.set_reg(1, 0xFFFFFFF9);
    cpu.set_reg(2, 2);
    assert_eq!(cpu.handle_instruction(enc_r(1, 2, 0, 0, 0x1A)), Ok(false));
    assert_eq!(cpu.hi, 0xFFFFFFFF);
    assert_eq!(cpu.lo, 0xFFFFFFFD);
    // DIVU of the same words: a huge unsigned dividend.
    assert_eq!(cpu.handle_instruction(enc_r(1, 2, 0, 0, 0x1B)), Ok(false));
    assert_eq!(cpu.hi, 0);
    assert_eq!(cpu.lo, 0x7FFFFFFC);
}

#[test]
fn divide_by_zero_leaves_hi_lo() {
    let mut cpu = Processor::new();
    cpu.set_reg(1, 0xFFFFFFF9);
    cpu.set_reg(2, 2);
    assert_eq!(cpu.handle_instruction(enc_r(1, 2, 0, 0, 0x1A)), Ok(false));
    let (hi0, lo0) = (cpu.hi, cpu.lo);
    assert_eq!(cpu.handle_instruction(enc_r(1, 0, 0, 0, 0x1A)), Ok(false)); // DIV by r0
    assert_eq!((cpu.hi, cpu.lo), (hi0, lo0));
    assert_eq!(cpu.handle_instruction(enc_r(1, 0, 0, 0, 0x1B)), Ok(false)); // DIVU by r0
    assert_eq!((cpu.hi, cpu.lo), (hi0, lo0));
}

#[test]
fn hi_lo_moves() {
    let mut cpu = Processor::new();
    cpu.set_reg(1, 0xAABBCCDD);
    cpu.set_reg(2, 0x11223344);
    assert_eq!(cpu.handle_instruction(enc_r(1, 0, 0, 0, 0x11)), Ok(false)); // MTHI
    assert_eq!(cpu.handle_instruction(enc_r(2, 0, 0, 0, 0x13)), Ok(false)); // MTLO
    assert_eq!(cpu.handle_instruction(enc_r(0, 0, 3, 0, 0x10)), Ok(false)); // MFHI r3
    assert_eq!(cpu.handle_instruction(enc_r(0, 0, 4, 0, 0x12)), Ok(false)); // MFLO r4
    assert_eq!(cpu.reg(3), 0xAABBCCDD);
    assert_eq!(cpu.reg(4), 0x11223344);
}

#[test]
fn fetch_past_backing_buffers_terminates() {
    let mut cpu = Processor::new();
    // Physical offset 0x10000 lies past the data region's 32 KiB.
    cpu.pc = 0x80010000;
    assert_eq!(cpu.get_inst(), Err(Fault::OutOfBounds));
    // Just past the end of the boot region.
    cpu.pc = 0xBFC03000;
    assert_eq!(cpu.get_inst(), Err(Fault::OutOfBounds));
    // The driver loop ends cleanly without executing anything.
    cpu.pc = 0x80010000;
    let steps = run(&mut cpu);
    assert_eq!(steps, 0);
}

#[test]
fn boot_image_scenario() {
    let mut cpu = Processor::new();
    // ADDIU r8, r0, 5; SW r8, 0(r0); JR r0 (drives the PC to zero).
    let image: Vec<u8> = vec![
        0x05, 0x00, 0x08, 0x24, // ADDIU $t0, $zero, 5
        0x00, 0x00, 0x08, 0xAC, // SW $t0, 0($zero)
        0x08, 0x00, 0x00, 0x00, // JR $zero
    ];
    cpu.write_to_bfm(&image);
    assert_eq!(cpu.pc, BOOT_VIRT_ADDR);
    let steps = run(&mut cpu);
    assert_eq!(steps, 3);
    assert_eq!(cpu.pc, 0);
    // The data region's first word now holds 5.
    assert_eq!(&cpu.drm[0..4], &[5, 0, 0, 0]);
    assert_eq!(cpu.reg(8), 5);
}

#[test]
fn unknown_encodings_fail() {
    let mut cpu = Processor::new();
    // Unknown primary opcode.
    assert_eq!(cpu.handle_instruction(enc_i(0x3F, 0, 0, 0)), Err(Fault::UnknownInstruction));
    // Unknown function code of a register-type word.
    assert_eq!(cpu.handle_instruction(enc_r(0, 0, 0, 0, 0x3F)), Err(Fault::UnknownInstruction));
    // The engine models no syscall: function code 0x0C is unknown too.
    assert_eq!(cpu.handle_instruction(enc_r(0, 0, 0, 0, 0x0C)), Err(Fault::UnknownInstruction));
    // Unknown REGIMM sub-opcode.
    assert_eq!(cpu.handle_instruction(enc_i(0x01, 0, 0x05, 0)), Err(Fault::UnknownInstruction));
    // The processor is unchanged: the PC still fetches normally.
    assert_eq!(cpu.pc, BOOT_VIRT_ADDR);
}

#[test]
fn load_store_out_of_bounds_fail() {
    let mut cpu = Processor::new();
    cpu.set_reg(1, 0x80010000); // maps past the data region
    assert_eq!(cpu.handle_instruction(enc_i(0x23, 1, 2, 0)), Err(Fault::OutOfBounds)); // LW
    assert_eq!(cpu.handle_instruction(enc_i(0x2B, 1, 2, 0)), Err(Fault::OutOfBounds)); // SW
    assert_eq!(cpu.handle_instruction(enc_i(0x20, 1, 2, 0)), Err(Fault::OutOfBounds)); // LB
    assert_eq!(cpu.handle_instruction(enc_i(0x28, 1, 2, 0)), Err(Fault::OutOfBounds)); // SB
    // A word access that straddles the region end fails as well.
    cpu.set_reg(1, 0x80007FFE);
    assert_eq!(cpu.handle_instruction(enc_i(0x23, 1, 2, 0)), Err(Fault::OutOfBounds));
    // The last full word of the region is still reachable.
    cpu.set_reg(1, 0x80007FFC);
    assert_eq!(cpu.handle_instruction(enc_i(0x23, 1, 2, 0)), Ok(false));
}

#[test]
fn shifts() {
    let mut cpu = Processor::new();
    cpu.set_reg(1, 0x80000001);
    assert_eq!(cpu.handle_instruction(enc_r(0, 1, 2, 4, 0x00)), Ok(false)); // SLL
    assert_eq!(cpu.reg(2), 0x00000010);
    assert_eq!(cpu.handle_instruction(enc_r(0, 1, 3, 4, 0x02)), Ok(false)); // SRL
    assert_eq!(cpu.reg(3), 0x08000000);
    assert_eq!(cpu.handle_instruction(enc_r(0, 1, 4, 4, 0x03)), Ok(false)); // SRA
    assert_eq!(cpu.reg(4), 0xF8000000);
    // Variable shifts mask the shift amount to 5 bits: 33 & 0x1F == 1.
    cpu.set_reg(5, 33);
    assert_eq!(cpu.handle_instruction(enc_r(5, 1, 6, 0, 0x04)), Ok(false)); // SLLV
    assert_eq!(cpu.reg(6), 0x00000002);
    assert_eq!(cpu.handle_instruction(enc_r(5, 1, 7, 0, 0x06)), Ok(false)); // SRLV
    assert_eq!(cpu.reg(7), 0x40000000);
    assert_eq!(cpu.handle_instruction(enc_r(5, 1, 8, 0, 0x07)), Ok(false)); // SRAV
    assert_eq!(cpu.reg(8), 0xC0000000);
    // SRAV is not a control-flow instruction: the PC was never touched.
    assert_eq!(cpu.pc, BOOT_VIRT_ADDR);
}

#[test]
fn arithmetic_and_logic() {
    let mut cpu = Processor::new();
    cpu.set_reg(1, 0xFFFFFFFF);
    cpu.set_reg(2, 0x00000003);
    assert_eq!(cpu.handle_instruction(enc_r(1, 2, 3, 0, 0x20)), Ok(false)); // ADD: -1 + 3
    assert_eq!(cpu.reg(3), 2);
    assert_eq!(cpu.handle_instruction(enc_r(1, 2, 4, 0, 0x21)), Ok(false)); // ADDU wraps
    assert_eq!(cpu.reg(4), 2);
    assert_eq!(cpu.handle_instruction(enc_r(2, 1, 5, 0, 0x22)), Ok(false)); // SUB: 3 - (-1)
    assert_eq!(cpu.reg(5), 4);
    assert_eq!(cpu.handle_instruction(enc_r(2, 1, 6, 0, 0x23)), Ok(false)); // SUBU
    assert_eq!(cpu.reg(6), 4);
    cpu.set_reg(1, 0xF0F0A5A5);
    cpu.set_reg(2, 0x0FF0FFFF);
    assert_eq!(cpu.handle_instruction(enc_r(1, 2, 7, 0, 0x24)), Ok(false)); // AND
    assert_eq!(cpu.reg(7), 0x00F0A5A5);
    assert_eq!(cpu.handle_instruction(enc_r(1, 2, 8, 0, 0x25)), Ok(false)); // OR
    assert_eq!(cpu.reg(8), 0xFFF0FFFF);
    assert_eq!(cpu.handle_instruction(enc_r(1, 2, 9, 0, 0x26)), Ok(false)); // XOR
    assert_eq!(cpu.reg(9), 0xFF005A5A);
    assert_eq!(cpu.handle_instruction(enc_r(1, 2, 10, 0, 0x27)), Ok(false)); // NOR
    assert_eq!(cpu.reg(10), 0x000F0000);
}

#[test]
fn immediate_logic_and_lui() {
    let mut cpu = Processor::new();
    cpu.set_reg(1, 0xFFFF00FF);
    // The logical immediates stay zero-extended 16-bit patterns.
    assert_eq!(cpu.handle_instruction(enc_i(0x0C, 1, 2, 0xF00F)), Ok(false)); // ANDI
    assert_eq!(cpu.reg(2), 0x0000000F);
    assert_eq!(cpu.handle_instruction(enc_i(0x0D, 1, 3, 0xF00F)), Ok(false)); // ORI
    assert_eq!(cpu.reg(3), 0xFFFFF0FF);
    assert_eq!(cpu.handle_instruction(enc_i(0x0E, 1, 4, 0xF00F)), Ok(false)); // XORI
    assert_eq!(cpu.reg(4), 0xFFFFF0F0);
    assert_eq!(cpu.handle_instruction(enc_i(0x0F, 0, 5, 0x8001)), Ok(false)); // LUI
    assert_eq!(cpu.reg(5), 0x80010000);
}

#[test]
fn blez_bgtz_boundaries() {
    let mut cpu = Processor::new();
    let pc0 = cpu.pc;
    // BLEZ r0, +1: zero satisfies <= 0, so the branch is taken.
    assert_eq!(cpu.handle_instruction(enc_i(0x06, 0, 0, 1)), Ok(true));
    assert_eq!(cpu.pc, pc0 + 4);
    // BGTZ r0, +1: zero is not > 0; flag still true, sequential advance.
    assert_eq!(cpu.handle_instruction(enc_i(0x07, 0, 0, 1)), Ok(true));
    assert_eq!(cpu.pc, pc0 + 8);
    // BGTZ on a positive and BLEZ on a negative value, both taken.
    cpu.set_reg(1, 7);
    assert_eq!(cpu.handle_instruction(enc_i(0x07, 1, 0, 1)), Ok(true));
    assert_eq!(cpu.pc, pc0 + 12);
    cpu.set_reg(2, 0x80000000);
    assert_eq!(cpu.handle_instruction(enc_i(0x06, 2, 0, 1)), Ok(true));
    assert_eq!(cpu.pc, pc0 + 16);
    // A backward branch: offset -1 walks the PC back by 4.
    assert_eq!(cpu.handle_instruction(enc_i(0x06, 0, 0, 0xFFFF)), Ok(true));
    assert_eq!(cpu.pc, pc0 + 12);
}

#[test]
fn not_taken_branch_program_terminates() {
    let mut cpu = Processor::new();
    // BNE r0, r0, +2 is never taken: the branch must advance the PC itself
    // (the driver skips its increment on a true flag), reaching the JR that
    // drives the PC to zero.
    let image: Vec<u8> = vec![
        0x02, 0x00, 0x00, 0x14, // BNE $zero, $zero, +2
        0x08, 0x00, 0x00, 0x00, // JR $zero
    ];
    cpu.write_to_bfm(&image);
    let steps = run(&mut cpu);
    assert_eq!(steps, 2);
    assert_eq!(cpu.pc, 0);
}
