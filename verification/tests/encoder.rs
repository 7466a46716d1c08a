use kod::assembler::{Assembler, Label};
use kod::operand::{Condition, Immediate, ModRm, ModRmEnum, Operand, Register, Rex, RexW};

fn reg(r: Register) -> Operand {
    Operand::Register(r, false)
}

fn imm64(v: u64) -> Operand {
    Operand::Immediate(Immediate::Immediate64(v))
}

#[test]
fn push_immediate_0x7f_uses_the_byte_form() {
    let mut a = Assembler::new();
    a.push(Operand::Immediate(Immediate::Immediate32(0x7f)));
    assert_eq!(a.machine_code, vec![0x6a, 0x7f]);
}

#[test]
fn push_immediate_0x80_uses_the_dword_form() {
    let mut a = Assembler::new();
    a.push(Operand::Immediate(Immediate::Immediate32(0x80)));
    assert_eq!(a.machine_code, vec![0x68, 0x80, 0x00, 0x00, 0x00]);
}

#[test]
fn push_negative_one_is_sign_extended_from_a_byte() {
    let mut a = Assembler::new();
    a.push(imm64(0xffff_ffff_ffff_ffff));
    assert_eq!(a.machine_code, vec![0x6a, 0xff]);
}

#[test]
fn mov_of_32_bit_immediate_has_no_rex_w() {
    let mut a = Assembler::new();
    a.mov(reg(Register::RAX), imm64(0x0000_0000_ffff_ffff));
    assert_eq!(a.machine_code, vec![0xb8, 0xff, 0xff, 0xff, 0xff]);
}

#[test]
fn mov_of_33_bit_immediate_uses_rex_w() {
    let mut a = Assembler::new();
    a.mov(reg(Register::RAX), imm64(0x1_0000_0000));
    assert_eq!(
        a.machine_code,
        vec![0x48, 0xb8, 0x00, 0x00, 0x00, 0x00, 0x01, 0x00, 0x00, 0x00]
    );
}

#[test]
fn mov_of_zero_is_xor() {
    let mut a = Assembler::new();
    a.mov(reg(Register::RAX), imm64(0));
    assert_eq!(a.machine_code, vec![0x31, 0xc0]);
    let mut b = Assembler::new();
    b.mov(reg(Register::R9), imm64(0));
    assert_eq!(b.machine_code, vec![0x45, 0x31, 0xc9]);
}

#[test]
fn mov_rax_rax_emits_nothing() {
    let mut a = Assembler::new();
    a.mov(reg(Register::RAX), reg(Register::RAX));
    assert_eq!(a.machine_code, Vec::<u8>::new());
}

#[test]
fn mov_into_high_register_sets_rex_b() {
    let mut a = Assembler::new();
    a.mov(reg(Register::R8), imm64(5));
    assert_eq!(a.machine_code, vec![0x41, 0xb8, 0x05, 0x00, 0x00, 0x00]);
}

#[test]
fn mov_between_registers() {
    let mut a = Assembler::new();
    a.mov(reg(Register::RBP), reg(Register::RSP));
    assert_eq!(a.machine_code, vec![0x48, 0x89, 0xe5]);
    let mut b = Assembler::new();
    b.mov(reg(Register::RAX), reg(Register::R8));
    assert_eq!(b.machine_code, vec![0x4c, 0x89, 0xc0]);
}

#[test]
fn low_registers_take_no_rex() {
    let mut a = Assembler::new();
    a.push(reg(Register::RAX));
    a.pop(reg(Register::RDI));
    a.jump_op(&reg(Register::RCX));
    assert_eq!(a.machine_code, vec![0x50, 0x5f, 0xff, 0xe1]);
}

#[test]
fn high_registers_take_rex_b() {
    let mut a = Assembler::new();
    a.push(reg(Register::R12));
    a.pop(reg(Register::R15));
    assert_eq!(a.machine_code, vec![0x41, 0x54, 0x41, 0x5f]);
}

#[test]
fn displacement_takes_the_smallest_mode() {
    let src = reg(Register::RCX);
    let mut a = Assembler::new();
    a.mov(Operand::Memory(Register::RAX, 0), src);
    assert_eq!(a.machine_code, vec![0x48, 0x89, 0x08]);
    let mut b = Assembler::new();
    b.mov(Operand::Memory(Register::RAX, 8), src);
    assert_eq!(b.machine_code, vec![0x48, 0x89, 0x48, 0x08]);
    let mut c = Assembler::new();
    c.mov(Operand::Memory(Register::RAX, 127), src);
    assert_eq!(c.machine_code, vec![0x48, 0x89, 0x48, 0x7f]);
    let mut d = Assembler::new();
    d.mov(Operand::Memory(Register::RAX, 128), src);
    assert_eq!(d.machine_code, vec![0x48, 0x89, 0x88, 0x80, 0x00, 0x00, 0x00]);
    let mut e = Assembler::new();
    e.mov(Operand::Memory(Register::RAX, 0xffff_ffff_ffff_fff8), src);
    assert_eq!(e.machine_code, vec![0x48, 0x89, 0x48, 0xf8]);
    let mut f = Assembler::new();
    f.mov(Operand::Memory(Register::RAX, 0xffff_ffff_ffff_ff7f), src);
    assert_eq!(f.machine_code, vec![0x48, 0x89, 0x88, 0x7f, 0xff, 0xff, 0xff]);
}

#[test]
fn rbp_and_r13_keep_a_zero_displacement() {
    let src = reg(Register::RCX);
    let mut a = Assembler::new();
    a.mov(Operand::Memory(Register::RBP, 0), src);
    assert_eq!(a.machine_code, vec![0x48, 0x89, 0x4d, 0x00]);
    let mut b = Assembler::new();
    b.mov(Operand::Memory(Register::R13, 0), src);
    assert_eq!(b.machine_code, vec![0x49, 0x89, 0x4d, 0x00]);
}

#[test]
fn prologue_and_epilogue() {
    let mut a = Assembler::new();
    a.enter();
    a.exit();
    assert_eq!(a.machine_code, vec![0x55, 0x48, 0x89, 0xe5, 0xc9, 0xc3]);
}

#[test]
fn ret_with_and_without_bytes() {
    let mut a = Assembler::new();
    a.ret(None);
    a.ret(Some(0x1234));
    a.trap();
    a.leave();
    assert_eq!(a.machine_code, vec![0xc3, 0xc2, 0x34, 0x12, 0xcc, 0xc9]);
}

#[test]
fn callee_saved_registers_are_popped_in_reverse() {
    let mut a = Assembler::new();
    a.push_callee_saved_registers();
    assert_eq!(
        a.machine_code,
        vec![0x53, 0x55, 0x41, 0x54, 0x41, 0x55, 0x41, 0x56, 0x41, 0x57]
    );
    let mut b = Assembler::new();
    b.pop_callee_saved_registers();
    assert_eq!(
        b.machine_code,
        vec![0x41, 0x5f, 0x41, 0x5e, 0x41, 0x5d, 0x41, 0x5c, 0x5d, 0x5b]
    );
}

#[test]
fn add_and_sub_forms() {
    let mut a = Assembler::new();
    a.add(reg(Register::R8), reg(Register::RDX));
    assert_eq!(a.machine_code, vec![0x49, 0x01, 0xd0]);
    let mut b = Assembler::new();
    b.sub(reg(Register::RSP), Operand::Immediate(Immediate::Immediate8(32)));
    assert_eq!(b.machine_code, vec![0x48, 0x83, 0xec, 0x20]);
    let mut c = Assembler::new();
    c.add(reg(Register::RSP), Operand::Immediate(Immediate::Immediate32(0x1000)));
    assert_eq!(c.machine_code, vec![0x48, 0x81, 0xc4, 0x00, 0x10, 0x00, 0x00]);
    let mut d = Assembler::new();
    d.add(
        Operand::Register(Register::XMM1, true),
        Operand::Register(Register::XMM2, true),
    );
    assert_eq!(d.machine_code, vec![0xf2, 0x0f, 0x58, 0xca]);
    let mut e = Assembler::new();
    e.sub(
        Operand::Register(Register::XMM1, true),
        Operand::Register(Register::XMM2, true),
    );
    assert_eq!(e.machine_code, vec![0xf2, 0x0f, 0x5c, 0xca]);
}

#[test]
fn scalar_double_forms_extend_high_registers() {
    let mut a = Assembler::new();
    a.add(
        Operand::Register(Register::XMM8, true),
        Operand::Register(Register::XMM9, true),
    );
    assert_eq!(a.machine_code, vec![0xf2, 0x45, 0x0f, 0x58, 0xc1]);
    let mut b = Assembler::new();
    b.sub(
        Operand::Register(Register::XMM3, true),
        Operand::Register(Register::XMM12, true),
    );
    assert_eq!(b.machine_code, vec![0xf2, 0x41, 0x0f, 0x5c, 0xdc]);
    let mut c = Assembler::new();
    c.cmp(
        &Operand::Register(Register::XMM0, true),
        &Operand::Register(Register::XMM9, true),
    );
    assert_eq!(c.machine_code, vec![0x66, 0x41, 0x0f, 0x2e, 0xc1]);
    let mut d = Assembler::new();
    d.cmp(
        &Operand::Register(Register::XMM10, true),
        &Operand::Register(Register::XMM2, true),
    );
    assert_eq!(d.machine_code, vec![0x66, 0x44, 0x0f, 0x2e, 0xd2]);
}

#[test]
fn compare_forms() {
    let mut a = Assembler::new();
    a.cmp(&reg(Register::RAX), &imm64(0));
    assert_eq!(a.machine_code, vec![0x48, 0x83, 0xf8, 0x00]);
    let mut b = Assembler::new();
    b.cmp(&reg(Register::RAX), &reg(Register::RBX));
    assert_eq!(b.machine_code, vec![0x48, 0x39, 0xd8]);
    let mut c = Assembler::new();
    c.cmp(&reg(Register::RAX), &imm64(0x1234));
    assert_eq!(c.machine_code, vec![0x48, 0x81, 0xf8, 0x34, 0x12, 0x00, 0x00]);
    let mut d = Assembler::new();
    d.cmp(
        &Operand::Register(Register::XMM0, true),
        &Operand::Register(Register::XMM1, true),
    );
    assert_eq!(d.machine_code, vec![0x66, 0x0f, 0x2e, 0xc1]);
}

#[test]
fn test_forms() {
    let mut a = Assembler::new();
    a.test(&reg(Register::RAX), &reg(Register::RAX));
    assert_eq!(a.machine_code, vec![0x48, 0x85, 0xc0]);
    let mut b = Assembler::new();
    b.test(&reg(Register::RCX), &imm64(1));
    assert_eq!(b.machine_code, vec![0x48, 0xf7, 0xc1, 0x01, 0x00, 0x00, 0x00]);
}

#[test]
fn shifts_and_calls() {
    let mut a = Assembler::new();
    a.shr(&reg(Register::RAX), &Operand::Immediate(Immediate::Immediate8(48)));
    a.shl(&reg(Register::RAX), &Operand::Immediate(Immediate::Immediate8(16)));
    a.call_rax();
    assert_eq!(
        a.machine_code,
        vec![0x48, 0xc1, 0xe8, 0x30, 0x48, 0xc1, 0xe0, 0x10, 0xff, 0xd0]
    );
}

#[test]
fn call_sets_the_shadow_space_aside() {
    let mut a = Assembler::new();
    a.call(0x1122_3344_5566_7788);
    assert_eq!(
        a.machine_code,
        vec![
            0x48, 0x83, 0xec, 0x20, 0x48, 0xb8, 0x88, 0x77, 0x66, 0x55, 0x44, 0x33, 0x22, 0x11,
            0xff, 0xd0, 0x48, 0x83, 0xc4, 0x20
        ]
    );
}

#[test]
fn conditional_instructions_carry_the_condition_nibble() {
    let mut a = Assembler::new();
    a.set_if(Condition::EqualTo, &reg(Register::RAX));
    assert_eq!(a.machine_code, vec![0x0f, 0x94, 0xc0]);
    let mut b = Assembler::new();
    b.mov_if(Condition::SignedLessThan, &reg(Register::RAX), &reg(Register::RCX));
    assert_eq!(b.machine_code, vec![0x48, 0x0f, 0x4c, 0xc1]);
    let mut c = Assembler::new();
    c.mov_if(Condition::EqualTo, &reg(Register::R8), &reg(Register::RAX));
    assert_eq!(c.machine_code, vec![0x4c, 0x0f, 0x44, 0xc0]);
    let mut d = Assembler::new();
    d.mov_if(Condition::EqualTo, &reg(Register::RDX), &reg(Register::R9));
    assert_eq!(d.machine_code, vec![0x49, 0x0f, 0x44, 0xd1]);
}

#[test]
fn condition_synonyms_share_a_nibble() {
    assert_eq!(Condition::Above.encode(), 0x7);
    assert_eq!(Condition::UnsignedGreaterThan.encode(), 0x7);
    assert_eq!(Condition::Below.encode(), 0x2);
    assert_eq!(Condition::UnsignedLessThan.encode(), 0x2);
    assert_eq!(Condition::Unordered.encode(), 0xa);
    assert_eq!(Condition::ParityEven.encode(), 0xa);
    assert_eq!(Condition::SignedLessThan.encode(), 0xc);
    assert_eq!(Condition::SignedGreaterThanOrEqualTo.encode(), 0xd);
    assert_eq!(Condition::SignedLessThanOrEqualTo.encode(), 0xe);
    assert_eq!(Condition::SignedGreaterThan.encode(), 0xf);
    assert_eq!(Condition::Overflow.encode(), 0x0);
    assert_eq!(Condition::EqualTo.encode(), 0x4);
    assert_eq!(Condition::NotEqualTo.encode(), 0x5);
}

#[test]
fn jump_leaves_a_placeholder() {
    let mut a = Assembler::new();
    let label = a.jump();
    assert_eq!(a.machine_code, vec![0xe9, 0xef, 0xbe, 0xad, 0xde]);
    assert!(!label.is_linked());
    let mut b = Assembler::new();
    let mut other = Label::new();
    b.jump_if_label(Condition::NotEqualTo, &mut other);
    assert_eq!(b.machine_code, vec![0x0f, 0x85, 0xef, 0xbe, 0xad, 0xde]);
}

#[test]
fn jump_to_its_own_end_has_displacement_zero() {
    let mut a = Assembler::new();
    let mut label = a.jump();
    label.link(&mut a);
    assert_eq!(a.machine_code, vec![0xe9, 0x00, 0x00, 0x00, 0x00]);
    assert!(label.is_linked());
}

#[test]
fn binding_patches_every_slot() {
    let mut a = Assembler::new();
    let mut label = Label::new();
    a.jump_label(&mut label);
    a.trap();
    a.jump_if_label(Condition::EqualTo, &mut label);
    a.trap();
    a.trap();
    label.link_to(&mut a, 14);
    assert_eq!(
        a.machine_code,
        vec![0xe9, 0x09, 0x00, 0x00, 0x00, 0xcc, 0x0f, 0x84, 0x02, 0x00, 0x00, 0x00, 0xcc, 0xcc]
    );
}

#[test]
fn backward_jump_has_a_negative_displacement() {
    let mut a = Assembler::new();
    let mut label = Label::new();
    label.link(&mut a);
    a.trap();
    a.jump_label(&mut label);
    assert_eq!(a.machine_code, vec![0xcc, 0xe9, 0xfa, 0xff, 0xff, 0xff]);
}

#[test]
fn increment_with_overflow_label() {
    let mut a = Assembler::new();
    let mut label = Label::new();
    a.inc32(&reg(Register::RAX), Some(&mut label));
    a.dec32(&reg(Register::RCX), None);
    assert_eq!(
        a.machine_code,
        vec![0xff, 0xc0, 0x0f, 0x80, 0xef, 0xbe, 0xad, 0xde, 0xff, 0xc9]
    );
}

#[test]
fn modrm_and_rex_pack_their_fields() {
    let mut m = ModRm::new(0b101, 0b010, 0);
    assert_eq!(m.encode(), 0b00_010_101);
    m.set_mode(ModRmEnum::Reg.encode());
    assert_eq!(m.encode(), 0b11_010_101);
    assert_eq!(ModRm::new(0xff, 0xff, 0xff).encode(), 0xff);
    assert_eq!(Rex::new(1, 0, 0, 1).encode(), 0x49);
    assert_eq!(Rex::new(0, 0, 1, 0).encode(), 0x44);
    assert_eq!(Rex::new(0, 0, 0, 0).decode(), (1, 0, 0, 0));
}

#[test]
fn immediates_are_little_endian() {
    assert_eq!(Immediate::Immediate8(0x12).to_le_bytes(), vec![0x12]);
    assert_eq!(
        Immediate::Immediate32(0x1234_5678).to_le_bytes(),
        vec![0x78, 0x56, 0x34, 0x12]
    );
    assert_eq!(
        Immediate::Immediate64(0x0102_0304_0506_0708).to_le_bytes(),
        vec![0x08, 0x07, 0x06, 0x05, 0x04, 0x03, 0x02, 0x01]
    );
}

#[test]
fn operand_queries() {
    let m = Operand::Memory(Register::R13, 16);
    assert!(m.is_register_or_memory());
    assert_eq!(m.register_or_memory_base_to_underlying(), 5);
    assert_eq!(m.offset_or_immediate(), 16);
    assert_eq!(reg(Register::R15).register_or_memory_base_to_underlying(), 15);
    let i = Operand::Immediate(Immediate::Immediate32(0x80));
    assert!(!i.is_register_or_memory());
    assert!(i.fits_in_u8());
    assert!(i.fits_in_u32());
    assert!(!i.fits_in_i8());
    assert!(i.fits_in_i32());
    assert!(!imm64(0x8000_0000).fits_in_i32());
    assert!(imm64(0xffff_ffff_8000_0000).fits_in_i32());
    assert!(!imm64(0x1_0000_0000).fits_in_u32());
}

fn rex_for_slash(arg: Operand, w: RexW) -> Vec<u8> {
    let mut a = Assembler::new();
    a.emit_rex_for_slash(&arg, w);
    a.machine_code
}

fn rex_for_mr(dst: Operand, src: Operand, w: RexW) -> Vec<u8> {
    let mut a = Assembler::new();
    a.emit_rex_for_mr(&dst, &src, w);
    a.machine_code
}

fn rex_for_rm(dst: Operand, src: Operand, w: RexW) -> Vec<u8> {
    let mut a = Assembler::new();
    a.emit_rex_for_rm(&dst, &src, w);
    a.machine_code
}

#[test]
fn rex_prefix_is_emitted_only_where_it_is_needed() {
    assert_eq!(rex_for_slash(reg(Register::RDI), RexW::No), Vec::<u8>::new());
    assert_eq!(rex_for_slash(reg(Register::R8), RexW::No), vec![0x41]);
    assert_eq!(rex_for_slash(reg(Register::RAX), RexW::Yes), vec![0x48]);
    assert_eq!(rex_for_slash(reg(Register::R15), RexW::Yes), vec![0x49]);
    assert_eq!(rex_for_slash(Operand::Memory(Register::R12, 8), RexW::No), vec![0x41]);
    assert_eq!(rex_for_slash(Operand::Memory(Register::RSI, 8), RexW::No), Vec::<u8>::new());

    let (low, high) = (reg(Register::RCX), reg(Register::R9));
    assert_eq!(rex_for_mr(low, low, RexW::No), Vec::<u8>::new());
    assert_eq!(rex_for_mr(high, low, RexW::No), vec![0x41]);
    assert_eq!(rex_for_mr(low, high, RexW::No), vec![0x44]);
    assert_eq!(rex_for_mr(high, high, RexW::No), vec![0x45]);
    assert_eq!(rex_for_mr(low, low, RexW::Yes), vec![0x48]);
    assert_eq!(rex_for_mr(high, low, RexW::Yes), vec![0x49]);
    assert_eq!(rex_for_mr(low, high, RexW::Yes), vec![0x4c]);
    assert_eq!(rex_for_mr(Operand::Memory(Register::R13, 0), low, RexW::No), vec![0x41]);

    assert_eq!(rex_for_rm(low, low, RexW::No), Vec::<u8>::new());
    assert_eq!(rex_for_rm(high, low, RexW::No), vec![0x44]);
    assert_eq!(rex_for_rm(low, high, RexW::No), vec![0x41]);
    assert_eq!(rex_for_rm(low, high, RexW::Yes), vec![0x49]);
}

fn modrm(rm_field: u8, reg_field: u8, rm: Operand) -> Vec<u8> {
    let mut a = Assembler::new();
    let mut raw = ModRm::new(rm_field, reg_field, 3);
    a.emit_modrm(&mut raw, &rm);
    assert_eq!(a.machine_code[0], raw.encode());
    a.machine_code
}

#[test]
fn displacement_takes_the_shortest_form() {
    assert_eq!(modrm(3, 2, Operand::Memory(Register::RBX, 0)), vec![0x13]);
    assert_eq!(modrm(3, 10, Operand::Memory(Register::RBX, 0)), vec![0x13]);
    assert_eq!(modrm(5, 2, Operand::Memory(Register::RBP, 0)), vec![0x55, 0x00]);
    assert_eq!(modrm(5, 2, Operand::Memory(Register::R13, 0)), vec![0x55, 0x00]);
    assert_eq!(modrm(3, 2, Operand::Memory(Register::RBX, 1)), vec![0x53, 0x01]);
    assert_eq!(modrm(3, 2, Operand::Memory(Register::RBX, 0x7f)), vec![0x53, 0x7f]);
    assert_eq!(
        modrm(3, 2, Operand::Memory(Register::RBX, -128i64 as u64)),
        vec![0x53, 0x80]
    );
    assert_eq!(
        modrm(3, 2, Operand::Memory(Register::RBX, 0x80)),
        vec![0x93, 0x80, 0x00, 0x00, 0x00]
    );
    assert_eq!(
        modrm(3, 2, Operand::Memory(Register::RBX, -129i64 as u64)),
        vec![0x93, 0x7f, 0xff, 0xff, 0xff]
    );
    assert_eq!(
        modrm(3, 2, Operand::Memory(Register::RBX, 0x1234_5678)),
        vec![0x93, 0x78, 0x56, 0x34, 0x12]
    );
    assert_eq!(modrm(3, 2, reg(Register::RBX)), vec![0xd3]);
}
