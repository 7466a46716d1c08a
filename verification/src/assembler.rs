//! The instruction encoder: it appends x86-64 instructions, as bytes, to a
//! growing buffer, and patches the displacements of jumps once their targets
//! are known.

use vstd::prelude::*;
use crate::bytes::{le_u16, le_u32, le_u64, patched_u32, lemma_patched_u32};
use crate::operand::{
    fits_i32, fits_i8, lemma_mode_replaced, lemma_modrm_fields, lemma_rex_flags, low_byte,
    low_byte_of, low_dword, low_dword_of, modrm_byte, rex_byte, with_mode, Condition, Immediate,
    ModRm, ModRmEnum, Operand, Register, Rex, RexW,
};

verus! {

/// The displacement that a jump slot ending at `slot_end` holds for a jump to
/// `target`: the difference, cut to 32 bits in two's complement.
pub open spec fn displacement(target: int, slot_end: int) -> u32 {
    ((target - slot_end) % 0x1_0000_0000) as u32
}

/// `code` with the four bytes before `slot_end` set to the displacement to
/// `target`.
pub open spec fn linked_slot(code: Seq<u8>, slot_end: int, target: int) -> Seq<u8> {
    patched_u32(code, slot_end - 4, displacement(target, slot_end))
}

/// `code` with every slot of `slots` linked to `target`, the first slot first.
pub open spec fn linked_slots(code: Seq<u8>, slots: Seq<usize>, target: int) -> Seq<u8>
    decreases slots.len(),
{
    if slots.len() == 0 {
        code
    } else {
        linked_slot(linked_slots(code, slots.drop_last(), target), slots.last() as int, target)
    }
}

/// Whether every slot of `slots` lies inside a buffer of `len` bytes.
pub open spec fn slots_inside(slots: Seq<usize>, len: nat) -> bool {
    forall|i: int| 0 <= i < slots.len() ==> 4 <= #[trigger] slots[i] <= len
}

/// Whether no two slots of `slots` share a byte.
pub open spec fn slots_apart(slots: Seq<usize>) -> bool {
    forall|i: int, j: int|
        0 <= i < j < slots.len() ==> (#[trigger] slots[i] + 4 <= #[trigger] slots[j] || slots[j]
            + 4 <= slots[i])
}

/// The buffer of encoded instructions.
pub struct Assembler {
    pub machine_code: Vec<u8>,
}

impl View for Assembler {
    type V = Seq<u8>;

    open spec fn view(&self) -> Seq<u8> {
        self.machine_code@
    }
}

/// A jump target that may not be known yet, with the slots that wait for it.
#[derive(Debug, Clone)]
pub struct Label {
    offset: Option<usize>,
    jump_slots: Vec<usize>,
}

impl Label {
    /// The offset the label is bound to, if it is bound.
    pub closed spec fn target(&self) -> Option<usize> {
        self.offset
    }

    /// The ends of the four-byte slots that refer to the label, oldest first.
    pub closed spec fn slots(&self) -> Seq<usize> {
        self.jump_slots@
    }

    /// An unbound label without slots.
    pub fn new() -> (label: Self)
        ensures
            label.target() is None,
            label.slots() == Seq::<usize>::empty(),
    {
        Self { offset: None, jump_slots: Vec::new() }
    }

    /// A label with the same target and the same slots.
    pub fn duplicate(&self) -> (label: Self)
        ensures
            label.target() == self.target(),
            label.slots() == self.slots(),
    {
        let mut slots: Vec<usize> = Vec::new();
        let mut i: usize = 0;
        while i < self.jump_slots.len()
            invariant
                i <= self.jump_slots@.len(),
                slots@ == self.jump_slots@.subrange(0, i as int),
            decreases self.jump_slots@.len() - i,
        {
            slots.push(self.jump_slots[i]);
            i += 1;
            assert(slots@ =~= self.jump_slots@.subrange(0, i as int));
        }
        assert(self.jump_slots@.subrange(0, i as int) =~= self.jump_slots@);
        Self { offset: self.offset, jump_slots: slots }
    }

    /// Whether the label is bound.
    pub fn is_linked(&self) -> (b: bool)
        ensures
            b == (self.target() is Some),
    {
        self.offset.is_some()
    }

    /// Records that the four bytes ending at `offset` wait for this label, and
    /// fills them in at once if the label is bound.
    pub fn add_jump(&mut self, assembler: &mut Assembler, offset: usize)
        requires
            4 <= offset <= old(assembler)@.len(),
        ensures
            final(self).target() == old(self).target(),
            final(self).slots() == old(self).slots().push(offset),
            final(assembler)@ == (match old(self).target() {
                Some(t) => linked_slot(old(assembler)@, offset as int, t as int),
                None => old(assembler)@,
            }),
    {
        self.jump_slots.push(offset);
        match self.offset {
            Some(t) => {
                link_jump(assembler, offset, t);
            },
            None => {},
        }
    }

    /// Binds the label to the end of the buffer.
    pub fn link(&mut self, assembler: &mut Assembler)
        requires
            old(self).target() is None,
            slots_inside(old(self).slots(), old(assembler)@.len()),
        ensures
            final(self).target() == Some(old(assembler).machine_code.len()),
            final(self).slots() == old(self).slots(),
            final(assembler)@ == linked_slots(
                old(assembler)@,
                old(self).slots(),
                old(assembler)@.len() as int,
            ),
    {
        let end = assembler.machine_code.len();
        self.link_to(assembler, end);
    }

    /// Binds the label to `link_offset` and fills in every slot recorded so
    /// far.
    pub fn link_to(&mut self, assembler: &mut Assembler, link_offset: usize)
        requires
            old(self).target() is None,
            slots_inside(old(self).slots(), old(assembler)@.len()),
        ensures
            final(self).target() == Some(link_offset),
            final(self).slots() == old(self).slots(),
            final(assembler)@ == linked_slots(
                old(assembler)@,
                old(self).slots(),
                link_offset as int,
            ),
    {
        self.offset = Some(link_offset);
        let mut i: usize = 0;
        while i < self.jump_slots.len()
            invariant
                i <= self.jump_slots@.len(),
                self.jump_slots@ == old(self).jump_slots@,
                self.offset == Some(link_offset),
                slots_inside(self.jump_slots@, old(assembler)@.len()),
                assembler@.len() == old(assembler)@.len(),
                assembler@ == linked_slots(
                    old(assembler)@,
                    self.jump_slots@.subrange(0, i as int),
                    link_offset as int,
                ),
            decreases self.jump_slots@.len() - i,
        {
            let slot = self.jump_slots[i];
            link_jump(assembler, slot, link_offset);
            proof {
                let next = self.jump_slots@.subrange(0, i + 1);
                assert(next.drop_last() =~= self.jump_slots@.subrange(0, i as int));
                assert(next.last() == slot);
            }
            i += 1;
        }
        assert(self.jump_slots@.subrange(0, i as int) =~= self.jump_slots@);
    }
}

/// The placeholder that a jump carries until its label is bound.
pub const PLACEHOLDER: u32 = 0xdeadbeef;

/// 1 if a register index needs a REX extension bit, else 0.
pub open spec fn rex_bit(index: u8) -> u8 {
    if index >= 8 {
        1
    } else {
        0
    }
}

/// The REX prefix of an instruction whose rm operand has index `b` and whose
/// reg operand has index `r`: nothing unless W is asked for or an index is 8
/// or more.
pub open spec fn rex_bytes(b: u8, r: u8, w: RexW) -> Seq<u8> {
    if w == RexW::No && b < 8 && r < 8 {
        Seq::empty()
    } else {
        seq![rex_byte(rex_bit(b), 0, rex_bit(r), w.number())]
    }
}

/// The REX prefix where the source is the rm operand and the destination is
/// in the reg field.
pub open spec fn rex_for_rm(dst: Operand, src: Operand, w: RexW) -> Seq<u8> {
    rex_bytes(src.index(), dst.index(), w)
}

/// The REX prefix where the destination is the rm operand and the source is
/// in the reg field.
pub open spec fn rex_for_mr(dst: Operand, src: Operand, w: RexW) -> Seq<u8> {
    rex_bytes(dst.index(), src.index(), w)
}

/// The REX prefix where the reg field holds an opcode extension.
pub open spec fn rex_for_slash(arg: Operand, w: RexW) -> Seq<u8> {
    rex_bytes(arg.index(), 0, w)
}

/// The addressing mode that an rm operand is encoded with: the smallest that
/// holds its displacement. A base whose low index bits are 101 (RBP, R13)
/// cannot go without a displacement.
pub open spec fn modrm_mode(rm: Operand) -> ModRmEnum {
    match rm {
        Operand::Memory(base, disp) => {
            if disp == 0 && base.index() % 8 != 5 {
                ModRmEnum::Mem
            } else if fits_i8(disp) {
                ModRmEnum::MemDisp8
            } else {
                ModRmEnum::MemDisp32
            }
        },
        _ => ModRmEnum::Reg,
    }
}

/// The displacement bytes that follow the ModR/M byte of an rm operand.
pub open spec fn displacement_bytes(rm: Operand) -> Seq<u8> {
    match rm {
        Operand::Memory(_, disp) => match modrm_mode(rm) {
            ModRmEnum::MemDisp8 => seq![low_byte(disp)],
            ModRmEnum::MemDisp32 => le_u32(low_dword(disp)),
            _ => Seq::empty(),
        },
        _ => Seq::empty(),
    }
}

/// The ModR/M byte with the given fields, in the mode of `rm`, and the
/// displacement of `rm`.
pub open spec fn modrm_bytes(rm_field: u8, reg_field: u8, rm: Operand) -> Seq<u8> {
    seq![modrm_byte(rm_field, reg_field, modrm_mode(rm).number())] + displacement_bytes(rm)
}

/// ModR/M where the source is the rm operand and the destination is in the
/// reg field.
pub open spec fn modrm_rm(dst: Operand, src: Operand) -> Seq<u8> {
    modrm_bytes(src.underlying(), dst.underlying(), src)
}

/// ModR/M where the destination is the rm operand and the source is in the
/// reg field.
pub open spec fn modrm_mr(dst: Operand, src: Operand) -> Seq<u8> {
    modrm_bytes(dst.underlying(), src.underlying(), dst)
}

/// ModR/M whose reg field holds the opcode extension `slash`.
pub open spec fn modrm_slash(slash: u8, rm: Operand) -> Seq<u8> {
    modrm_bytes(rm.underlying(), slash, rm)
}

/// Whether both operands are registers and name the same one.
pub open spec fn same_register(dst: Operand, src: Operand) -> bool {
    dst is Register && src is Register && dst->Register_0 == src->Register_0
}

pub open spec fn mov_ok(dst: Operand, src: Operand) -> bool {
    ||| src matches Operand::Register(_, false) && dst.is_reg_or_mem()
    ||| dst is Register && src is Immediate
}

/// The bytes of `mov dst, src`.
pub open spec fn mov_bytes(dst: Operand, src: Operand) -> Seq<u8> {
    if src matches Operand::Register(_, false) && dst.is_reg_or_mem() {
        if same_register(dst, src) {
            Seq::empty()
        } else {
            rex_for_mr(dst, src, RexW::Yes) + seq![0x89u8] + modrm_mr(dst, src)
        }
    } else if src.number() == 0 {
        rex_for_mr(dst, dst, RexW::No) + seq![0x31u8] + modrm_mr(dst, dst)
    } else if src.number() <= 0xffff_ffff {
        rex_for_slash(dst, RexW::No) + seq![(0xb8 + dst.index() % 8) as u8] + le_u32(
            low_dword(src.number()),
        )
    } else {
        rex_for_slash(dst, RexW::Yes) + seq![(0xb8 + dst.index() % 8) as u8] + le_u64(src.number())
    }
}

/// The bytes of `ret`, or of `ret n` where bytes are popped on return.
pub open spec fn ret_bytes(bytes: Option<u16>) -> Seq<u8> {
    match bytes {
        Some(n) => seq![0xc2u8] + le_u16(n),
        None => seq![0xc3u8],
    }
}

pub open spec fn push_ok(op: Operand) -> bool {
    op is Register || (op is Immediate && fits_i32(op.number()))
}

/// The bytes of `push op`.
pub open spec fn push_bytes(op: Operand) -> Seq<u8> {
    if op is Register {
        rex_for_slash(op, RexW::No) + seq![(0x50 + op.index() % 8) as u8]
    } else if fits_i8(op.number()) {
        seq![0x6au8, low_byte(op.number())]
    } else {
        seq![0x68u8] + le_u32(low_dword(op.number()))
    }
}

/// The bytes of `pop op`.
pub open spec fn pop_bytes(op: Operand) -> Seq<u8> {
    rex_for_slash(op, RexW::No) + seq![(0x58 + op.index() % 8) as u8]
}

/// The bytes of `push rbp; mov rbp, rsp`.
pub open spec fn enter_bytes() -> Seq<u8> {
    push_bytes(Operand::Register(Register::RBP, false)) + mov_bytes(
        Operand::Register(Register::RBP, false),
        Operand::Register(Register::RSP, false),
    )
}

/// The bytes of `leave; ret`.
pub open spec fn exit_bytes() -> Seq<u8> {
    seq![0xc9u8] + ret_bytes(None)
}

/// The bytes that push RBX, RBP, R12, R13, R14 and R15, in that order.
pub open spec fn push_callee_saved_bytes() -> Seq<u8> {
    push_bytes(Operand::Register(Register::RBX, false)) + push_bytes(
        Operand::Register(Register::RBP, false),
    ) + push_bytes(Operand::Register(Register::R12, false)) + push_bytes(
        Operand::Register(Register::R13, false),
    ) + push_bytes(Operand::Register(Register::R14, false)) + push_bytes(
        Operand::Register(Register::R15, false),
    )
}

/// The bytes that pop R15, R14, R13, R12, RBP and RBX, in that order.
pub open spec fn pop_callee_saved_bytes() -> Seq<u8> {
    pop_bytes(Operand::Register(Register::R15, false)) + pop_bytes(
        Operand::Register(Register::R14, false),
    ) + pop_bytes(Operand::Register(Register::R13, false)) + pop_bytes(
        Operand::Register(Register::R12, false),
    ) + pop_bytes(Operand::Register(Register::RBP, false)) + pop_bytes(
        Operand::Register(Register::RBX, false),
    )
}

pub open spec fn arith_ok(dst: Operand, src: Operand) -> bool {
    ||| src matches Operand::Register(_, false) && dst.is_reg_or_mem()
    ||| src is Immediate && dst.is_reg_or_mem() && fits_i32(src.number())
    ||| dst matches Operand::Register(_, true) && src matches Operand::Register(_, true)
}

/// The bytes of a two-operand arithmetic instruction: `op_mr` is its opcode
/// with a register source, `slash` its opcode extension with an immediate,
/// `op_sse` the last opcode byte of its scalar double form, in which the
/// prefix `F2` stands before any REX byte.
pub open spec fn arith_bytes(op_mr: u8, slash: u8, op_sse: u8, dst: Operand, src: Operand) -> Seq<
    u8,
> {
    if src matches Operand::Register(_, false) && dst.is_reg_or_mem() {
        rex_for_mr(dst, src, RexW::Yes) + seq![op_mr] + modrm_mr(dst, src)
    } else if src is Immediate && fits_i8(src.number()) {
        rex_for_slash(dst, RexW::Yes) + seq![0x83u8] + modrm_slash(slash, dst) + seq![
            low_byte(src.number()),
        ]
    } else if src is Immediate {
        rex_for_slash(dst, RexW::Yes) + seq![0x81u8] + modrm_slash(slash, dst) + le_u32(
            low_dword(src.number()),
        )
    } else {
        seq![0xf2u8] + rex_for_rm(dst, src, RexW::No) + seq![0x0fu8, op_sse] + modrm_rm(dst, src)
    }
}

/// The bytes of `sub dst, src`.
pub open spec fn sub_bytes(dst: Operand, src: Operand) -> Seq<u8> {
    arith_bytes(0x29, 5, 0x5c, dst, src)
}

/// The bytes of `add dst, src`.
pub open spec fn add_bytes(dst: Operand, src: Operand) -> Seq<u8> {
    arith_bytes(0x01, 0, 0x58, dst, src)
}

/// The bytes of an instruction `FF /slash` without REX.W.
pub open spec fn group5_bytes(slash: u8, op: Operand) -> Seq<u8> {
    rex_for_slash(op, RexW::No) + seq![0xffu8] + modrm_slash(slash, op)
}

pub open spec fn compare_ok(lhs: Operand, rhs: Operand) -> bool {
    ||| rhs is Register && lhs.is_reg_or_mem()
    ||| rhs is Immediate && lhs.is_reg_or_mem() && fits_i32(rhs.number())
}

/// The bytes of a comparison of `lhs` with `rhs`: `ucomisd` for two SIMD
/// registers, with `lhs` in the reg field and the prefix `66` before any REX
/// byte, else the integer comparison, with the shortest immediate.
pub open spec fn compare_bytes(lhs: Operand, rhs: Operand) -> Seq<u8> {
    if lhs matches Operand::Register(_, true) && rhs matches Operand::Register(_, true) {
        seq![0x66u8] + rex_for_rm(lhs, rhs, RexW::No) + seq![0x0fu8, 0x2eu8] + modrm_rm(lhs, rhs)
    } else if rhs is Register {
        rex_for_mr(lhs, rhs, RexW::Yes) + seq![0x39u8] + modrm_mr(lhs, rhs)
    } else if fits_i8(rhs.number()) {
        rex_for_slash(lhs, RexW::Yes) + seq![0x83u8] + modrm_slash(7, lhs) + seq![
            low_byte(rhs.number()),
        ]
    } else {
        rex_for_slash(lhs, RexW::Yes) + seq![0x81u8] + modrm_slash(7, lhs) + le_u32(
            low_dword(rhs.number()),
        )
    }
}

/// The bytes of a jump over `disp` bytes.
pub open spec fn jump_to_bytes(disp: u32) -> Seq<u8> {
    seq![0xe9u8] + le_u32(disp)
}

/// The bytes of a jump over `disp` bytes where `condition` holds.
pub open spec fn jump_if_to_bytes(condition: Condition, disp: u32) -> Seq<u8> {
    seq![0x0fu8, (0x80 + condition.nibble()) as u8] + le_u32(disp)
}

/// The bytes of a jump with a placeholder for its 32-bit displacement.
pub open spec fn jump_bytes() -> Seq<u8> {
    jump_to_bytes(PLACEHOLDER)
}

/// The bytes of a conditional jump with a placeholder for its 32-bit
/// displacement.
pub open spec fn jump_if_bytes(condition: Condition) -> Seq<u8> {
    jump_if_to_bytes(condition, PLACEHOLDER)
}

/// The bytes of a call of the function at `callee`: 32 bytes of the stack are
/// set aside for the callee, which is called through RAX.
pub open spec fn call_bytes(callee: u64) -> Seq<u8> {
    sub_bytes(
        Operand::Register(Register::RSP, false),
        Operand::Immediate(Immediate::Immediate8(32)),
    ) + mov_bytes(
        Operand::Register(Register::RAX, false),
        Operand::Immediate(Immediate::Immediate64(callee)),
    ) + call_rax_bytes() + add_bytes(
        Operand::Register(Register::RSP, false),
        Operand::Immediate(Immediate::Immediate8(32)),
    )
}

/// `code`, whose last four bytes are a jump slot, after the slot was handed
/// to a label with the given target.
pub open spec fn with_slot(code: Seq<u8>, target: Option<usize>) -> Seq<u8> {
    match target {
        Some(t) => linked_slot(code, code.len() as int, t as int),
        None => code,
    }
}

/// The bytes of `setcc dst`.
pub open spec fn set_if_bytes(condition: Condition, dst: Operand) -> Seq<u8> {
    rex_for_slash(dst, RexW::No) + seq![0x0fu8, (0x90 + condition.nibble()) as u8] + modrm_slash(
        0,
        dst,
    )
}

/// The bytes of `cmovcc dst, src`.
pub open spec fn mov_if_bytes(condition: Condition, dst: Operand, src: Operand) -> Seq<u8> {
    rex_for_rm(dst, src, RexW::Yes) + seq![0x0fu8, (0x40 + condition.nibble()) as u8] + modrm_rm(
        dst,
        src,
    )
}

pub open spec fn test_ok(lhs: Operand, rhs: Operand) -> bool {
    ||| rhs matches Operand::Register(_, false) && lhs.is_reg_or_mem()
    ||| rhs is Immediate && lhs.is_reg_or_mem() && fits_i32(rhs.number())
}

/// The bytes of `test lhs, rhs`.
pub open spec fn test_bytes(lhs: Operand, rhs: Operand) -> Seq<u8> {
    if rhs is Register {
        rex_for_mr(lhs, rhs, RexW::Yes) + seq![0x85u8] + modrm_mr(lhs, rhs)
    } else {
        rex_for_slash(lhs, RexW::Yes) + seq![0xf7u8] + modrm_slash(0, lhs) + le_u32(
            low_dword(rhs.number()),
        )
    }
}

/// The bytes of `call rax`.
pub open spec fn call_rax_bytes() -> Seq<u8> {
    seq![0xffu8] + modrm_slash(2, Operand::Register(Register::RAX, false))
}

pub open spec fn shift_ok(dst: Operand, count: Operand) -> bool {
    dst is Register && count is Immediate && count.number() <= 0xff
}

/// The bytes of a shift by a constant, `C1 /slash ib` with REX.W.
pub open spec fn shift_bytes(slash: u8, dst: Operand, count: Operand) -> Seq<u8> {
    rex_for_slash(dst, RexW::Yes) + seq![0xc1u8] + modrm_slash(slash, dst) + seq![
        low_byte(count.number()),
    ]
}

impl Assembler {
    /// An empty buffer.
    pub fn new() -> (a: Self)
        ensures
            a@ == Seq::<u8>::empty(),
    {
        Self { machine_code: Vec::new() }
    }

    /// The number of bytes emitted so far.
    pub fn len(&self) -> (n: usize)
        ensures
            n == self@.len(),
    {
        self.machine_code.len()
    }

    fn emit8(&mut self, byte: u8)
        ensures
            final(self)@ == old(self)@ + seq![byte],
    {
        self.machine_code.push(byte);
        assert(self@ =~= old(self)@ + seq![byte]);
    }

    fn emit16(&mut self, word: u16)
        ensures
            final(self)@ == old(self)@ + le_u16(word),
    {
        self.machine_code.push(#[verifier::truncate] (word as u8));
        self.machine_code.push(#[verifier::truncate] ((word >> 8) as u8));
        assert(self@ =~= old(self)@ + le_u16(word));
    }

    fn emit32(&mut self, dword: u32)
        ensures
            final(self)@ == old(self)@ + le_u32(dword),
    {
        self.machine_code.push(#[verifier::truncate] (dword as u8));
        self.machine_code.push(#[verifier::truncate] ((dword >> 8) as u8));
        self.machine_code.push(#[verifier::truncate] ((dword >> 16) as u8));
        self.machine_code.push(#[verifier::truncate] ((dword >> 24) as u8));
        assert(self@ =~= old(self)@ + le_u32(dword));
    }

    fn emit64(&mut self, qword: u64)
        ensures
            final(self)@ == old(self)@ + le_u64(qword),
    {
        self.machine_code.push(#[verifier::truncate] (qword as u8));
        self.machine_code.push(#[verifier::truncate] ((qword >> 8) as u8));
        self.machine_code.push(#[verifier::truncate] ((qword >> 16) as u8));
        self.machine_code.push(#[verifier::truncate] ((qword >> 24) as u8));
        self.machine_code.push(#[verifier::truncate] ((qword >> 32) as u8));
        self.machine_code.push(#[verifier::truncate] ((qword >> 40) as u8));
        self.machine_code.push(#[verifier::truncate] ((qword >> 48) as u8));
        self.machine_code.push(#[verifier::truncate] ((qword >> 56) as u8));
        assert(self@ =~= old(self)@ + le_u64(qword));
    }

    /// Sets the mode of `raw` to that of the rm operand and appends the byte,
    /// followed by the displacement of the operand in its shortest form.
    pub fn emit_modrm(&mut self, raw: &mut ModRm, rm: &Operand)
        requires
            rm.is_reg_or_mem(),
        ensures
            final(raw).raw == with_mode(old(raw).raw, modrm_mode(*rm).number()),
            final(self)@ == old(self)@ + seq![final(raw).raw] + displacement_bytes(*rm),
    {
        match rm {
            Operand::Memory(base, display) => {
                let disp: u64 = *display;
                if disp == 0 && base.encode() % 8 != 5 {
                    raw.set_mode(ModRmEnum::Mem.encode());
                    self.emit8(raw.encode());
                } else if disp <= 0x7f || disp >= 0xffff_ffff_ffff_ff80 {
                    raw.set_mode(ModRmEnum::MemDisp8.encode());
                    self.emit8(raw.encode());
                    self.emit8(low_byte_of(disp));
                } else {
                    raw.set_mode(ModRmEnum::MemDisp32.encode());
                    self.emit8(raw.encode());
                    self.emit32(low_dword_of(disp));
                }
            },
            _ => {
                raw.set_mode(ModRmEnum::Reg.encode());
                self.emit8(raw.encode());
            },
        }
        assert(self@ =~= old(self)@ + seq![raw.raw] + displacement_bytes(*rm));
    }

    fn emit_modrm_rm(&mut self, dst: &Operand, src: &Operand)
        requires
            src is Register,
            dst.is_reg_or_mem(),
        ensures
            final(self)@ == old(self)@ + modrm_rm(*dst, *src),
    {
        let mut raw = ModRm::new(
            src.register_or_memory_base_to_underlying(),
            dst.register_or_memory_base_to_underlying(),
            0,
        );
        proof {
            lemma_modrm_fields(src.underlying(), dst.underlying(), modrm_mode(*src).number());
        }
        self.emit_modrm(&mut raw, src);
        assert(self@ =~= old(self)@ + modrm_rm(*dst, *src));
    }

    fn emit_modrm_mr(&mut self, dst: &Operand, src: &Operand)
        requires
            src is Register,
            dst.is_reg_or_mem(),
        ensures
            final(self)@ == old(self)@ + modrm_mr(*dst, *src),
    {
        let mut raw = ModRm::new(
            dst.register_or_memory_base_to_underlying(),
            src.register_or_memory_base_to_underlying(),
            0,
        );
        proof {
            lemma_modrm_fields(dst.underlying(), src.underlying(), modrm_mode(*dst).number());
        }
        self.emit_modrm(&mut raw, dst);
        assert(self@ =~= old(self)@ + modrm_mr(*dst, *src));
    }

    fn emit_modrm_slash(&mut self, slash: u8, rm: &Operand)
        requires
            rm.is_reg_or_mem(),
        ensures
            final(self)@ == old(self)@ + modrm_slash(slash, *rm),
    {
        let mut raw = ModRm::new(rm.register_or_memory_base_to_underlying(), slash, 0);
        proof {
            lemma_modrm_fields(rm.underlying(), slash, modrm_mode(*rm).number());
        }
        self.emit_modrm(&mut raw, rm);
        assert(self@ =~= old(self)@ + modrm_slash(slash, *rm));
    }

    fn emit_rex(&mut self, b: u8, r: u8, w: RexW)
        ensures
            final(self)@ == old(self)@ + rex_bytes(b, r, w),
    {
        if w == RexW::No && b < 8 && r < 8 {
            assert(self@ =~= old(self)@ + rex_bytes(b, r, w));
            return ;
        }
        let rex = Rex::new(if b >= 8 { 1 } else { 0 }, 0, if r >= 8 { 1 } else { 0 }, w.encode());
        self.emit8(rex.encode());
    }

    /// Appends the REX prefix of an instruction whose source is the rm
    /// operand, if it needs one.
    pub fn emit_rex_for_rm(&mut self, dst: &Operand, src: &Operand, w: RexW)
        requires
            src.is_reg_or_mem(),
            dst is Register,
        ensures
            final(self)@ == old(self)@ + rex_for_rm(*dst, *src, w),
    {
        self.emit_rex(src.register_index(), dst.register_index(), w);
    }

    /// Appends the REX prefix of an instruction whose destination is the rm
    /// operand, if it needs one.
    pub fn emit_rex_for_mr(&mut self, dst: &Operand, src: &Operand, w: RexW)
        requires
            dst.is_reg_or_mem(),
            src is Register,
        ensures
            final(self)@ == old(self)@ + rex_for_mr(*dst, *src, w),
    {
        self.emit_rex(dst.register_index(), src.register_index(), w);
    }

    /// Appends the REX prefix of an instruction whose reg field holds an
    /// opcode extension, if it needs one.
    pub fn emit_rex_for_slash(&mut self, arg: &Operand, w: RexW)
        requires
            arg.is_reg_or_mem(),
        ensures
            final(self)@ == old(self)@ + rex_for_slash(*arg, w),
    {
        self.emit_rex(arg.register_index(), 0, w);
    }

    fn emit_rex_for_oi(&mut self, arg: &Operand, w: RexW)
        requires
            arg.is_reg_or_mem(),
        ensures
            final(self)@ == old(self)@ + rex_for_slash(*arg, w),
    {
        self.emit_rex_for_slash(arg, w);
    }

    /// Appends `mov dst, src`: a register or an immediate into a register, or
    /// a register into memory. A register moved onto itself takes no bytes, a
    /// zero immediate becomes `xor dst, dst`, an immediate of at most 32 bits
    /// takes the short form.
    pub fn mov(&mut self, dst: Operand, src: Operand)
        requires
            mov_ok(dst, src),
        ensures
            final(self)@ == old(self)@ + mov_bytes(dst, src),
    {
        match src {
            Operand::Register(src_reg, false) => {
                let same = match dst {
                    Operand::Register(dst_reg, _) => dst_reg == src_reg,
                    _ => false,
                };
                if same {
                    assert(self@ =~= old(self)@ + mov_bytes(dst, src));
                    return ;
                }
                self.emit_rex_for_mr(&dst, &src, RexW::Yes);
                self.emit8(0x89);
                self.emit_modrm_mr(&dst, &src);
            },
            _ => {
                let value: u64 = src.offset_or_immediate();
                if value == 0 {
                    self.emit_rex_for_mr(&dst, &dst, RexW::No);
                    self.emit8(0x31);
                    self.emit_modrm_mr(&dst, &dst);
                } else if value <= 0xffff_ffff {
                    self.emit_rex_for_slash(&dst, RexW::No);
                    self.emit8(0xb8 + dst.register_index() % 8);
                    self.emit32(low_dword_of(value));
                } else {
                    self.emit_rex_for_oi(&dst, RexW::Yes);
                    self.emit8(0xb8 + dst.register_index() % 8);
                    self.emit64(value);
                }
            },
        }
        assert(self@ =~= old(self)@ + mov_bytes(dst, src));
    }

    /// Appends `int3`.
    pub fn trap(&mut self)
        ensures
            final(self)@ == old(self)@ + seq![0xccu8],
    {
        self.emit8(0xcc);
    }

    /// Appends `ret`, or `ret n` where `n` bytes are popped on return.
    pub fn ret(&mut self, bytes: Option<u16>)
        ensures
            final(self)@ == old(self)@ + ret_bytes(bytes),
    {
        match bytes {
            Some(n) => {
                self.emit8(0xc2);
                self.emit16(n);
            },
            None => {
                self.emit8(0xc3);
            },
        }
        assert(self@ =~= old(self)@ + ret_bytes(bytes));
    }

    /// Appends `leave`.
    pub fn leave(&mut self)
        ensures
            final(self)@ == old(self)@ + seq![0xc9u8],
    {
        self.emit8(0xc9);
    }

    /// Appends the function prologue `push rbp; mov rbp, rsp`.
    pub fn enter(&mut self)
        ensures
            final(self)@ == old(self)@ + enter_bytes(),
    {
        self.push(Operand::Register(Register::RBP, false));
        self.mov(
            Operand::Register(Register::RBP, false),
            Operand::Register(Register::RSP, false),
        );
        assert(self@ =~= old(self)@ + enter_bytes());
    }

    /// Appends the function epilogue `leave; ret`.
    pub fn exit(&mut self)
        ensures
            final(self)@ == old(self)@ + exit_bytes(),
    {
        self.leave();
        self.ret(None);
        assert(self@ =~= old(self)@ + exit_bytes());
    }

    /// Appends `push op`: a register, or an immediate that fits in 32 signed
    /// bits, in one byte where it fits in 8.
    pub fn push(&mut self, op: Operand)
        requires
            push_ok(op),
        ensures
            final(self)@ == old(self)@ + push_bytes(op),
    {
        match op {
            Operand::Register(reg, _) => {
                self.emit_rex_for_oi(&op, RexW::No);
                self.emit8(0x50 + reg.encode() % 8);
            },
            _ => {
                let value: u64 = op.offset_or_immediate();
                if op.fits_in_i8() {
                    self.emit8(0x6a);
                    self.emit8(low_byte_of(value));
                } else {
                    self.emit8(0x68);
                    self.emit32(low_dword_of(value));
                }
            },
        }
        assert(self@ =~= old(self)@ + push_bytes(op));
    }

    /// Appends `pop op` for a register.
    pub fn pop(&mut self, op: Operand)
        requires
            op is Register,
        ensures
            final(self)@ == old(self)@ + pop_bytes(op),
    {
        self.emit_rex_for_oi(&op, RexW::No);
        self.emit8(0x58 + op.register_index() % 8);
        assert(self@ =~= old(self)@ + pop_bytes(op));
    }

    /// Appends pushes of the registers that a callee must preserve.
    pub fn push_callee_saved_registers(&mut self)
        ensures
            final(self)@ == old(self)@ + push_callee_saved_bytes(),
    {
        self.push(Operand::Register(Register::RBX, false));
        self.push(Operand::Register(Register::RBP, false));
        self.push(Operand::Register(Register::R12, false));
        self.push(Operand::Register(Register::R13, false));
        self.push(Operand::Register(Register::R14, false));
        self.push(Operand::Register(Register::R15, false));
        assert(self@ =~= old(self)@ + push_callee_saved_bytes());
    }

    /// Appends pops of the registers that a callee must preserve, in the
    /// reverse of the order in which they are pushed.
    pub fn pop_callee_saved_registers(&mut self)
        ensures
            final(self)@ == old(self)@ + pop_callee_saved_bytes(),
    {
        self.pop(Operand::Register(Register::R15, false));
        self.pop(Operand::Register(Register::R14, false));
        self.pop(Operand::Register(Register::R13, false));
        self.pop(Operand::Register(Register::R12, false));
        self.pop(Operand::Register(Register::RBP, false));
        self.pop(Operand::Register(Register::RBX, false));
        assert(self@ =~= old(self)@ + pop_callee_saved_bytes());
    }

    fn arith(&mut self, op_mr: u8, slash: u8, op_sse: u8, dst: Operand, src: Operand)
        requires
            arith_ok(dst, src),
        ensures
            final(self)@ == old(self)@ + arith_bytes(op_mr, slash, op_sse, dst, src),
    {
        match src {
            Operand::Register(_, false) => {
                self.emit_rex_for_mr(&dst, &src, RexW::Yes);
                self.emit8(op_mr);
                self.emit_modrm_mr(&dst, &src);
            },
            Operand::Immediate(_) => {
                let value: u64 = src.offset_or_immediate();
                if src.fits_in_i8() {
                    self.emit_rex_for_slash(&dst, RexW::Yes);
                    self.emit8(0x83);
                    self.emit_modrm_slash(slash, &dst);
                    self.emit8(low_byte_of(value));
                } else {
                    self.emit_rex_for_slash(&dst, RexW::Yes);
                    self.emit8(0x81);
                    self.emit_modrm_slash(slash, &dst);
                    self.emit32(low_dword_of(value));
                }
            },
            _ => {
                self.emit8(0xf2);
                self.emit_rex_for_rm(&dst, &src, RexW::No);
                self.emit8(0x0f);
                self.emit8(op_sse);
                self.emit_modrm_rm(&dst, &src);
            },
        }
        assert(self@ =~= old(self)@ + arith_bytes(op_mr, slash, op_sse, dst, src));
    }

    /// Appends `sub dst, src`, or `subsd` for two SIMD registers.
    pub fn sub(&mut self, dst: Operand, src: Operand)
        requires
            arith_ok(dst, src),
        ensures
            final(self)@ == old(self)@ + sub_bytes(dst, src),
    {
        self.arith(0x29, 5, 0x5c, dst, src);
    }

    /// Appends `add dst, src`, or `addsd` for two SIMD registers.
    pub fn add(&mut self, dst: Operand, src: Operand)
        requires
            arith_ok(dst, src),
        ensures
            final(self)@ == old(self)@ + add_bytes(dst, src),
    {
        self.arith(0x01, 0, 0x58, dst, src);
    }

    fn group5(&mut self, slash: u8, op: &Operand)
        requires
            op.is_reg_or_mem(),
        ensures
            final(self)@ == old(self)@ + group5_bytes(slash, *op),
    {
        self.emit_rex_for_slash(op, RexW::No);
        self.emit8(0xff);
        self.emit_modrm_slash(slash, op);
        assert(self@ =~= old(self)@ + group5_bytes(slash, *op));
    }

    /// Appends `inc op` and, where a label is given, a jump to it on overflow.
    pub fn inc32(&mut self, op: &Operand, label: Option<&mut Label>)
        requires
            op.is_reg_or_mem(),
        ensures
            match label {
                Some(l) => {
                    &&& final(self)@ == with_slot(
                        old(self)@ + group5_bytes(0, *op) + jump_if_bytes(Condition::Overflow),
                        l.target(),
                    )
                    &&& final(l).target() == l.target()
                    &&& final(l).slots() == l.slots().push(final(self).machine_code.len())
                },
                None => final(self)@ == old(self)@ + group5_bytes(0, *op),
            },
    {
        self.group5(0, op);
        if let Some(label) = label {
            self.jump_if_label(Condition::Overflow, label);
        }
    }

    /// Appends `dec op` and, where a label is given, a jump to it on overflow.
    pub fn dec32(&mut self, op: &Operand, label: Option<&mut Label>)
        requires
            op.is_reg_or_mem(),
        ensures
            match label {
                Some(l) => {
                    &&& final(self)@ == with_slot(
                        old(self)@ + group5_bytes(1, *op) + jump_if_bytes(Condition::Overflow),
                        l.target(),
                    )
                    &&& final(l).target() == l.target()
                    &&& final(l).slots() == l.slots().push(final(self).machine_code.len())
                },
                None => final(self)@ == old(self)@ + group5_bytes(1, *op),
            },
    {
        self.group5(1, op);
        if let Some(label) = label {
            self.jump_if_label(Condition::Overflow, label);
        }
    }

    /// Appends a jump with a placeholder displacement and returns the label
    /// that its slot waits for.
    pub fn jump(&mut self) -> (label: Label)
        ensures
            final(self)@ == old(self)@ + jump_bytes(),
            label.target() is None,
            label.slots() == seq![final(self).machine_code.len()],
    {
        self.emit8(0xe9);
        self.emit32(PLACEHOLDER);
        let mut label = Label::new();
        let end = self.machine_code.len();
        label.add_jump(self, end);
        assert(self@ =~= old(self)@ + jump_bytes());
        assert(label.slots() =~= seq![end]);
        label
    }

    /// Appends a jump to `label`. The displacement is filled in at once if the
    /// label is bound, and when it is bound otherwise.
    pub fn jump_label(&mut self, label: &mut Label)
        ensures
            final(self)@ == with_slot(old(self)@ + jump_bytes(), old(label).target()),
            final(self)@.len() == old(self)@.len() + 5,
            final(label).target() == old(label).target(),
            final(label).slots() == old(label).slots().push(final(self).machine_code.len()),
    {
        self.emit8(0xe9);
        self.emit32(PLACEHOLDER);
        assert(self@ =~= old(self)@ + jump_bytes());
        let end = self.machine_code.len();
        label.add_jump(self, end);
        proof {
            if old(label).target() is Some {
                lemma_patched_u32(
                    old(self)@ + jump_bytes(),
                    end as int - 4,
                    displacement(old(label).target()->0 as int, end as int),
                );
            }
        }
    }

    /// Appends an indirect jump through `op`.
    pub fn jump_op(&mut self, op: &Operand)
        requires
            op.is_reg_or_mem(),
        ensures
            final(self)@ == old(self)@ + group5_bytes(4, *op),
    {
        self.group5(4, op);
    }

    /// Appends a conditional jump to `label`, always in the 32-bit form.
    pub fn jump_if_label(&mut self, condition: Condition, label: &mut Label)
        ensures
            final(self)@ == with_slot(old(self)@ + jump_if_bytes(condition), old(label).target()),
            final(self)@.len() == old(self)@.len() + 6,
            final(label).target() == old(label).target(),
            final(label).slots() == old(label).slots().push(final(self).machine_code.len()),
    {
        self.emit8(0x0f);
        self.emit8(0x80 + condition.encode());
        self.emit32(PLACEHOLDER);
        assert(self@ =~= old(self)@ + jump_if_bytes(condition));
        let end = self.machine_code.len();
        label.add_jump(self, end);
        proof {
            if old(label).target() is Some {
                lemma_patched_u32(
                    old(self)@ + jump_if_bytes(condition),
                    end as int - 4,
                    displacement(old(label).target()->0 as int, end as int),
                );
            }
        }
    }

    /// Appends `setcc dst`.
    pub fn set_if(&mut self, condition: Condition, dst: &Operand)
        requires
            dst.is_reg_or_mem(),
        ensures
            final(self)@ == old(self)@ + set_if_bytes(condition, *dst),
    {
        self.emit_rex_for_slash(dst, RexW::No);
        self.emit8(0x0f);
        self.emit8(0x90 + condition.encode());
        self.emit_modrm_slash(0, dst);
        assert(self@ =~= old(self)@ + set_if_bytes(condition, *dst));
    }

    /// Appends `cmovcc dst, src` for two registers.
    pub fn mov_if(&mut self, condition: Condition, dst: &Operand, src: &Operand)
        requires
            dst is Register,
            src is Register,
        ensures
            final(self)@ == old(self)@ + mov_if_bytes(condition, *dst, *src),
    {
        self.emit_rex_for_rm(dst, src, RexW::Yes);
        self.emit8(0x0f);
        self.emit8(0x40 + condition.encode());
        self.emit_modrm_rm(dst, src);
        assert(self@ =~= old(self)@ + mov_if_bytes(condition, *dst, *src));
    }

    /// Appends `test lhs, rhs`.
    pub fn test(&mut self, lhs: &Operand, rhs: &Operand)
        requires
            test_ok(*lhs, *rhs),
        ensures
            final(self)@ == old(self)@ + test_bytes(*lhs, *rhs),
    {
        match rhs {
            Operand::Register(_, _) => {
                self.emit_rex_for_mr(lhs, rhs, RexW::Yes);
                self.emit8(0x85);
                self.emit_modrm_mr(lhs, rhs);
            },
            _ => {
                self.emit_rex_for_slash(lhs, RexW::Yes);
                self.emit8(0xf7);
                self.emit_modrm_slash(0, lhs);
                self.emit32(low_dword_of(rhs.offset_or_immediate()));
            },
        }
        assert(self@ =~= old(self)@ + test_bytes(*lhs, *rhs));
    }

    /// Appends a comparison of `lhs` with `rhs`.
    pub fn cmp(&mut self, lhs: &Operand, rhs: &Operand)
        requires
            compare_ok(*lhs, *rhs),
        ensures
            final(self)@ == old(self)@ + compare_bytes(*lhs, *rhs),
    {
        match (lhs, rhs) {
            (Operand::Register(_, true), Operand::Register(_, true)) => {
                self.emit8(0x66);
                self.emit_rex_for_rm(lhs, rhs, RexW::No);
                self.emit8(0x0f);
                self.emit8(0x2e);
                self.emit_modrm_rm(lhs, rhs);
            },
            (_, Operand::Register(_, _)) => {
                self.emit_rex_for_mr(lhs, rhs, RexW::Yes);
                self.emit8(0x39);
                self.emit_modrm_mr(lhs, rhs);
            },
            _ => {
                let value: u64 = rhs.offset_or_immediate();
                if rhs.fits_in_i8() {
                    self.emit_rex_for_slash(lhs, RexW::Yes);
                    self.emit8(0x83);
                    self.emit_modrm_slash(7, lhs);
                    self.emit8(low_byte_of(value));
                } else {
                    self.emit_rex_for_slash(lhs, RexW::Yes);
                    self.emit8(0x81);
                    self.emit_modrm_slash(7, lhs);
                    self.emit32(low_dword_of(value));
                }
            },
        }
        assert(self@ =~= old(self)@ + compare_bytes(*lhs, *rhs));
    }

    /// Appends a comparison of `lhs` with `rhs` and a jump to `label` where
    /// `condition` holds of it.
    pub fn jump_if_cmp(
        &mut self,
        lhs: &Operand,
        condition: Condition,
        rhs: &Operand,
        label: &mut Label,
    )
        requires
            compare_ok(*lhs, *rhs),
        ensures
            final(self)@ == with_slot(
                old(self)@ + compare_bytes(*lhs, *rhs) + jump_if_bytes(condition),
                old(label).target(),
            ),
            final(self)@.len() == old(self)@.len() + compare_bytes(*lhs, *rhs).len() + 6,
            final(label).target() == old(label).target(),
            final(label).slots() == old(label).slots().push(final(self).machine_code.len()),
    {
        self.cmp(lhs, rhs);
        self.jump_if_label(condition, label);
    }

    /// Appends a call of the function at `callee`, with the 32 bytes of stack
    /// that the callee may use for its register arguments.
    pub fn call(&mut self, callee: u64)
        ensures
            final(self)@ == old(self)@ + call_bytes(callee),
    {
        self.sub(
            Operand::Register(Register::RSP, false),
            Operand::Immediate(Immediate::Immediate8(32)),
        );
        self.mov(
            Operand::Register(Register::RAX, false),
            Operand::Immediate(Immediate::Immediate64(callee)),
        );
        self.call_rax();
        self.add(
            Operand::Register(Register::RSP, false),
            Operand::Immediate(Immediate::Immediate8(32)),
        );
        assert(self@ =~= old(self)@ + call_bytes(callee));
    }

    /// Appends `call rax`.
    pub fn call_rax(&mut self)
        ensures
            final(self)@ == old(self)@ + call_rax_bytes(),
    {
        self.emit8(0xff);
        self.emit_modrm_slash(2, &Operand::Register(Register::RAX, false));
        assert(self@ =~= old(self)@ + call_rax_bytes());
    }

    fn shift(&mut self, slash: u8, dst: &Operand, count: &Operand)
        requires
            shift_ok(*dst, *count),
        ensures
            final(self)@ == old(self)@ + shift_bytes(slash, *dst, *count),
    {
        self.emit_rex_for_slash(dst, RexW::Yes);
        self.emit8(0xc1);
        self.emit_modrm_slash(slash, dst);
        self.emit8(low_byte_of(count.offset_or_immediate()));
        assert(self@ =~= old(self)@ + shift_bytes(slash, *dst, *count));
    }

    /// Appends `shr dst, count`: a logical shift to the right by a constant.
    pub fn shr(&mut self, dst: &Operand, count: &Operand)
        requires
            shift_ok(*dst, *count),
        ensures
            final(self)@ == old(self)@ + shift_bytes(5, *dst, *count),
    {
        self.shift(5, dst, count);
    }

    /// Appends `shl dst, count`: a shift to the left by a constant.
    pub fn shl(&mut self, dst: &Operand, count: &Operand)
        requires
            shift_ok(*dst, *count),
        ensures
            final(self)@ == old(self)@ + shift_bytes(4, *dst, *count),
    {
        self.shift(4, dst, count);
    }
}

/// The difference `target - slot_end`, cut to 32 bits in two's complement.
fn displacement_of(target: usize, slot_end: usize) -> (d: u32)
    ensures
        d == displacement(target as int, slot_end as int),
{
    let t: u64 = target as u64;
    let s: u64 = slot_end as u64;
    if t >= s {
        ((t - s) % 0x1_0000_0000) as u32
    } else {
        let m: u64 = (s - t) % 0x1_0000_0000;
        if m == 0 {
            0
        } else {
            (0x1_0000_0000 - m) as u32
        }
    }
}

/// Writes the displacement to `target` into the four bytes before `slot_end`.
fn link_jump(assembler: &mut Assembler, slot_end: usize, target: usize)
    requires
        4 <= slot_end <= old(assembler)@.len(),
    ensures
        final(assembler)@ == linked_slot(old(assembler)@, slot_end as int, target as int),
        final(assembler)@.len() == old(assembler)@.len(),
{
    let d: u32 = displacement_of(target, slot_end);
    let at: usize = slot_end - 4;
    proof {
        reveal(patched_u32);
    }
    assembler.machine_code[at] = #[verifier::truncate] (d as u8);
    assembler.machine_code[at + 1] = #[verifier::truncate] ((d >> 8) as u8);
    assembler.machine_code[at + 2] = #[verifier::truncate] ((d >> 16) as u8);
    assembler.machine_code[at + 3] = #[verifier::truncate] ((d >> 24) as u8);
}

/// Encoding idempotence: every encoder appends to the buffer bytes that its
/// operands alone decide, so what it adds to any two buffers is the same, and
/// on a fresh buffer the result is those bytes.
pub proof fn lemma_encoding_idempotent(first: Seq<u8>, second: Seq<u8>, bytes: Seq<u8>)
    ensures
        (first + bytes).skip(first.len() as int) == (second + bytes).skip(second.len() as int),
        (first + bytes).skip(first.len() as int) == bytes,
        Seq::<u8>::empty() + bytes == bytes,
{
    assert((first + bytes).skip(first.len() as int) =~= bytes);
    assert((second + bytes).skip(second.len() as int) =~= bytes);
    assert(Seq::<u8>::empty() + bytes =~= bytes);
}

/// REX economy: where W is not asked for and no register index is 8 or more,
/// no prefix is emitted. Where one is emitted, it is `0100WR0B` with a bit that
/// is set.
pub proof fn lemma_rex_economy(b: u8, r: u8, w: RexW)
    requires
        b < 16,
        r < 16,
    ensures
        w == RexW::No && b < 8 && r < 8 ==> rex_bytes(b, r, w) == Seq::<u8>::empty(),
        !(w == RexW::No && b < 8 && r < 8) ==> {
            &&& rex_bytes(b, r, w).len() == 1
            &&& rex_bytes(b, r, w)[0] == 0x40 + 8 * w.number() + 4 * rex_bit(r) + rex_bit(b)
            &&& 0x40 < rex_bytes(b, r, w)[0] <= 0x4f
        },
{
    lemma_rex_flags(rex_bit(b), 0, rex_bit(r), w.number());
}

/// REX economy of operands: each of the three forms of the prefix is empty
/// where W is not asked for and every register index is below 8, and is else
/// the one byte 0x40 + 8W + 4R + B. B extends the rm operand, a register or
/// the base of a memory operand, and R the register in the reg field; R is 0
/// where that field holds an opcode extension.
pub proof fn lemma_rex_economy_of_operands(dst: Operand, src: Operand, w: RexW)
    requires
        dst.is_reg_or_mem(),
        src.is_reg_or_mem(),
    ensures
        rex_for_slash(dst, w) == (if w == RexW::No && dst.index() < 8 {
            Seq::<u8>::empty()
        } else {
            seq![(0x40 + 8 * w.number() + rex_bit(dst.index())) as u8]
        }),
        rex_for_mr(dst, src, w) == (if w == RexW::No && dst.index() < 8 && src.index() < 8 {
            Seq::<u8>::empty()
        } else {
            seq![(0x40 + 8 * w.number() + 4 * rex_bit(src.index()) + rex_bit(dst.index())) as u8]
        }),
        rex_for_rm(dst, src, w) == (if w == RexW::No && dst.index() < 8 && src.index() < 8 {
            Seq::<u8>::empty()
        } else {
            seq![(0x40 + 8 * w.number() + 4 * rex_bit(dst.index()) + rex_bit(src.index())) as u8]
        }),
{
    lemma_rex_flags(rex_bit(dst.index()), 0, 0, w.number());
    lemma_rex_flags(rex_bit(dst.index()), 0, rex_bit(src.index()), w.number());
    lemma_rex_flags(rex_bit(src.index()), 0, rex_bit(dst.index()), w.number());
}

/// REX economy of the instructions that ask for no W: with low registers they
/// start with their opcode, or with their mandatory prefix and their opcode.
pub proof fn lemma_rex_economy_of_instructions(
    register: Register,
    flag: bool,
    value: u64,
    condition: Condition,
    slash: u8,
)
    requires
        register.index() < 8,
    ensures
        push_bytes(Operand::Register(register, flag)) == seq![(0x50 + register.index()) as u8],
        pop_bytes(Operand::Register(register, flag)) == seq![(0x58 + register.index()) as u8],
        group5_bytes(slash, Operand::Register(register, flag))[0] == 0xff,
        set_if_bytes(condition, Operand::Register(register, flag))[0] == 0x0f,
        0 < value <= 0xffff_ffff ==> mov_bytes(
            Operand::Register(register, flag),
            Operand::Immediate(Immediate::Immediate64(value)),
        )[0] == 0xb8 + register.index(),
        mov_bytes(
            Operand::Register(register, flag),
            Operand::Immediate(Immediate::Immediate64(0)),
        )[0] == 0x31,
        add_bytes(Operand::Register(register, true), Operand::Register(register, true)).take(3)
            == seq![0xf2u8, 0x0fu8, 0x58u8],
        sub_bytes(Operand::Register(register, true), Operand::Register(register, true)).take(3)
            == seq![0xf2u8, 0x0fu8, 0x5cu8],
        compare_bytes(Operand::Register(register, true), Operand::Register(register, true)).take(
            3,
        ) == seq![0x66u8, 0x0fu8, 0x2eu8],
{
    let op = Operand::Register(register, flag);
    let simd = Operand::Register(register, true);
    assert(rex_for_slash(op, RexW::No) == Seq::<u8>::empty());
    assert(rex_for_mr(op, op, RexW::No) == Seq::<u8>::empty());
    assert(rex_for_rm(simd, simd, RexW::No) == Seq::<u8>::empty());
    assert(add_bytes(simd, simd).take(3) =~= seq![0xf2u8, 0x0fu8, 0x58u8]);
    assert(sub_bytes(simd, simd).take(3) =~= seq![0xf2u8, 0x0fu8, 0x5cu8]);
    assert(compare_bytes(simd, simd).take(3) =~= seq![0x66u8, 0x0fu8, 0x2eu8]);
    assert(push_bytes(op) =~= seq![(0x50 + register.index()) as u8]);
    assert(pop_bytes(op) =~= seq![(0x58 + register.index()) as u8]);
}

/// Displacement minimality: a memory operand is encoded without displacement
/// bytes where its displacement is zero and its base is neither RBP nor R13
/// (nor another register whose low index bits are 101), with one signed byte
/// where the displacement fits in one, and with four bytes, least significant
/// first, otherwise. The ModR/M byte is 64 times the mode, plus 8 times the low
/// three bits of the reg field, plus the low three bits of the rm field. These
/// are the bytes that are emitted for a ModR/M byte built with the two fields
/// and any mode, once its mode is set to that of the operand.
pub proof fn lemma_displacement_minimal(
    rm_field: u8,
    reg_field: u8,
    held: u8,
    base: Register,
    disp: u64,
)
    ensures
        seq![
            with_mode(
                modrm_byte(rm_field, reg_field, held),
                modrm_mode(Operand::Memory(base, disp)).number(),
            ),
        ] + displacement_bytes(Operand::Memory(base, disp)) == modrm_bytes(
            rm_field,
            reg_field,
            Operand::Memory(base, disp),
        ),
        ({
            let bytes = modrm_bytes(rm_field, reg_field, Operand::Memory(base, disp));
            let fields = 8 * (reg_field % 8) + rm_field % 8;
            if disp == 0 && base.index() % 8 != 5 {
                bytes == seq![fields as u8]
            } else if fits_i8(disp) {
                bytes == seq![(0x40 + fields) as u8, low_byte(disp)]
            } else {
                bytes == seq![(0x80 + fields) as u8] + le_u32(low_dword(disp))
            }
        }),
        base.index() % 8 == 5 <==> (base == Register::RBP || base == Register::R13 || base
            == Register::XMM5 || base == Register::XMM13),
{
    let rm = Operand::Memory(base, disp);
    let bytes = modrm_bytes(rm_field, reg_field, rm);
    lemma_modrm_fields(rm_field, reg_field, modrm_mode(rm).number());
    lemma_mode_replaced(rm_field, reg_field, held, modrm_mode(rm).number());
    if !(disp == 0 && base.index() % 8 != 5) && !fits_i8(disp) {
        assert(bytes.subrange(1, 5) =~= le_u32(low_dword(disp)));
    }
}

/// Filling the slot of a jump that stands between `before` and `after`
/// replaces its four bytes and nothing else.
pub proof fn lemma_slot_filled(before: Seq<u8>, held: u32, after: Seq<u8>, target: int)
    ensures
        linked_slot(before + le_u32(held) + after, before.len() + 4 as int, target) == before
            + le_u32(displacement(target, before.len() + 4 as int)) + after,
{
    let code = before + le_u32(held) + after;
    let d = displacement(target, before.len() + 4 as int);
    reveal(patched_u32);
    lemma_patched_u32(code, before.len() as int, d);
    assert(linked_slot(code, before.len() + 4 as int, target) =~= before + le_u32(d) + after);
}

/// Linking keeps the length of the buffer.
pub proof fn lemma_linked_slots_len(code: Seq<u8>, slots: Seq<usize>, target: int)
    requires
        slots_inside(slots, code.len()),
    ensures
        linked_slots(code, slots, target).len() == code.len(),
    decreases slots.len(),
{
    if slots.len() > 0 {
        assert(slots_inside(slots.drop_last(), code.len())) by {
            assert forall|i: int| 0 <= i < slots.drop_last().len() implies 4
                <= #[trigger] slots.drop_last()[i] <= code.len() by {
                assert(slots.drop_last()[i] == slots[i]);
            }
        }
        lemma_linked_slots_len(code, slots.drop_last(), target);
        lemma_patched_u32(
            linked_slots(code, slots.drop_last(), target),
            slots.last() as int - 4,
            displacement(target, slots.last() as int),
        );
    }
}

/// Linking changes no byte outside the slots.
pub proof fn lemma_linked_slots_elsewhere(code: Seq<u8>, slots: Seq<usize>, target: int, at: int)
    requires
        slots_inside(slots, code.len()),
        0 <= at < code.len(),
        forall|i: int| 0 <= i < slots.len() ==> !(#[trigger] slots[i] - 4 <= at < slots[i]),
    ensures
        linked_slots(code, slots, target)[at] == code[at],
    decreases slots.len(),
{
    if slots.len() > 0 {
        let init = slots.drop_last();
        assert forall|i: int| 0 <= i < init.len() implies 4 <= #[trigger] init[i] <= code.len()
            && !(init[i] - 4 <= at < init[i]) by {
            assert(init[i] == slots[i]);
        }
        lemma_linked_slots_len(code, init, target);
        lemma_linked_slots_elsewhere(code, init, target, at);
        let before = linked_slots(code, init, target);
        lemma_patched_u32(
            before,
            slots.last() as int - 4,
            displacement(target, slots.last() as int),
        );
    }
}

/// Label patch correctness: once a label whose slots lie in the buffer and
/// share no byte is bound to `target`, the four bytes of every slot hold the
/// little-endian displacement from the slot's end to `target`.
pub proof fn lemma_linked_slots_hold_displacement(
    code: Seq<u8>,
    slots: Seq<usize>,
    target: int,
    k: int,
)
    requires
        slots_inside(slots, code.len()),
        slots_apart(slots),
        0 <= k < slots.len(),
    ensures
        linked_slots(code, slots, target).subrange(slots[k] - 4, slots[k] as int) == le_u32(
            displacement(target, slots[k] as int),
        ),
    decreases slots.len(),
{
    let init = slots.drop_last();
    let last = slots.last();
    assert forall|i: int| 0 <= i < init.len() implies 4 <= #[trigger] init[i] <= code.len() by {
        assert(init[i] == slots[i]);
    }
    lemma_linked_slots_len(code, init, target);
    let before = linked_slots(code, init, target);
    let after = linked_slots(code, slots, target);
    lemma_patched_u32(before, last as int - 4, displacement(target, last as int));
    if k == slots.len() - 1 {
    } else {
        assert forall|i: int, j: int| 0 <= i < j < init.len() implies (#[trigger] init[i] + 4
            <= #[trigger] init[j] || init[j] + 4 <= init[i]) by {
            assert(init[i] == slots[i]);
            assert(init[j] == slots[j]);
        }
        lemma_linked_slots_hold_displacement(code, init, target, k);
        assert(init[k] == slots[k]);
        assert(slots[k] + 4 <= slots[slots.len() - 1] || slots[slots.len() - 1] + 4 <= slots[k]);
        assert(after.subrange(slots[k] - 4, slots[k] as int) =~= before.subrange(
            slots[k] - 4,
            slots[k] as int,
        ));
    }
}

} // verus!
