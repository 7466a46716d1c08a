//! The instruction buffer between bytecode and machine code: pseudo-instructions
//! tagged with the bytecode offset they come from, the peephole optimizer that
//! rewrites them, and the two passes that encode them and resolve their jumps.

use vstd::prelude::*;
use crate::assembler::{
    add_bytes, call_bytes, compare_bytes, compare_ok, displacement, enter_bytes, exit_bytes,
    jump_bytes, jump_if_bytes, jump_if_to_bytes, jump_to_bytes, lemma_slot_filled, linked_slot,
    lemma_linked_slots_len, linked_slots, mov_bytes, mov_ok, pop_bytes, push_bytes, push_ok,
    shift_bytes, Assembler, Label,
};
use crate::bytes::le_u32;
use crate::operand::{Condition, Immediate, Operand, Register};

verus! {

/// A pseudo-instruction.
#[derive(Debug, Clone, Copy, PartialEq, Eq, Structural)]
pub enum InstructionEnum {
    Mov(Operand, Operand),
    Push(Operand),
    Pop(Operand),
    /// A jump to the instruction that comes from the given bytecode offset.
    JumpBytecode(u32),
    /// A comparison and a jump, where the condition holds, to the instruction
    /// that comes from the given bytecode offset.
    JumpBytecodeIfCmp(Operand, Condition, Operand, u32),
    /// The function epilogue.
    Exit,
    /// A call of the function at the given address.
    Call(u64),
    Shr(Register, u8),
    /// An addition of two packed integers in R8 and RDX, whose tags are in RBX
    /// and RAX, that falls back to the helper at the second address, called
    /// with the first address as its first argument, where a tag is not that
    /// of an integer.
    IntFastSlowPathBinary(u64, u64),
}

/// A pseudo-instruction in the buffer.
#[derive(Debug, Clone)]
pub struct Instruction {
    /// The offset of the bytecode instruction that this one comes from.
    pub bytecode_offset: u32,
    /// The offset of its first byte in the machine code, once it is encoded.
    pub offset: usize,
    pub ins: InstructionEnum,
    /// The label of its jump, once it is encoded.
    pub label: Label,
}

/// What an instruction of the buffer holds.
pub struct InstructionView {
    pub bytecode_offset: u32,
    pub offset: usize,
    pub ins: InstructionEnum,
    pub target: Option<usize>,
    pub slots: Seq<usize>,
}

impl View for Instruction {
    type V = InstructionView;

    open spec fn view(&self) -> InstructionView {
        InstructionView {
            bytecode_offset: self.bytecode_offset,
            offset: self.offset,
            ins: self.ins,
            target: self.label.target(),
            slots: self.label.slots(),
        }
    }
}

/// An instruction that is not encoded yet.
pub open spec fn fresh(bytecode_offset: u32, ins: InstructionEnum) -> InstructionView {
    InstructionView { bytecode_offset, offset: 0, ins, target: None, slots: Seq::empty() }
}

/// What the instructions of a buffer hold, in order.
pub open spec fn views(instructions: Seq<Instruction>) -> Seq<InstructionView> {
    instructions.map_values(|i: Instruction| i@)
}

impl Instruction {
    pub fn new(bytecode_offset: u32, ins: InstructionEnum) -> (i: Self)
        ensures
            i@ == fresh(bytecode_offset, ins),
    {
        Self { bytecode_offset, offset: 0, ins, label: Label::new() }
    }

    /// An instruction that holds the same.
    pub fn duplicate(&self) -> (i: Self)
        ensures
            i@ == self@,
    {
        Self {
            bytecode_offset: self.bytecode_offset,
            offset: self.offset,
            ins: self.ins,
            label: self.label.duplicate(),
        }
    }
}

/// The bytecode offset that an instruction jumps to, if it is a jump.
pub open spec fn jump_target(ins: InstructionEnum) -> Option<u32> {
    match ins {
        InstructionEnum::JumpBytecode(t) => Some(t),
        InstructionEnum::JumpBytecodeIfCmp(_, _, _, t) => Some(t),
        _ => None,
    }
}

/// Whether some jump of the buffer goes to `bytecode_offset`.
pub open spec fn is_target(buf: Seq<InstructionView>, bytecode_offset: u32) -> bool {
    exists|j: int| 0 <= j < buf.len() && jump_target(#[trigger] buf[j].ins) == Some(bytecode_offset)
}

/// Whether the three instructions from `i` are `Mov(r, s); Push(r); Pop(d)`
/// with `r` a register that is not the base of `s`, and none of them comes
/// from a bytecode offset that a jump goes to.
pub open spec fn collapses(buf: Seq<InstructionView>, i: int) -> bool {
    &&& 0 <= i
    &&& i + 2 < buf.len()
    &&& buf[i].ins is Mov
    &&& buf[i + 1].ins is Push
    &&& buf[i + 2].ins is Pop
    &&& buf[i].ins->Mov_0 == buf[i + 1].ins->Push_0
    &&& buf[i].ins->Mov_0 is Register
    &&& !(buf[i].ins->Mov_1 is Memory && buf[i].ins->Mov_1->Memory_0 == buf[i].ins->Mov_0->Register_0)
    &&& !is_target(buf, buf[i].bytecode_offset)
    &&& !is_target(buf, buf[i + 1].bytecode_offset)
    &&& !is_target(buf, buf[i + 2].bytecode_offset)
}

/// The instruction `Mov(d, s)` that stands for a window that collapses. It
/// comes from the bytecode offset of the window's last instruction.
pub open spec fn collapsed(buf: Seq<InstructionView>, i: int) -> InstructionView {
    fresh(
        buf[i + 2].bytecode_offset,
        InstructionEnum::Mov(buf[i + 2].ins->Pop_0, buf[i].ins->Mov_1),
    )
}

/// Whether the two instructions from `i` are `Push(r); Pop(r)`, and neither
/// comes from a bytecode offset that a jump goes to.
pub open spec fn elides(buf: Seq<InstructionView>, i: int) -> bool {
    &&& 0 <= i
    &&& i + 1 < buf.len()
    &&& buf[i].ins is Push
    &&& buf[i + 1].ins is Pop
    &&& buf[i].ins->Push_0 == buf[i + 1].ins->Pop_0
    &&& !is_target(buf, buf[i].bytecode_offset)
    &&& !is_target(buf, buf[i + 1].bytecode_offset)
}

/// What one forward scan of the peephole optimizer makes of the instructions
/// from `i` on.
pub open spec fn optimized_from(buf: Seq<InstructionView>, i: int) -> Seq<InstructionView>
    decreases buf.len() - i,
{
    if i < 0 || i >= buf.len() {
        Seq::empty()
    } else if collapses(buf, i) {
        seq![collapsed(buf, i)] + optimized_from(buf, i + 3)
    } else if elides(buf, i) {
        optimized_from(buf, i + 2)
    } else {
        seq![buf[i]] + optimized_from(buf, i + 1)
    }
}

/// What the peephole optimizer makes of a buffer.
pub open spec fn optimized(buf: Seq<InstructionView>) -> Seq<InstructionView> {
    optimized_from(buf, 0)
}

/// Whether the encoder accepts the operands of an instruction.
pub open spec fn encodable(ins: InstructionEnum) -> bool {
    match ins {
        InstructionEnum::Mov(dst, src) => mov_ok(dst, src),
        InstructionEnum::Push(op) => push_ok(op),
        InstructionEnum::Pop(op) => op is Register,
        InstructionEnum::JumpBytecodeIfCmp(lhs, _, rhs, _) => compare_ok(lhs, rhs),
        _ => true,
    }
}

/// The first index from `from` on whose instruction comes from
/// `bytecode_offset`, or the length of the buffer if there is none.
pub open spec fn first_at(buf: Seq<InstructionView>, bytecode_offset: u32, from: int) -> int
    decreases buf.len() - from,
{
    if from < 0 || from >= buf.len() {
        buf.len() as int
    } else if buf[from].bytecode_offset == bytecode_offset {
        from
    } else {
        first_at(buf, bytecode_offset, from + 1)
    }
}

/// Whether some instruction of the buffer comes from `bytecode_offset`.
pub open spec fn lands(buf: Seq<InstructionView>, bytecode_offset: u32) -> bool {
    first_at(buf, bytecode_offset, 0) < buf.len()
}

/// Whether the buffer can be compiled: the encoder accepts every instruction,
/// and every jump goes to a bytecode offset that some instruction comes from.
pub open spec fn compilable(buf: Seq<InstructionView>) -> bool {
    &&& forall|i: int| 0 <= i < buf.len() ==> encodable(#[trigger] buf[i].ins)
    &&& forall|i: int|
        0 <= i < buf.len() ==> match jump_target(#[trigger] buf[i].ins) {
            Some(t) => lands(buf, t),
            None => true,
        }
}

/// The register that carries the integer argument at `position` of a call.
pub open spec fn argument_register(position: int) -> Register {
    if position == 0 {
        Register::RCX
    } else if position == 1 {
        Register::RDX
    } else if position == 2 {
        Register::R8
    } else {
        Register::R9
    }
}

/// The moves that put the arguments of a call into their registers.
pub open spec fn argument_moves(bytecode_offset: u32, args: Seq<Operand>) -> Seq<InstructionView> {
    Seq::new(
        args.len(),
        |i: int|
            fresh(
                bytecode_offset,
                InstructionEnum::Mov(Operand::Register(argument_register(i), false), args[i]),
            ),
    )
}

/// The instructions of an addition with a fast path for two integers: the
/// operands are popped into R8 and RDX and their tags are put into RBX and
/// RAX.
pub open spec fn binary_add_sequence(bytecode_offset: u32, vm: u64, op: u64) -> Seq<
    InstructionView,
> {
    seq![
        fresh(bytecode_offset, InstructionEnum::Pop(Operand::Register(Register::R8, false))),
        fresh(bytecode_offset, InstructionEnum::Pop(Operand::Register(Register::RDX, false))),
        fresh(
            bytecode_offset,
            InstructionEnum::Mov(
                Operand::Register(Register::RAX, false),
                Operand::Register(Register::RDX, false),
            ),
        ),
        fresh(bytecode_offset, InstructionEnum::Shr(Register::RAX, 48)),
        fresh(
            bytecode_offset,
            InstructionEnum::Mov(
                Operand::Register(Register::RBX, false),
                Operand::Register(Register::R8, false),
            ),
        ),
        fresh(bytecode_offset, InstructionEnum::Shr(Register::RBX, 48)),
        fresh(bytecode_offset, InstructionEnum::IntFastSlowPathBinary(vm, op)),
    ]
}

/// The packed integer tag as the immediate that a tag is compared with.
pub open spec fn int_tag() -> Operand {
    Operand::Immediate(Immediate::Immediate64(0))
}

/// The bytes of the fast path of an integer addition: R8 is added to, moved to
/// RAX and cut to a payload, which makes it a packed integer again.
pub open spec fn fast_path_bytes() -> Seq<u8> {
    add_bytes(Operand::Register(Register::R8, false), Operand::Register(Register::RDX, false))
        + mov_bytes(
        Operand::Register(Register::RAX, false),
        Operand::Register(Register::R8, false),
    ) + shift_bytes(
        4,
        Operand::Register(Register::RAX, false),
        Operand::Immediate(Immediate::Immediate8(16)),
    ) + shift_bytes(
        5,
        Operand::Register(Register::RAX, false),
        Operand::Immediate(Immediate::Immediate8(16)),
    )
}

/// The bytes of the slow path of a binary operation: the helper is called
/// with `vm` in RCX and the operands where they are, in RDX and R8.
pub open spec fn slow_path_bytes(vm: u64, helper: u64) -> Seq<u8> {
    mov_bytes(
        Operand::Register(Register::RCX, false),
        Operand::Immediate(Immediate::Immediate64(vm)),
    ) + call_bytes(helper)
}

/// The bytes that test the tag in `register` and jump over `skip` bytes where
/// it is not that of an integer.
pub open spec fn tag_check_bytes(register: Register, skip: nat) -> Seq<u8> {
    compare_bytes(Operand::Register(register, false), int_tag()) + jump_if_to_bytes(
        Condition::NotEqualTo,
        displacement(skip as int, 0),
    )
}

/// The bytes of an integer addition with a fast and a slow path: both tags are
/// tested; where both are integers the fast path runs and jumps over the slow
/// path, else the slow path runs.
pub open spec fn fast_slow_bytes(vm: u64, helper: u64) -> Seq<u8> {
    tag_check_bytes(
        Register::RAX,
        tag_check_bytes(Register::RBX, 0).len() + fast_path_bytes().len() + 5,
    ) + tag_check_bytes(Register::RBX, fast_path_bytes().len() + 5) + fast_path_bytes()
        + jump_to_bytes(displacement(slow_path_bytes(vm, helper).len() as int, 0))
        + slow_path_bytes(vm, helper)
}

/// The bytes of an instruction that is no jump to bytecode.
#[verifier::opaque]
pub open spec fn straight_bytes(ins: InstructionEnum) -> Seq<u8> {
    match ins {
        InstructionEnum::Mov(dst, src) => mov_bytes(dst, src),
        InstructionEnum::Push(op) => push_bytes(op),
        InstructionEnum::Pop(op) => pop_bytes(op),
        InstructionEnum::Exit => exit_bytes(),
        InstructionEnum::Call(callee) => call_bytes(callee),
        InstructionEnum::Shr(register, amount) => shift_bytes(
            5,
            Operand::Register(register, false),
            Operand::Immediate(Immediate::Immediate8(amount)),
        ),
        InstructionEnum::IntFastSlowPathBinary(vm, helper) => fast_slow_bytes(vm, helper),
        _ => Seq::empty(),
    }
}

/// The bytes of an instruction as the first pass encodes it: a jump to
/// bytecode carries a placeholder.
pub open spec fn instruction_bytes(ins: InstructionEnum) -> Seq<u8> {
    match ins {
        InstructionEnum::JumpBytecode(_) => jump_bytes(),
        InstructionEnum::JumpBytecodeIfCmp(lhs, condition, rhs, _) => compare_bytes(lhs, rhs)
            + jump_if_bytes(condition),
        other => straight_bytes(other),
    }
}

/// Appends the test of the tag in `register`, with a jump to `slow_path` where
/// it is not that of an integer.
fn emit_tag_check(assembler: &mut Assembler, register: Register, slow_path: &mut Label)
    requires
        old(slow_path).target() is None,
    ensures
        final(assembler)@ == old(assembler)@ + compare_bytes(
            Operand::Register(register, false),
            int_tag(),
        ) + jump_if_bytes(Condition::NotEqualTo),
        final(slow_path).target() is None,
        final(slow_path).slots() == old(slow_path).slots().push(
            final(assembler).machine_code.len(),
        ),
{
    assembler.jump_if_cmp(
        &Operand::Register(register, false),
        Condition::NotEqualTo,
        &Operand::Immediate(Immediate::Immediate64(0)),
        slow_path,
    );
}

/// Appends a comparison and a conditional jump, and returns the label that the
/// jump waits for.
fn emit_compare_jump(
    assembler: &mut Assembler,
    lhs: &Operand,
    condition: Condition,
    rhs: &Operand,
) -> (label: Label)
    requires
        compare_ok(*lhs, *rhs),
    ensures
        final(assembler)@ == old(assembler)@ + compare_bytes(*lhs, *rhs) + jump_if_bytes(condition),
        label.target() is None,
        label.slots() == seq![final(assembler).machine_code.len()],
{
    let mut label = Label::new();
    assembler.jump_if_cmp(lhs, condition, rhs, &mut label);
    assert(label.slots() =~= seq![assembler.machine_code.len()]);
    label
}

/// Appends an integer addition with its fast and its slow path.
#[verifier::rlimit(40)]
fn emit_fast_slow(assembler: &mut Assembler, vm: u64, helper: u64)
    ensures
        final(assembler)@ == old(assembler)@ + fast_slow_bytes(vm, helper),
{
    let mut end = Label::new();
    let mut slow_path = Label::new();
    let ghost start = assembler@;
    let ghost check_a = compare_bytes(Operand::Register(Register::RAX, false), int_tag());
    let ghost check_b = compare_bytes(Operand::Register(Register::RBX, false), int_tag());
    let ghost jcc = seq![0x0fu8, (0x80 + Condition::NotEqualTo.nibble()) as u8];
    let ghost fast = fast_path_bytes();
    let ghost slow = slow_path_bytes(vm, helper);
    let ghost held = crate::assembler::PLACEHOLDER;

    emit_tag_check(assembler, Register::RAX, &mut slow_path);
    let ghost slot_a = assembler@.len() as int;
    emit_tag_check(assembler, Register::RBX, &mut slow_path);
    let ghost slot_b = assembler@.len() as int;
    assembler.add(Operand::Register(Register::R8, false), Operand::Register(Register::RDX, false));
    assembler.mov(Operand::Register(Register::RAX, false), Operand::Register(Register::R8, false));
    assembler.shl(
        &Operand::Register(Register::RAX, false),
        &Operand::Immediate(Immediate::Immediate8(16)),
    );
    assembler.shr(
        &Operand::Register(Register::RAX, false),
        &Operand::Immediate(Immediate::Immediate8(16)),
    );
    assembler.jump_label(&mut end);
    let ghost slot_end = assembler@.len() as int;
    let ghost unlinked = assembler@;
    assert(slow_path.slots() =~= seq![slot_a as usize, slot_b as usize]);
    assert(end.slots() =~= seq![slot_end as usize]);
    assert(unlinked =~= start + check_a + jcc + le_u32(held) + check_b + jcc + le_u32(held) + fast
        + seq![0xe9u8] + le_u32(held));
    slow_path.link(assembler);
    let ghost linked = assembler@;
    proof {
        let slots = slow_path.slots();
        assert(slots.drop_last() =~= seq![slot_a as usize]);
        assert(slots.drop_last().drop_last() =~= Seq::<usize>::empty());
        let first = linked_slot(unlinked, slot_a, slot_end);
        assert(linked_slots(unlinked, slots.drop_last().drop_last(), slot_end) == unlinked);
        assert(linked_slots(unlinked, slots.drop_last(), slot_end) == first);
        assert(linked == linked_slot(first, slot_b, slot_end));
        let before_a = start + check_a + jcc;
        let after_a = check_b + jcc + le_u32(held) + fast + seq![0xe9u8] + le_u32(held);
        assert(unlinked =~= before_a + le_u32(held) + after_a);
        lemma_slot_filled(before_a, held, after_a, slot_end);
        let d_a = displacement(slot_end, slot_a);
        let before_b = start + check_a + jcc + le_u32(d_a) + check_b + jcc;
        let after_b = fast + seq![0xe9u8] + le_u32(held);
        assert(first =~= before_b + le_u32(held) + after_b);
        lemma_slot_filled(before_b, held, after_b, slot_end);
    }
    assembler.mov(
        Operand::Register(Register::RCX, false),
        Operand::Immediate(Immediate::Immediate64(vm)),
    );
    assembler.call(helper);
    let ghost complete = assembler@;
    end.link(assembler);
    proof {
        let d_a = displacement(slot_end, slot_a);
        let d_b = displacement(slot_end, slot_b);
        let slots = end.slots();
        assert(slots.drop_last() =~= Seq::<usize>::empty());
        assert(linked_slots(complete, slots.drop_last(), complete.len() as int) == complete);
        let before_end = start + check_a + jcc + le_u32(d_a) + check_b + jcc + le_u32(d_b) + fast
            + seq![0xe9u8];
        assert(complete =~= before_end + le_u32(held) + slow);
        lemma_slot_filled(before_end, held, slow, complete.len() as int);
        assert(assembler@ =~= start + fast_slow_bytes(vm, helper));
    }
}

/// Appends the encoding of one instruction. For a jump to bytecode, whose
/// target is not known yet, the label that its slot waits for is returned.
fn emit_instruction(assembler: &mut Assembler, ins: &InstructionEnum) -> (label: Option<Label>)
    requires
        encodable(*ins),
    ensures
        final(assembler)@ == old(assembler)@ + instruction_bytes(*ins),
        label is Some <==> jump_target(*ins) is Some,
        label matches Some(l) ==> l.target() is None && l.slots() == seq![
            final(assembler).machine_code.len(),
        ],
{
    proof {
        reveal(straight_bytes);
    }
    match ins {
        InstructionEnum::JumpBytecode(_) => Some(assembler.jump()),
        InstructionEnum::JumpBytecodeIfCmp(lhs, condition, rhs, _) => Some(
            emit_compare_jump(assembler, lhs, *condition, rhs),
        ),
        InstructionEnum::Pop(op) => {
            assembler.pop(*op);
            None
        },
        InstructionEnum::Push(op) => {
            assembler.push(*op);
            None
        },
        InstructionEnum::Mov(dst, src) => {
            assembler.mov(*dst, *src);
            None
        },
        InstructionEnum::Exit => {
            assembler.exit();
            None
        },
        InstructionEnum::Call(callee) => {
            assembler.call(*callee);
            None
        },
        InstructionEnum::Shr(register, amount) => {
            assembler.shr(
                &Operand::Register(*register, false),
                &Operand::Immediate(Immediate::Immediate8(*amount)),
            );
            None
        },
        InstructionEnum::IntFastSlowPathBinary(vm, helper) => {
            emit_fast_slow(assembler, *vm, *helper);
            None
        },
    }
}

/// The offset in the machine code at which instruction `i` of the buffer
/// starts, where the first one starts at `start`.
pub open spec fn offset_of(buf: Seq<InstructionView>, i: int, start: int) -> int
    decreases i,
{
    if i <= 0 {
        start
    } else {
        offset_of(buf, i - 1, start) + instruction_bytes(buf[i - 1].ins).len()
    }
}

/// The offset in the machine code of the instruction that a jump to
/// `bytecode_offset` lands on: the first one that comes from it.
pub open spec fn landing_offset(buf: Seq<InstructionView>, bytecode_offset: u32, start: int) -> int {
    offset_of(buf, first_at(buf, bytecode_offset, 0), start)
}

/// The bytes of instruction `i` once its jump is resolved: the displacement
/// leads from the end of the instruction to the landing offset.
pub open spec fn resolved_bytes(buf: Seq<InstructionView>, i: int, start: int) -> Seq<u8> {
    match buf[i].ins {
        InstructionEnum::JumpBytecode(t) => jump_to_bytes(
            displacement(landing_offset(buf, t, start), offset_of(buf, i + 1, start)),
        ),
        InstructionEnum::JumpBytecodeIfCmp(lhs, condition, rhs, t) => compare_bytes(lhs, rhs)
            + jump_if_to_bytes(
            condition,
            displacement(landing_offset(buf, t, start), offset_of(buf, i + 1, start)),
        ),
        other => instruction_bytes(other),
    }
}

/// The bytes of the first `n` instructions, of which the first `linked` have
/// their jumps resolved.
pub open spec fn body(buf: Seq<InstructionView>, n: int, linked: int, start: int) -> Seq<u8>
    decreases n,
{
    if n <= 0 {
        Seq::empty()
    } else {
        body(buf, n - 1, linked, start) + (if n - 1 < linked {
            resolved_bytes(buf, n - 1, start)
        } else {
            instruction_bytes(buf[n - 1].ins)
        })
    }
}

/// What instruction `i` holds after the first pass: its offset, and for a
/// jump a label that waits with one slot.
pub open spec fn encoded_view(buf: Seq<InstructionView>, i: int, start: int) -> InstructionView {
    InstructionView {
        bytecode_offset: buf[i].bytecode_offset,
        offset: offset_of(buf, i, start) as usize,
        ins: buf[i].ins,
        target: if jump_target(buf[i].ins) is Some {
            None
        } else {
            buf[i].target
        },
        slots: if jump_target(buf[i].ins) is Some {
            seq![offset_of(buf, i + 1, start) as usize]
        } else {
            buf[i].slots
        },
    }
}

/// What instruction `i` holds after the second pass: the label of a jump is
/// bound to the landing offset.
pub open spec fn compiled_view(buf: Seq<InstructionView>, i: int, start: int) -> InstructionView {
    InstructionView {
        target: match jump_target(buf[i].ins) {
            Some(t) => Some(landing_offset(buf, t, start) as usize),
            None => buf[i].target,
        },
        ..encoded_view(buf, i, start)
    }
}

/// What the buffer holds after both passes.
pub open spec fn compiled_buffer(buf: Seq<InstructionView>, start: int) -> Seq<InstructionView> {
    Seq::new(buf.len(), |i: int| compiled_view(buf, i, start))
}

/// The machine code of a buffer whose first byte stands at offset `base`: the
/// prologue, then every instruction in order with its jumps resolved.
pub open spec fn machine_code(buf: Seq<InstructionView>, base: int) -> Seq<u8> {
    enter_bytes() + body(buf, buf.len() as int, buf.len() as int, base + enter_bytes().len())
}

/// The first instruction that comes from a bytecode offset, if there is one,
/// does so, and none before it does.
pub proof fn lemma_first_at(buf: Seq<InstructionView>, bytecode_offset: u32, from: int)
    requires
        0 <= from <= buf.len(),
    ensures
        from <= first_at(buf, bytecode_offset, from) <= buf.len(),
        first_at(buf, bytecode_offset, from) < buf.len() ==> buf[first_at(
            buf,
            bytecode_offset,
            from,
        )].bytecode_offset == bytecode_offset,
        forall|j: int|
            from <= j < first_at(buf, bytecode_offset, from) ==> (#[trigger] buf[j]).bytecode_offset
                != bytecode_offset,
    decreases buf.len() - from,
{
    if from < buf.len() && buf[from].bytecode_offset != bytecode_offset {
        lemma_first_at(buf, bytecode_offset, from + 1);
    }
}

/// Every instruction of the optimized buffer is one of the buffer or stands
/// for a window that collapses.
pub proof fn lemma_optimized_member(buf: Seq<InstructionView>, i: int, k: int)
    requires
        0 <= i,
        0 <= k < optimized_from(buf, i).len(),
    ensures
        (exists|j: int| i <= j < buf.len() && optimized_from(buf, i)[k] == #[trigger] buf[j]) || (
        exists|j: int|
            i <= j && #[trigger] collapses(buf, j) && optimized_from(buf, i)[k] == collapsed(
                buf,
                j,
            )),
    decreases buf.len() - i,
{
    if i >= buf.len() {
    } else if collapses(buf, i) {
        if k > 0 {
            lemma_optimized_member(buf, i + 3, k - 1);
        }
    } else if elides(buf, i) {
        lemma_optimized_member(buf, i + 2, k);
    } else {
        if k > 0 {
            lemma_optimized_member(buf, i + 1, k - 1);
        } else {
            assert(optimized_from(buf, i)[k] == buf[i]);
        }
    }
}

/// An instruction from a bytecode offset that a jump goes to stays in the
/// optimized buffer.
pub proof fn lemma_optimized_keeps(buf: Seq<InstructionView>, i: int, j: int)
    requires
        0 <= i <= j < buf.len(),
        is_target(buf, buf[j].bytecode_offset),
    ensures
        exists|k: int|
            0 <= k < optimized_from(buf, i).len() && #[trigger] optimized_from(buf, i)[k] == buf[j],
    decreases buf.len() - i,
{
    if collapses(buf, i) {
        lemma_optimized_keeps(buf, i + 3, j);
        let k = choose|k: int|
            0 <= k < optimized_from(buf, i + 3).len() && #[trigger] optimized_from(buf, i + 3)[k]
                == buf[j];
        assert(optimized_from(buf, i)[k + 1] == buf[j]);
    } else if elides(buf, i) {
        lemma_optimized_keeps(buf, i + 2, j);
        let k = choose|k: int|
            0 <= k < optimized_from(buf, i + 2).len() && #[trigger] optimized_from(buf, i + 2)[k]
                == buf[j];
        assert(optimized_from(buf, i)[k] == buf[j]);
    } else if j == i {
        assert(optimized_from(buf, i)[0] == buf[j]);
    } else {
        lemma_optimized_keeps(buf, i + 1, j);
        let k = choose|k: int|
            0 <= k < optimized_from(buf, i + 1).len() && #[trigger] optimized_from(buf, i + 1)[k]
                == buf[j];
        assert(optimized_from(buf, i)[k + 1] == buf[j]);
    }
}

/// A buffer that can be compiled can be compiled after it was optimized.
pub proof fn lemma_optimized_compilable(buf: Seq<InstructionView>)
    requires
        compilable(buf),
    ensures
        compilable(optimized(buf)),
{
    let opt = optimized(buf);
    assert forall|k: int| 0 <= k < opt.len() implies encodable(#[trigger] opt[k].ins) && (
    match jump_target(opt[k].ins) {
        Some(t) => lands(opt, t),
        None => true,
    }) by {
        lemma_optimized_member(buf, 0, k);
        if exists|j: int| 0 <= j < buf.len() && opt[k] == #[trigger] buf[j] {
            let j = choose|j: int| 0 <= j < buf.len() && opt[k] == #[trigger] buf[j];
            assert(encodable(buf[j].ins));
            if jump_target(opt[k].ins) is Some {
                let t = jump_target(opt[k].ins)->0;
                assert(lands(buf, t));
                lemma_first_at(buf, t, 0);
                let landing = first_at(buf, t, 0);
                assert(is_target(buf, buf[landing].bytecode_offset));
                lemma_optimized_keeps(buf, 0, landing);
                let at = choose|at: int|
                    0 <= at < optimized_from(buf, 0).len() && #[trigger] optimized_from(buf, 0)[at]
                        == buf[landing];
                lemma_first_at(opt, t, 0);
                if first_at(opt, t, 0) >= opt.len() {
                    assert(opt[at].bytecode_offset != t);
                }
            }
        } else {
            let j = choose|j: int|
                0 <= j && #[trigger] collapses(buf, j) && opt[k] == collapsed(buf, j);
            assert(encodable(buf[j].ins));
            assert(encodable(buf[j + 2].ins));
        }
    }
}

/// The offsets of the instructions do not go down.
pub proof fn lemma_offset_of_monotonic(buf: Seq<InstructionView>, i: int, j: int, start: int)
    requires
        i <= j,
    ensures
        offset_of(buf, i, start) <= offset_of(buf, j, start),
        start <= offset_of(buf, i, start),
    decreases j - i, j,
{
    if i < j {
        lemma_offset_of_monotonic(buf, i, j - 1, start);
    } else if i > 0 {
        lemma_offset_of_monotonic(buf, i - 1, i - 1, start);
    }
}

/// The bytes of the first `n` instructions end where instruction `n` starts,
/// whether their jumps are resolved or not.
pub proof fn lemma_body_len(buf: Seq<InstructionView>, n: int, linked: int, start: int)
    ensures
        start + body(buf, n, linked, start).len() == offset_of(buf, n, start),
    decreases n,
{
    if n > 0 {
        lemma_body_len(buf, n - 1, linked, start);
    }
}

/// The bytes of the first `n` instructions do not depend on whether later
/// jumps are resolved.
pub proof fn lemma_body_same(buf: Seq<InstructionView>, n: int, k: int, start: int)
    requires
        n <= k,
    ensures
        body(buf, n, k, start) == body(buf, n, k + 1, start),
    decreases n,
{
    if n > 0 {
        lemma_body_same(buf, n - 1, k, start);
    }
}

/// Linking the slot of the jump at `k` to its landing offset resolves that
/// jump in the bytes of the first `n` instructions, which follow `prefix`.
#[verifier::rlimit(40)]
pub proof fn lemma_body_linked(
    prefix: Seq<u8>,
    buf: Seq<InstructionView>,
    n: int,
    k: int,
    start: int,
)
    requires
        0 <= k < n,
        start == prefix.len(),
        jump_target(buf[k].ins) is Some,
    ensures
        linked_slot(
            prefix + body(buf, n, k, start),
            offset_of(buf, k + 1, start),
            landing_offset(buf, jump_target(buf[k].ins)->0, start),
        ) == prefix + body(buf, n, k + 1, start),
    decreases n,
{
    let slot = offset_of(buf, k + 1, start);
    let target = landing_offset(buf, jump_target(buf[k].ins)->0, start);
    if n == k + 1 {
        lemma_body_same(buf, k, k, start);
        lemma_body_len(buf, k, k, start);
        let head = prefix + body(buf, k, k, start);
        let opcode = match buf[k].ins {
            InstructionEnum::JumpBytecodeIfCmp(lhs, condition, rhs, _) => compare_bytes(lhs, rhs)
                + seq![0x0fu8, (0x80 + condition.nibble()) as u8],
            _ => seq![0xe9u8],
        };
        let held = crate::assembler::PLACEHOLDER;
        assert(prefix + body(buf, n, k, start) =~= head + opcode + le_u32(held) + Seq::<
            u8,
        >::empty());
        lemma_slot_filled(head + opcode, held, Seq::<u8>::empty(), target);
        assert((head + opcode).len() + 4 == slot);
        assert(prefix + body(buf, n, k + 1, start) =~= head + opcode + le_u32(
            displacement(target, slot),
        ) + Seq::<u8>::empty());
    } else {
        lemma_body_linked(prefix, buf, n - 1, k, start);
        lemma_body_len(buf, n - 1, k, start);
        lemma_offset_of_monotonic(buf, k + 1, n - 1, start);
        lemma_offset_of_monotonic(buf, k, k, start);
        let tail = instruction_bytes(buf[n - 1].ins);
        assert(prefix + body(buf, n, k, start) =~= (prefix + body(buf, n - 1, k, start)) + tail);
        crate::bytes::lemma_patched_u32_prefix(
            prefix + body(buf, n - 1, k, start),
            tail,
            slot - 4,
            displacement(target, slot),
        );
        assert(prefix + body(buf, n, k + 1, start) =~= (prefix + body(buf, n - 1, k + 1, start))
            + tail);
    }
}

/// The bytes of the first `n` instructions stay as they are where the
/// instruction at `k` is no jump.
pub proof fn lemma_body_unlinked(buf: Seq<InstructionView>, n: int, k: int, start: int)
    requires
        0 <= k,
        jump_target(buf[k].ins) is None,
    ensures
        body(buf, n, k, start) == body(buf, n, k + 1, start),
    decreases n,
{
    if n > 0 {
        lemma_body_unlinked(buf, n - 1, k, start);
    }
}

/// The first instruction from a bytecode offset stands at the same index in two
/// buffers whose instructions come from the same bytecode offsets.
pub proof fn lemma_first_at_same(
    a: Seq<InstructionView>,
    b: Seq<InstructionView>,
    bytecode_offset: u32,
    from: int,
)
    requires
        a.len() == b.len(),
        forall|j: int| 0 <= j < a.len() ==> (#[trigger] a[j]).bytecode_offset == b[j].bytecode_offset,
    ensures
        first_at(a, bytecode_offset, from) == first_at(b, bytecode_offset, from),
    decreases a.len() - from,
{
    if 0 <= from < a.len() && a[from].bytecode_offset != bytecode_offset {
        lemma_first_at_same(a, b, bytecode_offset, from + 1);
    }
}

/// Whether instruction `i` of `now` holds what it holds after one of the two
/// passes.
pub open spec fn is_compiled_or_encoded(
    now: Seq<InstructionView>,
    buf: Seq<InstructionView>,
    i: int,
    start: int,
) -> bool {
    now[i] == compiled_view(buf, i, start) || now[i] == encoded_view(buf, i, start)
}

/// The compiler from pseudo-instructions to machine code.
pub struct JitCompiler {
    pub assembler: Assembler,
    pub instructions: Vec<Instruction>,
}

impl JitCompiler {
    /// What the instruction buffer holds.
    pub open spec fn buffer(&self) -> Seq<InstructionView> {
        views(self.instructions@)
    }

    /// A compiler with an empty buffer and no machine code.
    pub fn new() -> (jc: Self)
        ensures
            jc.buffer() == Seq::<InstructionView>::empty(),
            jc.assembler@ == Seq::<u8>::empty(),
    {
        let jc = Self { assembler: Assembler::new(), instructions: Vec::new() };
        assert(jc.buffer() =~= Seq::<InstructionView>::empty());
        jc
    }

    fn append(&mut self, bytecode_offset: u32, ins: InstructionEnum)
        ensures
            final(self).buffer() == old(self).buffer().push(fresh(bytecode_offset, ins)),
            final(self).assembler == old(self).assembler,
    {
        self.instructions.push(Instruction::new(bytecode_offset, ins));
        assert(self.buffer() =~= old(self).buffer().push(fresh(bytecode_offset, ins)));
    }

    /// Appends a jump to the code of the bytecode at `jump_to`.
    pub fn compile_jump_bytecode(&mut self, bytecode_offset: u32, jump_to: u32)
        ensures
            final(self).buffer() == old(self).buffer().push(
                fresh(bytecode_offset, InstructionEnum::JumpBytecode(jump_to)),
            ),
            final(self).assembler == old(self).assembler,
    {
        self.append(bytecode_offset, InstructionEnum::JumpBytecode(jump_to));
    }

    /// Appends a pop into RAX and a jump to the code of the bytecode at
    /// `jump_to` where RAX is zero.
    pub fn compile_pop_jump_if_false_bytecode(&mut self, bytecode_offset: u32, jump_to: u32)
        ensures
            final(self).buffer() == old(self).buffer().push(
                fresh(bytecode_offset, InstructionEnum::Pop(Operand::Register(Register::RAX, false))),
            ).push(
                fresh(
                    bytecode_offset,
                    InstructionEnum::JumpBytecodeIfCmp(
                        Operand::Register(Register::RAX, false),
                        Condition::EqualTo,
                        Operand::Immediate(Immediate::Immediate8(0)),
                        jump_to,
                    ),
                ),
            ),
            final(self).assembler == old(self).assembler,
    {
        self.append(bytecode_offset, InstructionEnum::Pop(Operand::Register(Register::RAX, false)));
        self.append(
            bytecode_offset,
            InstructionEnum::JumpBytecodeIfCmp(
                Operand::Register(Register::RAX, false),
                Condition::EqualTo,
                Operand::Immediate(Immediate::Immediate8(0)),
                jump_to,
            ),
        );
    }

    /// Appends a pop into `register`.
    pub fn compile_pop(&mut self, bytecode_offset: u32, register: Register)
        ensures
            final(self).buffer() == old(self).buffer().push(
                fresh(bytecode_offset, InstructionEnum::Pop(Operand::Register(register, false))),
            ),
            final(self).assembler == old(self).assembler,
    {
        self.append(bytecode_offset, InstructionEnum::Pop(Operand::Register(register, false)));
    }

    /// Appends a push of `op`.
    pub fn compile_push(&mut self, bytecode_offset: u32, op: Operand)
        ensures
            final(self).buffer() == old(self).buffer().push(
                fresh(bytecode_offset, InstructionEnum::Push(op)),
            ),
            final(self).assembler == old(self).assembler,
    {
        self.append(bytecode_offset, InstructionEnum::Push(op));
    }

    /// Appends a push of `immediate`, which goes through RAX.
    pub fn compile_push_immediate(&mut self, bytecode_offset: u32, immediate: Immediate)
        ensures
            final(self).buffer() == old(self).buffer().push(
                fresh(
                    bytecode_offset,
                    InstructionEnum::Mov(
                        Operand::Register(Register::RAX, false),
                        Operand::Immediate(immediate),
                    ),
                ),
            ).push(
                fresh(bytecode_offset, InstructionEnum::Push(Operand::Register(Register::RAX, false))),
            ),
            final(self).assembler == old(self).assembler,
    {
        self.append(
            bytecode_offset,
            InstructionEnum::Mov(
                Operand::Register(Register::RAX, false),
                Operand::Immediate(immediate),
            ),
        );
        self.append(bytecode_offset, InstructionEnum::Push(Operand::Register(Register::RAX, false)));
    }

    /// Appends a pop into RAX and the function epilogue.
    pub fn compile_return(&mut self, bytecode_offset: u32)
        ensures
            final(self).buffer() == old(self).buffer().push(
                fresh(bytecode_offset, InstructionEnum::Pop(Operand::Register(Register::RAX, false))),
            ).push(fresh(bytecode_offset, InstructionEnum::Exit)),
            final(self).assembler == old(self).assembler,
    {
        self.compile_pop(bytecode_offset, Register::RAX);
        self.append(bytecode_offset, InstructionEnum::Exit);
    }

    /// Appends a move of `src` into `dst`.
    pub fn compile_mov(&mut self, bytecode_offset: u32, dst: Operand, src: Operand)
        ensures
            final(self).buffer() == old(self).buffer().push(
                fresh(bytecode_offset, InstructionEnum::Mov(dst, src)),
            ),
            final(self).assembler == old(self).assembler,
    {
        self.append(bytecode_offset, InstructionEnum::Mov(dst, src));
    }

    /// Appends the moves of up to four arguments into RCX, RDX, R8 and R9, and
    /// a call of the function at `callee`.
    pub fn compile_call(&mut self, bytecode_offset: u32, callee: u64, args: Vec<Operand>)
        requires
            args@.len() <= 4,
        ensures
            final(self).buffer() == (old(self).buffer() + argument_moves(
                bytecode_offset,
                args@,
            )).push(fresh(bytecode_offset, InstructionEnum::Call(callee))),
            final(self).assembler == old(self).assembler,
    {
        let mut i: usize = 0;
        while i < args.len()
            invariant
                i <= args@.len() <= 4,
                self.assembler == old(self).assembler,
                self.buffer() == old(self).buffer() + argument_moves(
                    bytecode_offset,
                    args@.subrange(0, i as int),
                ),
            decreases args@.len() - i,
        {
            let register = if i == 0 {
                Register::RCX
            } else if i == 1 {
                Register::RDX
            } else if i == 2 {
                Register::R8
            } else {
                Register::R9
            };
            self.compile_mov(bytecode_offset, Operand::Register(register, false), args[i]);
            i += 1;
            assert(self.buffer() =~= old(self).buffer() + argument_moves(
                bytecode_offset,
                args@.subrange(0, i as int),
            ));
        }
        assert(args@.subrange(0, i as int) =~= args@);
        self.append(bytecode_offset, InstructionEnum::Call(callee));
    }

    /// Appends an addition with a fast path for two integers. `vm` is the
    /// first argument of the helper at `op`, which adds in every other case.
    pub fn compile_binary_add(&mut self, bytecode_offset: u32, vm: u64, op: u64)
        ensures
            final(self).buffer() == old(self).buffer() + binary_add_sequence(bytecode_offset, vm, op),
            final(self).assembler == old(self).assembler,
    {
        self.compile_pop(bytecode_offset, Register::R8);
        self.compile_pop(bytecode_offset, Register::RDX);
        self.compile_mov(
            bytecode_offset,
            Operand::Register(Register::RAX, false),
            Operand::Register(Register::RDX, false),
        );
        self.compile_shr(bytecode_offset, Register::RAX, 48);
        self.compile_mov(
            bytecode_offset,
            Operand::Register(Register::RBX, false),
            Operand::Register(Register::R8, false),
        );
        self.compile_shr(bytecode_offset, Register::RBX, 48);
        self.append(bytecode_offset, InstructionEnum::IntFastSlowPathBinary(vm, op));
        assert(self.buffer() =~= old(self).buffer() + binary_add_sequence(bytecode_offset, vm, op));
    }

    /// Whether some jump of the buffer goes to `bytecode_offset`.
    pub fn is_jump_target(&self, bytecode_offset: u32) -> (b: bool)
        ensures
            b == is_target(self.buffer(), bytecode_offset),
    {
        let mut j: usize = 0;
        while j < self.instructions.len()
            invariant
                j <= self.instructions@.len(),
                forall|k: int|
                    0 <= k < j ==> jump_target(#[trigger] self.buffer()[k].ins) != Some(
                        bytecode_offset,
                    ),
            decreases self.instructions@.len() - j,
        {
            let goes = match self.instructions[j].ins {
                InstructionEnum::JumpBytecode(t) => t == bytecode_offset,
                InstructionEnum::JumpBytecodeIfCmp(_, _, _, t) => t == bytecode_offset,
                _ => false,
            };
            if goes {
                assert(jump_target(self.buffer()[j as int].ins) == Some(bytecode_offset));
                return true;
            }
            j += 1;
        }
        false
    }

    /// The instruction that stands for the window of three from `i`, if that
    /// window collapses.
    pub(crate) fn collapse_at(&self, i: usize) -> (r: Option<Instruction>)
        requires
            i < self.instructions@.len(),
        ensures
            r is Some <==> collapses(self.buffer(), i as int),
            r matches Some(instruction) ==> instruction@ == collapsed(self.buffer(), i as int),
    {
        if self.instructions.len() - i < 3 {
            return None;
        }
        let ghost buf = self.buffer();
        assert(buf[i as int] == self.instructions@[i as int]@);
        assert(buf[i + 1] == self.instructions@[i + 1]@);
        assert(buf[i + 2] == self.instructions@[i + 2]@);
        match (self.instructions[i].ins, self.instructions[i + 1].ins, self.instructions[i + 2].ins) {
            (
                InstructionEnum::Mov(r, s),
                InstructionEnum::Push(pushed),
                InstructionEnum::Pop(d),
            ) => {
                let register = match r {
                    Operand::Register(register, _) => register,
                    _ => {
                        return None;
                    },
                };
                if r != pushed {
                    return None;
                }
                match s {
                    Operand::Memory(base, _) => {
                        if base == register {
                            return None;
                        }
                    },
                    _ => {},
                }
                if self.is_jump_target(self.instructions[i].bytecode_offset)
                    || self.is_jump_target(self.instructions[i + 1].bytecode_offset)
                    || self.is_jump_target(self.instructions[i + 2].bytecode_offset) {
                    return None;
                }
                Some(
                    Instruction::new(
                        self.instructions[i + 2].bytecode_offset,
                        InstructionEnum::Mov(d, s),
                    ),
                )
            },
            _ => None,
        }
    }

    /// Whether the window of two from `i` is a push and a pop that undo each
    /// other.
    pub(crate) fn elides_at(&self, i: usize) -> (b: bool)
        requires
            i < self.instructions@.len(),
        ensures
            b == elides(self.buffer(), i as int),
    {
        if self.instructions.len() - i < 2 {
            return false;
        }
        let ghost buf = self.buffer();
        assert(buf[i as int] == self.instructions@[i as int]@);
        assert(buf[i + 1] == self.instructions@[i + 1]@);
        match (self.instructions[i].ins, self.instructions[i + 1].ins) {
            (InstructionEnum::Push(pushed), InstructionEnum::Pop(popped)) => {
                pushed == popped && !self.is_jump_target(self.instructions[i].bytecode_offset)
                    && !self.is_jump_target(self.instructions[i + 1].bytecode_offset)
            },
            _ => false,
        }
    }

    /// Rewrites the buffer in one forward scan: `Mov(r, s); Push(r); Pop(d)`
    /// becomes `Mov(d, s)`, and `Push(r); Pop(r)` goes away. A window with an
    /// instruction from a bytecode offset that a jump goes to is left as it
    /// is.
    pub fn optimize(&mut self)
        ensures
            final(self).buffer() == optimized(old(self).buffer()),
            final(self).assembler == old(self).assembler,
    {
        let mut new_instructions: Vec<Instruction> = Vec::new();
        let mut i: usize = 0;
        let ghost buf = self.buffer();
        assert(views(new_instructions@) =~= Seq::<InstructionView>::empty());
        while i < self.instructions.len()
            invariant
                *self == *old(self),
                buf == self.buffer(),
                i <= self.instructions@.len(),
                views(new_instructions@) + optimized_from(buf, i as int) == optimized(buf),
            decreases self.instructions@.len() - i,
        {
            let ghost before = views(new_instructions@);
            match self.collapse_at(i) {
                Some(instruction) => {
                    new_instructions.push(instruction);
                    assert(views(new_instructions@) + optimized_from(buf, i + 3) =~= before
                        + optimized_from(buf, i as int));
                    i += 3;
                },
                None => {
                    if self.elides_at(i) {
                        i += 2;
                    } else {
                        new_instructions.push(self.instructions[i].duplicate());
                        assert(buf[i as int] == self.instructions@[i as int]@);
                        assert(views(new_instructions@) + optimized_from(buf, i + 1) =~= before
                            + optimized_from(buf, i as int));
                        i += 1;
                    }
                },
            }
        }
        assert(views(new_instructions@) + optimized_from(buf, i as int) =~= views(
            new_instructions@,
        ));
        self.instructions = new_instructions;
    }

    /// The offset in the machine code of the first instruction that comes from
    /// `bytecode_offset`, if there is one.
    fn offset_at(&self, bytecode_offset: u32) -> (r: Option<usize>)
        ensures
            r is Some <==> lands(self.buffer(), bytecode_offset),
            r matches Some(offset) ==> offset == self.buffer()[first_at(
                self.buffer(),
                bytecode_offset,
                0,
            )].offset,
    {
        let mut j: usize = 0;
        while j < self.instructions.len()
            invariant
                j <= self.instructions@.len(),
                first_at(self.buffer(), bytecode_offset, 0) == first_at(
                    self.buffer(),
                    bytecode_offset,
                    j as int,
                ),
            decreases self.instructions@.len() - j,
        {
            assert(self.buffer()[j as int] == self.instructions@[j as int]@);
            if self.instructions[j].bytecode_offset == bytecode_offset {
                return Some(self.instructions[j].offset);
            }
            j += 1;
        }
        None
    }

    /// Whether the encoder accepts the operands of instruction `i`.
    fn encodable_at(&self, i: usize) -> (b: bool)
        requires
            i < self.instructions@.len(),
        ensures
            b == encodable(self.buffer()[i as int].ins),
    {
        assert(self.buffer()[i as int] == self.instructions@[i as int]@);
        match self.instructions[i].ins {
            InstructionEnum::Mov(dst, src) => {
                match src {
                    Operand::Register(_, false) => dst.is_register_or_memory(),
                    Operand::Immediate(_) => match dst {
                        Operand::Register(_, _) => true,
                        _ => false,
                    },
                    _ => false,
                }
            },
            InstructionEnum::Push(op) => {
                match op {
                    Operand::Register(_, _) => true,
                    Operand::Immediate(_) => op.fits_in_i32(),
                    _ => false,
                }
            },
            InstructionEnum::Pop(op) => {
                match op {
                    Operand::Register(_, _) => true,
                    _ => false,
                }
            },
            InstructionEnum::JumpBytecodeIfCmp(lhs, _, rhs, _) => {
                match rhs {
                    Operand::Register(_, _) => lhs.is_register_or_memory(),
                    Operand::Immediate(_) => lhs.is_register_or_memory() && rhs.fits_in_i32(),
                    _ => false,
                }
            },
            _ => true,
        }
    }

    /// Whether the buffer can be compiled, so that `compile` may be called.
    pub fn can_compile(&self) -> (b: bool)
        ensures
            b == compilable(self.buffer()),
    {
        let mut i: usize = 0;
        while i < self.instructions.len()
            invariant
                i <= self.instructions@.len(),
                forall|j: int| 0 <= j < i ==> encodable(#[trigger] self.buffer()[j].ins),
                forall|j: int|
                    0 <= j < i ==> match jump_target(#[trigger] self.buffer()[j].ins) {
                        Some(t) => lands(self.buffer(), t),
                        None => true,
                    },
            decreases self.instructions@.len() - i,
        {
            assert(self.buffer()[i as int] == self.instructions@[i as int]@);
            if !self.encodable_at(i) {
                return false;
            }
            let resolves = match self.instructions[i].ins {
                InstructionEnum::JumpBytecode(t) => self.offset_at(t).is_some(),
                InstructionEnum::JumpBytecodeIfCmp(_, _, _, t) => self.offset_at(t).is_some(),
                _ => true,
            };
            if !resolves {
                return false;
            }
            i += 1;
        }
        true
    }

    /// Encodes the instructions from `i` on, after the ones before it.
    fn encode_all(&mut self, Ghost(prefix): Ghost<Seq<u8>>, Ghost(opt): Ghost<Seq<InstructionView>>)
        requires
            old(self).buffer() == opt,
            old(self).assembler@ == prefix,
            forall|i: int| 0 <= i < opt.len() ==> encodable(#[trigger] opt[i].ins),
        ensures
            final(self).assembler@ == prefix + body(opt, opt.len() as int, 0, prefix.len() as int),
            final(self).buffer() == Seq::new(
                opt.len(),
                |i: int| encoded_view(opt, i, prefix.len() as int),
            ),
    {
        let ghost start = prefix.len() as int;
        let n = self.instructions.len();
        let mut i: usize = 0;
        assert(self.assembler@ =~= prefix + body(opt, 0, 0, start));
        while i < n
            invariant
                i <= n,
                n == opt.len(),
                self.instructions@.len() == n,
                start == prefix.len(),
                forall|j: int| 0 <= j < opt.len() ==> encodable(#[trigger] opt[j].ins),
                self.assembler@ == prefix + body(opt, i as int, 0, start),
                forall|j: int| 0 <= j < i ==> #[trigger] self.buffer()[j] == encoded_view(opt, j, start),
                forall|j: int| i <= j < n ==> #[trigger] self.buffer()[j] == opt[j],
            decreases n - i,
        {
            let ghost before = self.buffer();
            let ghost code = self.assembler@;
            assert(before[i as int] == self.instructions@[i as int]@);
            proof {
                lemma_body_len(opt, i as int, 0, start);
            }
            self.instructions[i].offset = self.assembler.len();
            let ins = self.instructions[i].ins;
            match emit_instruction(&mut self.assembler, &ins) {
                Some(label) => {
                    self.instructions[i].label = label;
                },
                None => {},
            }
            proof {
                lemma_body_len(opt, i + 1, 0, start);
                assert(self.assembler@ =~= prefix + body(opt, i + 1, 0, start));
                assert(self.buffer()[i as int] == self.instructions@[i as int]@);
                assert(self.buffer()[i as int] == encoded_view(opt, i as int, start));
                assert forall|j: int| 0 <= j < n && j != i implies #[trigger] self.buffer()[j]
                    == before[j] by {
                    assert(self.buffer()[j] == self.instructions@[j]@);
                }
            }
            i += 1;
        }
        assert(self.buffer() =~= Seq::new(opt.len(), |i: int| encoded_view(opt, i, start)));
    }

    /// Binds the label of every jump to the offset of the instruction it
    /// lands on.
    fn link_all(&mut self, Ghost(prefix): Ghost<Seq<u8>>, Ghost(opt): Ghost<Seq<InstructionView>>)
        requires
            compilable(opt),
            old(self).assembler@ == prefix + body(opt, opt.len() as int, 0, prefix.len() as int),
            old(self).buffer() == Seq::new(
                opt.len(),
                |i: int| encoded_view(opt, i, prefix.len() as int),
            ),
        ensures
            final(self).assembler@ == prefix + body(
                opt,
                opt.len() as int,
                opt.len() as int,
                prefix.len() as int,
            ),
            final(self).buffer() == compiled_buffer(opt, prefix.len() as int),
    {
        let ghost start = prefix.len() as int;
        let n = self.instructions.len();
        let mut k: usize = 0;
        let total = self.assembler.len();
        assert(self.buffer().len() == opt.len());
        while k < n
            invariant
                k <= n,
                n == opt.len(),
                self.assembler@.len() == total,
                self.instructions@.len() == n,
                start == prefix.len(),
                compilable(opt),
                self.assembler@ == prefix + body(opt, n as int, k as int, start),
                forall|j: int|
                    0 <= j < n ==> is_compiled_or_encoded(#[trigger] self.buffer(), opt, j, start),
                forall|j: int| 0 <= j < k ==> #[trigger] self.buffer()[j] == compiled_view(opt, j, start),
                forall|j: int| k <= j < n ==> #[trigger] self.buffer()[j] == encoded_view(opt, j, start),
            decreases n - k,
        {
            let ghost before = self.buffer();
            assert(before[k as int] == self.instructions@[k as int]@);
            assert(before[k as int] == encoded_view(opt, k as int, start));
            let jump_to = match self.instructions[k].ins {
                InstructionEnum::JumpBytecode(t) => Some(t),
                InstructionEnum::JumpBytecodeIfCmp(_, _, _, t) => Some(t),
                _ => None,
            };
            match jump_to {
                Some(t) => {
                    assert(jump_target(opt[k as int].ins) == Some(t));
                    assert(lands(opt, t));
                    proof {
                        lemma_first_at(opt, t, 0);
                        let landing = first_at(opt, t, 0);
                        assert(is_compiled_or_encoded(self.buffer(), opt, landing, start));
                        assert forall|j: int| 0 <= j < n implies (#[trigger] self.buffer()[j]).bytecode_offset
                            == opt[j].bytecode_offset by {
                            assert(is_compiled_or_encoded(self.buffer(), opt, j, start));
                        }
                        lemma_first_at_same(self.buffer(), opt, t, 0);
                        lemma_body_len(opt, n as int, k as int, start);
                        lemma_body_len(opt, landing, 0, start);
                        lemma_body_len(opt, k + 1, 0, start);
                        lemma_offset_of_monotonic(opt, landing, n as int, start);
                        lemma_offset_of_monotonic(opt, k + 1, n as int, start);
                        lemma_offset_of_monotonic(opt, k as int, k as int, start);
                        lemma_body_linked(prefix, opt, n as int, k as int, start);
                        assert(offset_of(opt, n as int, start) == total);
                        assert(offset_of(opt, k + 1, start) == offset_of(opt, k as int, start)
                            + instruction_bytes(opt[k as int].ins).len());
                        assert(instruction_bytes(opt[k as int].ins).len() >= 5);
                        lemma_linked_slots_len(
                            self.assembler@,
                            seq![offset_of(opt, k + 1, start) as usize],
                            landing_offset(opt, t, start),
                        );
                    }
                    let target_offset = self.offset_at(t).unwrap();
                    assert(target_offset == landing_offset(opt, t, start));
                    let ghost unlinked = self.assembler@;
                    self.instructions[k].label.link_to(&mut self.assembler, target_offset);
                    proof {
                        let slots = seq![offset_of(opt, k + 1, start) as usize];
                        assert(slots.drop_last() =~= Seq::<usize>::empty());
                        assert(slots.last() == offset_of(opt, k + 1, start));
                        assert(self.assembler@ == linked_slots(unlinked, slots, target_offset as int));
                        assert(linked_slots(unlinked, slots.drop_last(), target_offset as int)
                            == unlinked);
                        assert(self.assembler@ == linked_slot(
                            unlinked,
                            offset_of(opt, k + 1, start),
                            landing_offset(opt, t, start),
                        ));
                        assert(self.buffer()[k as int] == self.instructions@[k as int]@);
                        assert(self.buffer()[k as int] == compiled_view(opt, k as int, start));
                    }
                },
                None => {
                    proof {
                        lemma_body_unlinked(opt, n as int, k as int, start);
                        assert(self.buffer()[k as int] == compiled_view(opt, k as int, start));
                    }
                },
            }
            proof {
                assert forall|j: int| 0 <= j < n && j != k implies #[trigger] self.buffer()[j]
                    == before[j] by {
                    assert(self.buffer()[j] == self.instructions@[j]@);
                }
                assert forall|j: int| 0 <= j < n implies is_compiled_or_encoded(
                    #[trigger] self.buffer(),
                    opt,
                    j,
                    start,
                ) by {
                    if j != k {
                        assert(self.buffer()[j] == before[j]);
                        assert(is_compiled_or_encoded(before, opt, j, start));
                    }
                }
            }
            k += 1;
        }
        assert(self.buffer() =~= compiled_buffer(opt, start));
    }

    /// Compiles the buffer: it is optimized, the prologue and every
    /// instruction are encoded in order, and every jump is then bound to the
    /// instruction that comes first from the bytecode offset it goes to.
    pub fn compile(&mut self)
        requires
            compilable(old(self).buffer()),
        ensures
            final(self).assembler@ == old(self).assembler@ + machine_code(
                optimized(old(self).buffer()),
                old(self).assembler@.len() as int,
            ),
            final(self).buffer() == compiled_buffer(
                optimized(old(self).buffer()),
                (old(self).assembler@.len() + enter_bytes().len()) as int,
            ),
    {
        proof {
            lemma_optimized_compilable(self.buffer());
        }
        self.optimize();
        self.assembler.enter();
        let ghost opt = self.buffer();
        let ghost prefix = self.assembler@;
        self.encode_all(Ghost(prefix), Ghost(opt));
        self.link_all(Ghost(prefix), Ghost(opt));
        assert(self.assembler@ =~= old(self).assembler@ + machine_code(
            opt,
            old(self).assembler@.len() as int,
        ));
    }

    /// Appends a shift of `register` to the right by `amount` bits.
    pub fn compile_shr(&mut self, bytecode_offset: u32, register: Register, amount: u8)
        ensures
            final(self).buffer() == old(self).buffer().push(
                fresh(bytecode_offset, InstructionEnum::Shr(register, amount)),
            ),
            final(self).assembler == old(self).assembler,
    {
        self.append(bytecode_offset, InstructionEnum::Shr(register, amount));
    }
}

} // verus!
