//! What pseudo-instructions mean: a model of the machine they run on, and the
//! proof that the peephole optimizer keeps what a buffer computes.
//!
//! The model covers what the lowering of bytecode produces: general-purpose
//! registers other than RSP and RBP, immediates, and the native stack used as
//! an operand stack. An instruction outside it is stuck.

use vstd::prelude::*;
use crate::compiler::{
    collapsed, collapses, elides, first_at, is_target, jump_target, lands, lemma_first_at,
    optimized, optimized_from, InstructionEnum, InstructionView, JitCompiler,
};
use crate::heap::HeapView;
use crate::operand::{Condition, Operand, Register};

verus! {

/// What the helpers that generated code calls see and change.
pub struct World {
    pub globals: Seq<u64>,
    pub heap: HeapView,
}

/// A call of a helper: the address of the callee and its four integer
/// arguments.
#[derive(Debug, Clone, Copy, PartialEq, Eq, Structural)]
pub struct Invocation {
    pub callee: u64,
    pub rcx: u64,
    pub rdx: u64,
    pub r8: u64,
    pub r9: u64,
}

/// The state of the machine: the sixteen general-purpose registers by index,
/// the operand stack with its top last, the world of the helpers, and the
/// calls of helpers made so far, in their order.
pub struct Native {
    pub regs: Seq<u64>,
    pub stack: Seq<u64>,
    pub world: World,
    pub calls: Seq<Invocation>,
}

/// What a call leaves behind: its result in RAX, whatever it left in the
/// other registers that a callee may change, and the world; or that it did
/// not return.
pub struct Outcome {
    pub aborted: bool,
    pub rax: u64,
    pub rcx: u64,
    pub rdx: u64,
    pub r8: u64,
    pub r9: u64,
    pub r10: u64,
    pub r11: u64,
    pub world: World,
}

/// What a call does, given the address of the callee, its four integer
/// arguments in RCX, RDX, R8 and R9, and the world.
pub type Helpers = spec_fn(u64, u64, u64, u64, u64, World) -> Outcome;

pub open spec fn well_formed(m: Native) -> bool {
    m.regs.len() == 16
}

/// Whether the model covers the register as an integer register.
pub open spec fn usable(register: Register, float: bool) -> bool {
    !float && !register.is_float() && register != Register::RSP && register != Register::RBP
}

/// The value of an operand that is read.
pub open spec fn value_of(m: Native, op: Operand) -> Option<u64> {
    match op {
        Operand::Register(r, float) => if usable(r, float) {
            Some(m.regs[r.index() as int])
        } else {
            None
        },
        Operand::Immediate(i) => Some(i.value()),
        Operand::Memory(_, _) => None,
    }
}

/// A 64-bit number read as a signed one.
pub open spec fn signed(x: u64) -> int {
    if x < 0x8000_0000_0000_0000 {
        x as int
    } else {
        x - 0x1_0000_0000_0000_0000
    }
}

/// Whether the number of bits set in the low byte of `x` is even.
pub open spec fn even_parity(x: int) -> bool {
    let b = x % 256;
    (b % 2 + (b / 2) % 2 + (b / 4) % 2 + (b / 8) % 2 + (b / 16) % 2 + (b / 32) % 2 + (b / 64) % 2
        + (b / 128) % 2) % 2 == 0
}

/// Whether a condition holds after `lhs` was compared with `rhs`.
pub open spec fn holds(condition: Condition, lhs: u64, rhs: u64) -> bool {
    let difference = signed(lhs) - signed(rhs);
    match condition {
        Condition::Overflow => difference < -0x8000_0000_0000_0000 || difference
            > 0x7fff_ffff_ffff_ffff,
        Condition::EqualTo => lhs == rhs,
        Condition::NotEqualTo => lhs != rhs,
        Condition::UnsignedGreaterThan | Condition::Above => lhs > rhs,
        Condition::UnsignedGreaterThanOrEqualTo | Condition::AboveOrEqual => lhs >= rhs,
        Condition::UnsignedLessThan | Condition::Below => lhs < rhs,
        Condition::UnsignedLessThanOrEqualTo | Condition::BelowOrEqual => lhs <= rhs,
        Condition::ParityEven | Condition::Unordered => even_parity(lhs - rhs),
        Condition::ParityOdd | Condition::NotUnordered => !even_parity(lhs - rhs),
        Condition::SignedGreaterThan => signed(lhs) > signed(rhs),
        Condition::SignedGreaterThanOrEqualTo => signed(lhs) >= signed(rhs),
        Condition::SignedLessThan => signed(lhs) < signed(rhs),
        Condition::SignedLessThanOrEqualTo => signed(lhs) <= signed(rhs),
    }
}

/// What a call of `callee` with `rcx` in RCX leaves behind.
pub open spec fn outcome_of(helpers: Helpers, m: Native, callee: u64, rcx: u64) -> Outcome {
    helpers(callee, rcx, m.regs[2], m.regs[8], m.regs[9], m.world)
}

/// The call of `callee` that the machine makes with `rcx` in RCX.
pub open spec fn invocation_of(m: Native, callee: u64, rcx: u64) -> Invocation {
    Invocation { callee, rcx, rdx: m.regs[2], r8: m.regs[8], r9: m.regs[9] }
}

/// The machine after a call of `callee` with `rcx` in RCX that returned.
pub open spec fn called(helpers: Helpers, m: Native, callee: u64, rcx: u64) -> Native {
    let out = outcome_of(helpers, m, callee, rcx);
    Native {
        regs: m.regs.update(0, out.rax).update(1, out.rcx).update(2, out.rdx).update(
            8,
            out.r8,
        ).update(9, out.r9).update(10, out.r10).update(11, out.r11),
        stack: m.stack,
        world: out.world,
        calls: m.calls.push(invocation_of(m, callee, rcx)),
    }
}

/// The machine after the fast path of an integer addition: R8 holds the sum,
/// cut to 64 bits, and RAX its low 48 bits.
pub open spec fn fast_added(m: Native) -> Native {
    let sum = ((m.regs[8] + m.regs[2]) % 0x1_0000_0000_0000_0000) as u64;
    Native { regs: m.regs.update(8, sum).update(0, (sum % 0x1_0000_0000_0000) as u64), ..m }
}

/// What one instruction does.
pub enum Stepped {
    /// The machine goes on at the given index.
    Next(Native, int),
    /// The function returns.
    Halt(Native),
    /// The model has no meaning for the instruction in this state.
    Stuck,
}

/// What the instruction at `pc` does to the machine.
pub open spec fn step(buf: Seq<InstructionView>, helpers: Helpers, m: Native, pc: int) -> Stepped {
    match buf[pc].ins {
        InstructionEnum::Mov(dst, src) => match (dst, value_of(m, src)) {
            (Operand::Register(d, float), Some(v)) => if usable(d, float) {
                Stepped::Next(Native { regs: m.regs.update(d.index() as int, v), ..m }, pc + 1)
            } else {
                Stepped::Stuck
            },
            _ => Stepped::Stuck,
        },
        InstructionEnum::Push(op) => match value_of(m, op) {
            Some(v) => Stepped::Next(Native { stack: m.stack.push(v), ..m }, pc + 1),
            None => Stepped::Stuck,
        },
        InstructionEnum::Pop(op) => match op {
            Operand::Register(d, float) => if usable(d, float) && m.stack.len() > 0 {
                Stepped::Next(
                    Native {
                        regs: m.regs.update(d.index() as int, m.stack.last()),
                        stack: m.stack.drop_last(),
                        ..m
                    },
                    pc + 1,
                )
            } else {
                Stepped::Stuck
            },
            _ => Stepped::Stuck,
        },
        InstructionEnum::JumpBytecode(t) => if lands(buf, t) {
            Stepped::Next(m, first_at(buf, t, 0))
        } else {
            Stepped::Stuck
        },
        InstructionEnum::JumpBytecodeIfCmp(lhs, condition, rhs, t) => match (
            value_of(m, lhs),
            value_of(m, rhs),
        ) {
            (Some(l), Some(r)) => if !(lhs is Register) || !lands(buf, t) {
                Stepped::Stuck
            } else if holds(condition, l, r) {
                Stepped::Next(m, first_at(buf, t, 0))
            } else {
                Stepped::Next(m, pc + 1)
            },
            _ => Stepped::Stuck,
        },
        InstructionEnum::Exit => Stepped::Halt(m),
        InstructionEnum::Call(callee) => if outcome_of(helpers, m, callee, m.regs[1]).aborted {
            Stepped::Stuck
        } else {
            Stepped::Next(called(helpers, m, callee, m.regs[1]), pc + 1)
        },
        InstructionEnum::Shr(register, amount) => if usable(register, false) {
            Stepped::Next(
                Native {
                    regs: m.regs.update(
                        register.index() as int,
                        m.regs[register.index() as int] >> (amount % 64),
                    ),
                    ..m
                },
                pc + 1,
            )
        } else {
            Stepped::Stuck
        },
        InstructionEnum::IntFastSlowPathBinary(vm, helper) => if m.regs[0] == 0 && m.regs[3] == 0 {
            Stepped::Next(fast_added(m), pc + 1)
        } else if outcome_of(helpers, m, helper, vm).aborted {
            Stepped::Stuck
        } else {
            Stepped::Next(called(helpers, m, helper, vm), pc + 1)
        },
    }
}

/// The machine with which the function returns when it is entered at `pc`, if
/// it returns within `fuel` instructions and never gets stuck.
pub open spec fn run(
    buf: Seq<InstructionView>,
    helpers: Helpers,
    m: Native,
    pc: int,
    fuel: nat,
) -> Option<Native>
    decreases fuel,
{
    if fuel == 0 || pc < 0 || pc >= buf.len() {
        None
    } else {
        match step(buf, helpers, m, pc) {
            Stepped::Next(after, next) => run(buf, helpers, after, next, (fuel - 1) as nat),
            Stepped::Halt(last) => Some(last),
            Stepped::Stuck => None,
        }
    }
}

/// Whether two machines hold the same but for the registers in `dead`.
pub open spec fn agree(a: Native, b: Native, dead: Set<int>) -> bool {
    &&& a.stack == b.stack
    &&& a.world == b.world
    &&& a.calls == b.calls
    &&& a.regs.len() == 16
    &&& b.regs.len() == 16
    &&& forall|i: int| 0 <= i < 16 && !dead.contains(i) ==> a.regs[i] == b.regs[i]
}

/// Whether an operand reads no register in `dead`.
pub open spec fn clean(op: Operand, dead: Set<int>) -> bool {
    match op {
        Operand::Register(r, _) => !dead.contains(r.index() as int),
        _ => true,
    }
}

pub open spec fn nothing_dead(dead: Set<int>) -> bool {
    forall|i: int| !dead.contains(i)
}

/// Whether an instruction does the same on two machines that hold the same
/// but for the registers in `dead`: it reads none of them. A jump, whose
/// target lies elsewhere, asks that none is dead; the return reads RAX; a call
/// reads its argument registers.
pub open spec fn unaffected(ins: InstructionEnum, dead: Set<int>) -> bool {
    match ins {
        InstructionEnum::Mov(_, src) => clean(src, dead),
        InstructionEnum::Push(op) => clean(op, dead),
        InstructionEnum::Pop(_) => true,
        InstructionEnum::JumpBytecode(_) => nothing_dead(dead),
        InstructionEnum::JumpBytecodeIfCmp(_, _, _, _) => nothing_dead(dead),
        InstructionEnum::Exit => !dead.contains(0),
        InstructionEnum::Call(_) => !dead.contains(1) && !dead.contains(2) && !dead.contains(8)
            && !dead.contains(9),
        InstructionEnum::Shr(r, _) => !dead.contains(r.index() as int),
        InstructionEnum::IntFastSlowPathBinary(_, _) => !dead.contains(0) && !dead.contains(2)
            && !dead.contains(3) && !dead.contains(8) && !dead.contains(9),
    }
}

/// The registers of `dead` that an instruction does not overwrite.
pub open spec fn survivors(ins: InstructionEnum, dead: Set<int>) -> Set<int> {
    match ins {
        InstructionEnum::Mov(Operand::Register(d, _), _) => dead.remove(d.index() as int),
        InstructionEnum::Pop(Operand::Register(d, _)) => dead.remove(d.index() as int),
        InstructionEnum::Call(_) => dead.remove(0).remove(1).remove(2).remove(8).remove(9).remove(
            10,
        ).remove(11),
        _ => dead,
    }
}

/// The index at which the scan of the optimizer goes on after index `i`.
pub open spec fn next_scan(buf: Seq<InstructionView>, i: int) -> int {
    if collapses(buf, i) {
        i + 3
    } else if elides(buf, i) {
        i + 2
    } else {
        i + 1
    }
}

/// The index of a register operand.
pub open spec fn register_of(op: Operand) -> int {
    match op {
        Operand::Register(r, _) => r.index() as int,
        _ => 0,
    }
}

/// Whether what the optimizer makes of the instructions at `i` does the same
/// as they do, on machines that hold the same but for the registers in `dead`.
pub open spec fn scan_check(buf: Seq<InstructionView>, i: int, dead: Set<int>) -> bool {
    if collapses(buf, i) {
        clean(buf[i].ins->Mov_1, dead)
    } else if elides(buf, i) {
        true
    } else {
        unaffected(buf[i].ins, dead)
    }
}

/// The registers that may differ after the instructions at `i`: a window that
/// collapses no longer sets its scratch register.
pub open spec fn scan_dead(buf: Seq<InstructionView>, i: int, dead: Set<int>) -> Set<int> {
    if collapses(buf, i) {
        let r = register_of(buf[i].ins->Mov_0);
        let d = register_of(buf[i + 2].ins->Pop_0);
        if r == d {
            dead.remove(d)
        } else {
            dead.remove(d).insert(r)
        }
    } else if elides(buf, i) {
        dead
    } else {
        survivors(buf[i].ins, dead)
    }
}

/// Whether, from index `i` on, no instruction reads a register that a
/// collapsed window before it no longer sets.
pub open spec fn scratch_unread_from(buf: Seq<InstructionView>, i: int, dead: Set<int>) -> bool
    decreases buf.len() - i,
{
    if i < 0 || i >= buf.len() {
        true
    } else {
        scan_check(buf, i, dead) && scratch_unread_from(
            buf,
            next_scan(buf, i),
            scan_dead(buf, i, dead),
        )
    }
}

/// Whether no instruction of the buffer reads a register that a collapsed
/// window before it no longer sets: the register is set again first.
pub open spec fn scratch_unread(buf: Seq<InstructionView>) -> bool {
    scratch_unread_from(buf, 0, Set::empty())
}

/// Whether the scan that starts at `from` comes to index `i`.
pub open spec fn scanned(buf: Seq<InstructionView>, from: int, i: int) -> bool
    decreases buf.len() - from,
{
    if from == i {
        true
    } else if from < 0 || from >= buf.len() || from > i {
        false
    } else {
        scanned(buf, next_scan(buf, from), i)
    }
}

/// The index in the optimized buffer of what the optimizer makes of the
/// instructions from `i` on.
pub open spec fn mapped(buf: Seq<InstructionView>, i: int) -> int {
    optimized(buf).len() - optimized_from(buf, i).len()
}

/// Whether two runs return, with the same RAX and the same world, after the
/// same calls of helpers in the same order.
pub open spec fn observed_alike(a: Option<Native>, b: Option<Native>) -> bool {
    &&& a is Some
    &&& b is Some
    &&& a->0.regs[0] == b->0.regs[0]
    &&& a->0.world == b->0.world
    &&& a->0.calls == b->0.calls
}

proof fn lemma_scan_suffix(buf: Seq<InstructionView>, from: int, i: int)
    requires
        0 <= from,
        scanned(buf, from, i),
    ensures
        optimized_from(buf, from).len() >= optimized_from(buf, i).len(),
        optimized_from(buf, from).skip(
            optimized_from(buf, from).len() - optimized_from(buf, i).len(),
        ) == optimized_from(buf, i),
    decreases buf.len() - from,
{
    let whole = optimized_from(buf, from);
    if from == i {
        assert(whole.skip(0) =~= whole);
    } else {
        let next = next_scan(buf, from);
        lemma_scan_suffix(buf, next, i);
        let rest = optimized_from(buf, next);
        let tail = optimized_from(buf, i);
        if collapses(buf, from) {
            assert(whole =~= seq![collapsed(buf, from)] + rest);
            assert(whole.skip(whole.len() - tail.len()) =~= rest.skip(rest.len() - tail.len()));
        } else if elides(buf, from) {
        } else {
            assert(whole =~= seq![buf[from]] + rest);
            assert(whole.skip(whole.len() - tail.len()) =~= rest.skip(rest.len() - tail.len()));
        }
    }
}

proof fn lemma_scan_goes_on(buf: Seq<InstructionView>, from: int, i: int)
    requires
        0 <= from,
        scanned(buf, from, i),
        i < buf.len(),
    ensures
        scanned(buf, from, next_scan(buf, i)),
    decreases buf.len() - from,
{
    if from == i {
        assert(scanned(buf, next_scan(buf, i), next_scan(buf, i)));
    } else {
        lemma_scan_goes_on(buf, next_scan(buf, from), i);
    }
}

/// At an index that the scan comes to, the optimized buffer holds what the
/// optimizer makes of the instructions there.
proof fn lemma_scan_position(buf: Seq<InstructionView>, i: int)
    requires
        scanned(buf, 0, i),
        0 <= i < buf.len(),
    ensures
        0 <= mapped(buf, i),
        scanned(buf, 0, next_scan(buf, i)),
        collapses(buf, i) ==> mapped(buf, i) < optimized(buf).len() && optimized(buf)[mapped(
            buf,
            i,
        )] == collapsed(buf, i) && mapped(buf, i + 3) == mapped(buf, i) + 1,
        elides(buf, i) && !collapses(buf, i) ==> mapped(buf, i + 2) == mapped(buf, i),
        !elides(buf, i) && !collapses(buf, i) ==> mapped(buf, i) < optimized(buf).len()
            && optimized(buf)[mapped(buf, i)] == buf[i] && mapped(buf, i + 1) == mapped(buf, i)
            + 1,
{
    lemma_scan_suffix(buf, 0, i);
    lemma_scan_goes_on(buf, 0, i);
    let opt = optimized(buf);
    let here = optimized_from(buf, i);
    assert(opt.skip(mapped(buf, i)) == here);
    if collapses(buf, i) {
        assert(here[0] == collapsed(buf, i));
        assert(opt.skip(mapped(buf, i))[0] == opt[mapped(buf, i)]);
    } else if elides(buf, i) {
    } else {
        assert(here[0] == buf[i]);
        assert(opt.skip(mapped(buf, i))[0] == opt[mapped(buf, i)]);
    }
}

proof fn lemma_first_at_shift(
    x: InstructionView,
    rest: Seq<InstructionView>,
    bytecode_offset: u32,
    from: int,
)
    requires
        0 <= from,
    ensures
        first_at(seq![x] + rest, bytecode_offset, from + 1) == 1 + first_at(
            rest,
            bytecode_offset,
            from,
        ),
    decreases rest.len() - from,
{
    let whole = seq![x] + rest;
    if from < rest.len() {
        assert(whole[from + 1] == rest[from]);
        if rest[from].bytecode_offset != bytecode_offset {
            lemma_first_at_shift(x, rest, bytecode_offset, from + 1);
        }
    }
}

/// A jump lands in the optimized buffer on what the optimizer made of the
/// instruction it lands on in the buffer.
proof fn lemma_landing(buf: Seq<InstructionView>, from: int, t: u32)
    requires
        is_target(buf, t),
        lands(buf, t),
        0 <= from <= first_at(buf, t, 0),
        forall|k: int| from <= k < first_at(buf, t, 0) ==> (#[trigger] buf[k]).bytecode_offset != t,
    ensures
        scanned(buf, from, first_at(buf, t, 0)),
        optimized_from(buf, from).len() >= optimized_from(buf, first_at(buf, t, 0)).len(),
        first_at(optimized_from(buf, from), t, 0) == optimized_from(buf, from).len()
            - optimized_from(buf, first_at(buf, t, 0)).len(),
        first_at(optimized_from(buf, from), t, 0) < optimized_from(buf, from).len(),
    decreases buf.len() - from,
{
    let j = first_at(buf, t, 0);
    lemma_first_at(buf, t, 0);
    let whole = optimized_from(buf, from);
    if from == j {
        assert(is_target(buf, buf[j].bytecode_offset));
        assert(!collapses(buf, j));
        assert(!elides(buf, j));
        assert(whole[0] == buf[j]);
    } else {
        let next = next_scan(buf, from);
        if collapses(buf, from) {
            assert(buf[from + 1].bytecode_offset != t);
            assert(buf[from + 2].bytecode_offset != t);
            lemma_landing(buf, next, t);
            let rest = optimized_from(buf, next);
            assert(whole =~= seq![collapsed(buf, from)] + rest);
            lemma_first_at_shift(collapsed(buf, from), rest, t, 0);
            assert(whole[0] == collapsed(buf, from));
        } else if elides(buf, from) {
            assert(buf[from + 1].bytecode_offset != t);
            lemma_landing(buf, next, t);
        } else {
            lemma_landing(buf, next, t);
            let rest = optimized_from(buf, next);
            assert(whole =~= seq![buf[from]] + rest);
            lemma_first_at_shift(buf[from], rest, t, 0);
            assert(whole[0] == buf[from]);
        }
    }
}

/// Every index that the scan comes to is reached with some set of registers
/// that may differ, and no instruction from there on reads one of them.
proof fn lemma_scan_unread(buf: Seq<InstructionView>, from: int, dead: Set<int>, i: int)
    requires
        0 <= from,
        scanned(buf, from, i),
        scratch_unread_from(buf, from, dead),
    ensures
        exists|there: Set<int>| #[trigger] scratch_unread_from(buf, i, there),
    decreases buf.len() - from,
{
    if from == i {
        assert(scratch_unread_from(buf, i, dead));
    } else {
        lemma_scan_unread(buf, next_scan(buf, from), scan_dead(buf, from, dead), i);
    }
}

/// An instruction that is no jump and reads no register in `dead` does the
/// same on two machines that hold the same but for those registers.
proof fn lemma_step_alike(
    a: Seq<InstructionView>,
    b: Seq<InstructionView>,
    helpers: Helpers,
    m1: Native,
    m2: Native,
    pa: int,
    pb: int,
    dead: Set<int>,
)
    requires
        a[pa].ins == b[pb].ins,
        jump_target(a[pa].ins) is None,
        unaffected(a[pa].ins, dead),
        agree(m1, m2, dead),
        !(step(a, helpers, m1, pa) is Stuck),
    ensures
        step(a, helpers, m1, pa) is Next ==> {
            &&& step(b, helpers, m2, pb) is Next
            &&& step(a, helpers, m1, pa)->Next_1 == pa + 1
            &&& step(b, helpers, m2, pb)->Next_1 == pb + 1
            &&& agree(
                step(a, helpers, m1, pa)->Next_0,
                step(b, helpers, m2, pb)->Next_0,
                survivors(a[pa].ins, dead),
            )
        },
        step(a, helpers, m1, pa) is Halt ==> {
            &&& step(b, helpers, m2, pb) is Halt
            &&& step(a, helpers, m1, pa)->Halt_0.regs[0] == step(b, helpers, m2, pb)->Halt_0.regs[0]
            &&& step(a, helpers, m1, pa)->Halt_0.world == step(b, helpers, m2, pb)->Halt_0.world
            &&& step(a, helpers, m1, pa)->Halt_0.calls == step(b, helpers, m2, pb)->Halt_0.calls
        },
{
}

/// Two machines that hold the same in every register are the same.
proof fn lemma_agree_all(m1: Native, m2: Native, dead: Set<int>)
    requires
        agree(m1, m2, dead),
        nothing_dead(dead),
    ensures
        m1 == m2,
{
    assert forall|i: int| 0 <= i < 16 implies m1.regs[i] == m2.regs[i] by {
        assert(!dead.contains(i));
    }
    assert(m1.regs =~= m2.regs);
}

/// A run takes at least one instruction and starts inside the buffer.
proof fn lemma_run_starts(
    buf: Seq<InstructionView>,
    helpers: Helpers,
    m: Native,
    pc: int,
    fuel: nat,
)
    requires
        run(buf, helpers, m, pc, fuel) is Some,
    ensures
        fuel > 0,
        0 <= pc < buf.len(),
        !(step(buf, helpers, m, pc) is Stuck),
        step(buf, helpers, m, pc) matches Stepped::Next(after, next) ==> run(
            buf,
            helpers,
            m,
            pc,
            fuel,
        ) == run(buf, helpers, after, next, (fuel - 1) as nat),
        step(buf, helpers, m, pc) matches Stepped::Halt(last) ==> run(buf, helpers, m, pc, fuel)
            == Some(last),
{
}

/// The optimized buffer does what the buffer does, from an index that the scan
/// comes to, on machines that hold the same but for registers that are not
/// read before they are set.
proof fn lemma_simulation(
    buf: Seq<InstructionView>,
    helpers: Helpers,
    m1: Native,
    m2: Native,
    i: int,
    dead: Set<int>,
    fuel: nat,
)
    requires
        scratch_unread(buf),
        scanned(buf, 0, i),
        0 <= i,
        scratch_unread_from(buf, i, dead),
        agree(m1, m2, dead),
        run(buf, helpers, m1, i, fuel) is Some,
    ensures
        exists|fuel2: nat|
            observed_alike(
                run(buf, helpers, m1, i, fuel),
                #[trigger] run(optimized(buf), helpers, m2, mapped(buf, i), fuel2),
            ),
    decreases fuel,
{
    let opt = optimized(buf);
    let goal = run(buf, helpers, m1, i, fuel);
    lemma_run_starts(buf, helpers, m1, i, fuel);
    lemma_scan_position(buf, i);
    let at = mapped(buf, i);
    if collapses(buf, i) {
        let r = buf[i].ins->Mov_0;
        let src = buf[i].ins->Mov_1;
        let d = buf[i + 2].ins->Pop_0;
        let s1 = step(buf, helpers, m1, i);
        let a1 = s1->Next_0;
        assert(s1->Next_1 == i + 1);
        lemma_run_starts(buf, helpers, a1, i + 1, (fuel - 1) as nat);
        let s2 = step(buf, helpers, a1, i + 1);
        let a2 = s2->Next_0;
        assert(s2->Next_1 == i + 2);
        lemma_run_starts(buf, helpers, a2, i + 2, (fuel - 2) as nat);
        let s3 = step(buf, helpers, a2, i + 2);
        let a3 = s3->Next_0;
        assert(s3->Next_1 == i + 3);
        assert(goal == run(buf, helpers, a3, i + 3, (fuel - 3) as nat));
        let v = value_of(m1, src)->0;
        assert(a2.stack.drop_last() =~= m1.stack);
        assert(value_of(m2, src) == Some(v));
        let t = step(opt, helpers, m2, at);
        assert(opt[at].ins == InstructionEnum::Mov(d, src));
        let b1 = t->Next_0;
        assert(t->Next_1 == at + 1);
        let after = scan_dead(buf, i, dead);
        assert(agree(a3, b1, after));
        lemma_simulation(buf, helpers, a3, b1, i + 3, after, (fuel - 3) as nat);
        let rest = choose|rest: nat|
            observed_alike(
                run(buf, helpers, a3, i + 3, (fuel - 3) as nat),
                #[trigger] run(opt, helpers, b1, mapped(buf, i + 3), rest),
            );
        assert(run(opt, helpers, m2, at, rest + 1) == run(opt, helpers, b1, at + 1, rest));
        assert(observed_alike(goal, run(opt, helpers, m2, at, rest + 1)));
    } else if elides(buf, i) {
        let s1 = step(buf, helpers, m1, i);
        let a1 = s1->Next_0;
        assert(s1->Next_1 == i + 1);
        lemma_run_starts(buf, helpers, a1, i + 1, (fuel - 1) as nat);
        let s2 = step(buf, helpers, a1, i + 1);
        let a2 = s2->Next_0;
        assert(s2->Next_1 == i + 2);
        assert(goal == run(buf, helpers, a2, i + 2, (fuel - 2) as nat));
        assert(a2.stack =~= m1.stack);
        assert(a2.regs =~= m1.regs);
        assert(a2 == m1);
        lemma_simulation(buf, helpers, a2, m2, i + 2, dead, (fuel - 2) as nat);
        let rest = choose|rest: nat|
            observed_alike(
                run(buf, helpers, a2, i + 2, (fuel - 2) as nat),
                #[trigger] run(opt, helpers, m2, mapped(buf, i + 2), rest),
            );
        assert(observed_alike(goal, run(opt, helpers, m2, at, rest)));
    } else {
        let ins = buf[i].ins;
        assert(opt[at].ins == ins);
        assert(unaffected(ins, dead));
        if jump_target(ins) is Some {
            let t = jump_target(ins)->0;
            lemma_agree_all(m1, m2, dead);
            assert(lands(buf, t));
            assert(is_target(buf, t));
            lemma_first_at(buf, t, 0);
            lemma_landing(buf, 0, t);
            let j = first_at(buf, t, 0);
            assert(first_at(opt, t, 0) == mapped(buf, j));
            assert(lands(opt, t));
            let s1 = step(buf, helpers, m1, i);
            let next = s1->Next_1;
            assert(s1->Next_0 == m1);
            let t1 = step(opt, helpers, m2, at);
            assert(t1 is Next);
            assert(t1->Next_0 == m2);
            if next == j && (ins is JumpBytecode || holds(
                ins->JumpBytecodeIfCmp_1,
                value_of(m1, ins->JumpBytecodeIfCmp_0)->0,
                value_of(m1, ins->JumpBytecodeIfCmp_2)->0,
            )) {
                assert(t1->Next_1 == mapped(buf, j));
                lemma_scan_unread(buf, 0, Set::empty(), j);
                let there = choose|there: Set<int>| #[trigger] scratch_unread_from(buf, j, there);
                lemma_simulation(buf, helpers, m1, m2, j, there, (fuel - 1) as nat);
                let rest = choose|rest: nat|
                    observed_alike(
                        run(buf, helpers, m1, j, (fuel - 1) as nat),
                        #[trigger] run(opt, helpers, m2, mapped(buf, j), rest),
                    );
                assert(run(opt, helpers, m2, at, rest + 1) == run(
                    opt,
                    helpers,
                    m2,
                    mapped(buf, j),
                    rest,
                ));
                assert(observed_alike(goal, run(opt, helpers, m2, at, rest + 1)));
            } else {
                assert(next == i + 1);
                assert(t1->Next_1 == at + 1);
                lemma_simulation(buf, helpers, m1, m2, i + 1, dead, (fuel - 1) as nat);
                let rest = choose|rest: nat|
                    observed_alike(
                        run(buf, helpers, m1, i + 1, (fuel - 1) as nat),
                        #[trigger] run(opt, helpers, m2, mapped(buf, i + 1), rest),
                    );
                assert(run(opt, helpers, m2, at, rest + 1) == run(
                    opt,
                    helpers,
                    m2,
                    at + 1,
                    rest,
                ));
                assert(observed_alike(goal, run(opt, helpers, m2, at, rest + 1)));
            }
        } else {
            lemma_step_alike(buf, opt, helpers, m1, m2, i, at, dead);
            let s1 = step(buf, helpers, m1, i);
            let t1 = step(opt, helpers, m2, at);
            if s1 is Halt {
                assert(run(opt, helpers, m2, at, 1) == Some(t1->Halt_0));
                assert(observed_alike(goal, run(opt, helpers, m2, at, 1)));
            } else {
                let a1 = s1->Next_0;
                let b1 = t1->Next_0;
                lemma_simulation(
                    buf,
                    helpers,
                    a1,
                    b1,
                    i + 1,
                    survivors(ins, dead),
                    (fuel - 1) as nat,
                );
                let rest = choose|rest: nat|
                    observed_alike(
                        run(buf, helpers, a1, i + 1, (fuel - 1) as nat),
                        #[trigger] run(opt, helpers, b1, mapped(buf, i + 1), rest),
                    );
                assert(run(opt, helpers, m2, at, rest + 1) == run(
                    opt,
                    helpers,
                    b1,
                    at + 1,
                    rest,
                ));
                assert(observed_alike(goal, run(opt, helpers, m2, at, rest + 1)));
            }
        }
    }
}

/// The optimizer keeps what a buffer computes: where the buffer, entered at
/// its first instruction in any state, returns, the optimized buffer, entered
/// in the same state, returns with the same RAX, after the same calls of the
/// helpers with the same arguments in the same order, which leave the same
/// globals. This holds of a buffer in which the register that a collapsed
/// window went through is set again before it is read.
pub proof fn lemma_optimizer_keeps_meaning(
    buf: Seq<InstructionView>,
    helpers: Helpers,
    m: Native,
    fuel: nat,
)
    requires
        well_formed(m),
        scratch_unread(buf),
        run(buf, helpers, m, 0, fuel) is Some,
    ensures
        exists|fuel2: nat|
            observed_alike(
                run(buf, helpers, m, 0, fuel),
                #[trigger] run(optimized(buf), helpers, m, 0, fuel2),
            ),
{
    lemma_simulation(buf, helpers, m, m, 0, Set::empty(), fuel);
}

/// The set of the registers that are marked in a table of sixteen marks.
pub open spec fn marked(marks: Seq<bool>) -> Set<int> {
    Set::new(|i: int| 0 <= i < 16 && marks[i])
}

/// Whether an operand reads no marked register.
fn is_clean(op: &Operand, marks: &Vec<bool>) -> (b: bool)
    requires
        marks@.len() == 16,
    ensures
        b == clean(*op, marked(marks@)),
{
    match op {
        Operand::Register(r, _) => !marks[r.encode() as usize],
        _ => true,
    }
}

/// Whether no register is marked.
fn none_marked(marks: &Vec<bool>) -> (b: bool)
    requires
        marks@.len() == 16,
    ensures
        b == nothing_dead(marked(marks@)),
{
    let mut i: usize = 0;
    while i < 16
        invariant
            i <= 16,
            marks@.len() == 16,
            forall|k: int| 0 <= k < i ==> !marks@[k],
        decreases 16 - i,
    {
        if marks[i] {
            assert(marked(marks@).contains(i as int));
            return false;
        }
        i += 1;
    }
    true
}

/// Takes the mark from a register.
fn unmark(marks: &mut Vec<bool>, index: usize)
    requires
        old(marks)@.len() == 16,
        index < 16,
    ensures
        final(marks)@.len() == 16,
        marked(final(marks)@) == marked(old(marks)@).remove(index as int),
{
    marks[index] = false;
    assert(marked(marks@) =~= marked(old(marks)@).remove(index as int));
}

/// Marks a register.
fn mark(marks: &mut Vec<bool>, index: usize)
    requires
        old(marks)@.len() == 16,
        index < 16,
    ensures
        final(marks)@.len() == 16,
        marked(final(marks)@) == marked(old(marks)@).insert(index as int),
{
    marks[index] = true;
    assert(marked(marks@) =~= marked(old(marks)@).insert(index as int));
}

/// Whether an instruction reads no marked register, and the marks after it.
fn check_instruction(ins: &InstructionEnum, marks: &mut Vec<bool>) -> (b: bool)
    requires
        old(marks)@.len() == 16,
    ensures
        final(marks)@.len() == 16,
        b == unaffected(*ins, marked(old(marks)@)),
        b ==> marked(final(marks)@) == survivors(*ins, marked(old(marks)@)),
{
    match ins {
        InstructionEnum::Mov(dst, src) => {
            if !is_clean(src, marks) {
                return false;
            }
            match dst {
                Operand::Register(d, _) => {
                    unmark(marks, d.encode() as usize);
                },
                _ => {},
            }
            true
        },
        InstructionEnum::Push(op) => is_clean(op, marks),
        InstructionEnum::Pop(op) => {
            match op {
                Operand::Register(d, _) => {
                    unmark(marks, d.encode() as usize);
                },
                _ => {},
            }
            true
        },
        InstructionEnum::JumpBytecode(_) => none_marked(marks),
        InstructionEnum::JumpBytecodeIfCmp(_, _, _, _) => none_marked(marks),
        InstructionEnum::Exit => !marks[0],
        InstructionEnum::Call(_) => {
            if marks[1] || marks[2] || marks[8] || marks[9] {
                return false;
            }
            unmark(marks, 0);
            unmark(marks, 1);
            unmark(marks, 2);
            unmark(marks, 8);
            unmark(marks, 9);
            unmark(marks, 10);
            unmark(marks, 11);
            true
        },
        InstructionEnum::Shr(r, _) => !marks[r.encode() as usize],
        InstructionEnum::IntFastSlowPathBinary(_, _) => !(marks[0] || marks[2] || marks[3]
            || marks[8] || marks[9]),
    }
}

/// Whether no instruction of the buffer reads a register that a collapsed
/// window before it no longer sets, so that the optimizer keeps what the
/// buffer computes.
pub fn scratch_stays_unread(jc: &JitCompiler) -> (b: bool)
    ensures
        b == scratch_unread(jc.buffer()),
{
    let mut marks: Vec<bool> = Vec::new();
    while marks.len() < 16
        invariant
            marks@.len() <= 16,
            forall|k: int| 0 <= k < marks@.len() ==> !marks@[k],
        decreases 16 - marks@.len(),
    {
        marks.push(false);
    }
    assert(marked(marks@) =~= Set::<int>::empty());
    let ghost buf = jc.buffer();
    let mut i: usize = 0;
    while i < jc.instructions.len()
        invariant
            marks@.len() == 16,
            buf == jc.buffer(),
            i <= jc.instructions@.len(),
            scratch_unread_from(buf, i as int, marked(marks@)) == scratch_unread(buf),
        decreases jc.instructions@.len() - i,
    {
        assert(buf[i as int] == jc.instructions@[i as int]@);
        match jc.collapse_at(i) {
            Some(replacement) => {
                assert(buf[i + 2] == jc.instructions@[i + 2]@);
                match (jc.instructions[i].ins, jc.instructions[i + 2].ins) {
                    (InstructionEnum::Mov(r, src), InstructionEnum::Pop(d)) => {
                        if !is_clean(&src, &marks) {
                            return false;
                        }
                        let from = match r {
                            Operand::Register(register, _) => register.encode() as usize,
                            _ => 0,
                        };
                        let to = match d {
                            Operand::Register(register, _) => register.encode() as usize,
                            _ => 0,
                        };
                        unmark(&mut marks, to);
                        if from != to {
                            mark(&mut marks, from);
                        }
                    },
                    _ => {},
                }
                i += 3;
            },
            None => {
                if jc.elides_at(i) {
                    i += 2;
                } else {
                    let ins = jc.instructions[i].ins;
                    if !check_instruction(&ins, &mut marks) {
                        return false;
                    }
                    i += 1;
                }
            },
        }
    }
    true
}

} // verus!
