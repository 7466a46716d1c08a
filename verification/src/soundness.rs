//! The code that lowering makes of bytecode is code whose meaning the
//! peephole optimizer keeps.

use vstd::prelude::*;
use crate::bytekod::Constant;
use crate::compiler::{collapses, elides, optimized, InstructionEnum, InstructionView};
use crate::heap::HeapView;
use crate::operand::{Operand, Register};
use crate::bytekod::{opcode_of, Opcode};
use crate::bytes::u32_at;
use crate::runtime::{lowered, lowered_opcode, Callbacks, Lowering};
use crate::semantics::{
    clean, lemma_optimizer_keeps_meaning, observed_alike, register_of, run, scratch_unread,
    scratch_unread_from, survivors, unaffected, well_formed, Helpers, Native,
};

verus! {

/// Whether the three instructions from `i` have the shape of a window that
/// may collapse.
pub open spec fn may_collapse(buf: Seq<InstructionView>, i: int) -> bool {
    &&& 0 <= i
    &&& i + 2 < buf.len()
    &&& buf[i].ins is Mov
    &&& buf[i + 1].ins is Push
    &&& buf[i + 2].ins is Pop
    &&& buf[i].ins->Mov_0 == buf[i + 1].ins->Push_0
    &&& buf[i].ins->Mov_0 is Register
}

/// Whether the two instructions from `i` have the shape of a window that may
/// go away.
pub open spec fn may_elide(buf: Seq<InstructionView>, i: int) -> bool {
    &&& 0 <= i
    &&& i + 1 < buf.len()
    &&& buf[i].ins is Push
    &&& buf[i + 1].ins is Pop
    &&& buf[i].ins->Push_0 == buf[i + 1].ins->Pop_0
}

/// The registers that may differ after a window at `i` collapsed.
pub open spec fn collapsed_dead(buf: Seq<InstructionView>, i: int, dead: Set<int>) -> Set<int> {
    let r = register_of(buf[i].ins->Mov_0);
    let d = register_of(buf[i + 2].ins->Pop_0);
    if r == d {
        dead.remove(d)
    } else {
        dead.remove(d).insert(r)
    }
}

/// Whether, from index `i` on, no instruction reads a register in `dead` or
/// one that a collapsed window no longer sets, whichever of the windows that
/// have the shape for it the optimizer rewrites.
pub open spec fn unread_anyway(buf: Seq<InstructionView>, i: int, dead: Set<int>) -> bool
    decreases buf.len() - i,
{
    if i < 0 || i >= buf.len() {
        true
    } else {
        &&& may_collapse(buf, i) ==> clean(buf[i].ins->Mov_1, dead) && unread_anyway(
            buf,
            i + 3,
            collapsed_dead(buf, i, dead),
        )
        &&& may_elide(buf, i) ==> unread_anyway(buf, i + 2, dead)
        &&& unaffected(buf[i].ins, dead)
        &&& unread_anyway(buf, i + 1, survivors(buf[i].ins, dead))
    }
}

/// What holds whichever windows are rewritten holds of the windows that are.
pub proof fn lemma_unread_anyway(buf: Seq<InstructionView>, i: int, dead: Set<int>)
    requires
        unread_anyway(buf, i, dead),
    ensures
        scratch_unread_from(buf, i, dead),
    decreases buf.len() - i,
{
    if 0 <= i < buf.len() {
        if collapses(buf, i) {
            lemma_unread_anyway(buf, i + 3, collapsed_dead(buf, i, dead));
        } else if elides(buf, i) {
            lemma_unread_anyway(buf, i + 2, dead);
        } else {
            lemma_unread_anyway(buf, i + 1, survivors(buf[i].ins, dead));
        }
    }
}

/// The set that holds RAX alone.
pub open spec fn rax_alone() -> Set<int> {
    Set::<int>::empty().insert(0)
}

/// Whether the instructions from index `b` on, where the code of an opcode
/// starts, are safe to come to: from the start with no register that may
/// differ, and from behind a first pop, which a window before it may have
/// taken, with RAX where the pop is into another register.
pub open spec fn entry_ok(buf: Seq<InstructionView>, b: int) -> bool {
    &&& unread_anyway(buf, b, Set::empty())
    &&& 0 <= b < buf.len() && buf[b].ins is Pop ==> {
        &&& unread_anyway(buf, b + 1, Set::empty())
        &&& register_of(buf[b].ins->Pop_0) != 0 ==> unread_anyway(buf, b + 1, rax_alone())
    }
}

/// Whether the instructions of `block` stand in `buf` from index `b` on.
pub open spec fn stands_at(buf: Seq<InstructionView>, b: int, block: Seq<InstructionView>) -> bool {
    &&& 0 <= b
    &&& b + block.len() <= buf.len()
    &&& forall|k: int| 0 <= k < block.len() ==> #[trigger] buf[b + k] == block[k]
}

/// One step of the scan, with what it asks of the steps after it.
proof fn lemma_step(buf: Seq<InstructionView>, i: int, dead: Set<int>)
    requires
        0 <= i < buf.len(),
        may_collapse(buf, i) ==> clean(buf[i].ins->Mov_1, dead) && unread_anyway(
            buf,
            i + 3,
            collapsed_dead(buf, i, dead),
        ),
        may_elide(buf, i) ==> unread_anyway(buf, i + 2, dead),
        unaffected(buf[i].ins, dead),
        unread_anyway(buf, i + 1, survivors(buf[i].ins, dead)),
    ensures
        unread_anyway(buf, i, dead),
{
}

/// Facts on the sets of registers that the proofs below meet.
proof fn lemma_sets()
    ensures
        forall|k: int| #[trigger] Set::<int>::empty().remove(k) == Set::<int>::empty(),
        forall|k: int| k != 0 ==> #[trigger] rax_alone().remove(k) == rax_alone(),
        rax_alone().remove(0) == Set::<int>::empty(),
        forall|k: int| k != 0 ==> !rax_alone().contains(k),
        forall|k: int| !Set::<int>::empty().contains(k),
        Set::<int>::empty().insert(0) == rax_alone(),
{
    assert forall|k: int| #[trigger] Set::<int>::empty().remove(k) == Set::<int>::empty() by {
        assert(Set::<int>::empty().remove(k) =~= Set::<int>::empty());
    }
    assert forall|k: int| k != 0 implies #[trigger] rax_alone().remove(k) == rax_alone() by {
        assert(rax_alone().remove(k) =~= rax_alone());
    }
    assert(rax_alone().remove(0) =~= Set::<int>::empty());
}

/// A register operand that is used as an integer register.
pub open spec fn reg(r: Register) -> Operand {
    Operand::Register(r, false)
}

/// A push of RAX at the end of the code of an opcode is safe where the code
/// after it is.
proof fn lemma_push_result(buf: Seq<InstructionView>, p: int)
    requires
        0 <= p < buf.len(),
        buf[p].ins == InstructionEnum::Push(reg(Register::RAX)),
        entry_ok(buf, p + 1),
    ensures
        unread_anyway(buf, p, Set::empty()),
{
    lemma_sets();
    lemma_step(buf, p, Set::empty());
}

/// A pop at the start of the code of an opcode is safe where what follows it
/// is.
proof fn lemma_first_pop(buf: Seq<InstructionView>, b: int, d: Register)
    requires
        0 <= b < buf.len(),
        buf[b].ins == InstructionEnum::Pop(reg(d)),
        unread_anyway(buf, b + 1, Set::empty()),
        d.index() != 0 ==> unread_anyway(buf, b + 1, rax_alone()),
    ensures
        entry_ok(buf, b),
{
    lemma_sets();
    lemma_step(buf, b, Set::empty());
}

/// An instruction in the middle of the code of an opcode, which is part of no
/// window, is safe where what follows it is.
proof fn lemma_inner(buf: Seq<InstructionView>, i: int, dead: Set<int>)
    requires
        0 <= i,
        i + 1 < buf.len(),
        !(buf[i].ins is Push),
        !(buf[i + 1].ins is Push),
        unaffected(buf[i].ins, dead),
        unread_anyway(buf, i + 1, survivors(buf[i].ins, dead)),
    ensures
        unread_anyway(buf, i, dead),
{
    lemma_step(buf, i, dead);
}

/// The last instruction of the code of an opcode, which is no push and no
/// move, is safe where the code after it is.
proof fn lemma_last(buf: Seq<InstructionView>, i: int, dead: Set<int>)
    requires
        0 <= i < buf.len(),
        !(buf[i].ins is Push),
        !(buf[i].ins is Mov),
        unaffected(buf[i].ins, dead),
        unread_anyway(buf, i + 1, survivors(buf[i].ins, dead)),
    ensures
        unread_anyway(buf, i, dead),
{
    lemma_step(buf, i, dead);
}

/// The moves of the arguments of a call and the call are safe, with RAX
/// among the registers that may differ or without, where the code after the
/// call is safe without.
proof fn lemma_call(buf: Seq<InstructionView>, i: int, n: int, dead: Set<int>)
    requires
        0 <= i,
        1 <= n <= 4,
        i + n < buf.len(),
        dead == rax_alone() || dead == Set::<int>::empty(),
        n >= 1 ==> buf[i].ins is Mov && buf[i].ins->Mov_0 == reg(Register::RCX)
            && buf[i].ins->Mov_1 is Immediate,
        n >= 2 ==> buf[i + 1].ins is Mov && buf[i + 1].ins->Mov_0 == reg(Register::RDX) && (
        buf[i + 1].ins->Mov_1 is Immediate || buf[i + 1].ins->Mov_1 == reg(Register::RDX)),
        n >= 3 ==> buf[i + 2].ins is Mov && buf[i + 2].ins->Mov_0 == reg(Register::R8) && buf[i
            + 2].ins->Mov_1 == reg(Register::R8),
        n <= 3,
        buf[i + n].ins is Call,
        unread_anyway(buf, i + n + 1, Set::empty()),
    ensures
        unread_anyway(buf, i, dead),
{
    lemma_sets();
    let kills = Set::<int>::empty();
    assert(survivors(buf[i + n].ins, dead) == kills);
    lemma_last(buf, i + n, dead);
    if n >= 3 {
        lemma_inner(buf, i + 2, dead);
    }
    if n >= 2 {
        lemma_inner(buf, i + 1, dead);
    }
    lemma_inner(buf, i, dead);
}

/// The code of an opcode that pops into RAX and ends with one more
/// instruction, or with none, is safe where the code after it is.
proof fn lemma_pop_rax_block(buf: Seq<InstructionView>, b: int, n: int)
    requires
        0 <= b,
        1 <= n <= 2,
        b + n <= buf.len(),
        buf[b].ins == InstructionEnum::Pop(reg(Register::RAX)),
        n == 2 ==> buf[b + 1].ins is Exit || buf[b + 1].ins is JumpBytecodeIfCmp,
        entry_ok(buf, b + n),
    ensures
        entry_ok(buf, b),
{
    lemma_sets();
    if n == 2 {
        lemma_last(buf, b + 1, Set::empty());
    }
    lemma_first_pop(buf, b, Register::RAX);
}

/// The code of a load of a constant is safe where the code after it is.
proof fn lemma_load_const_block(buf: Seq<InstructionView>, b: int)
    requires
        0 <= b,
        b + 2 <= buf.len(),
        buf[b].ins is Mov,
        buf[b].ins->Mov_0 == reg(Register::RAX),
        buf[b].ins->Mov_1 is Immediate,
        buf[b + 1].ins == InstructionEnum::Push(reg(Register::RAX)),
        entry_ok(buf, b + 2),
    ensures
        entry_ok(buf, b),
{
    lemma_sets();
    lemma_push_result(buf, b + 1);
    if may_collapse(buf, b) {
        let d = register_of(buf[b + 2].ins->Pop_0);
        if d == 0 {
            assert(collapsed_dead(buf, b, Set::empty()) == Set::<int>::empty());
        } else {
            assert(collapsed_dead(buf, b, Set::empty()) == rax_alone());
        }
    }
    lemma_step(buf, b, Set::empty());
}

/// The code of a store to a name is safe where the code after it is.
proof fn lemma_store_name_block(buf: Seq<InstructionView>, b: int)
    requires
        0 <= b,
        b + 5 <= buf.len(),
        buf[b].ins == InstructionEnum::Pop(reg(Register::R8)),
        buf[b + 1].ins is Mov && buf[b + 1].ins->Mov_0 == reg(Register::RCX)
            && buf[b + 1].ins->Mov_1 is Immediate,
        buf[b + 2].ins is Mov && buf[b + 2].ins->Mov_0 == reg(Register::RDX)
            && buf[b + 2].ins->Mov_1 is Immediate,
        buf[b + 3].ins is Mov && buf[b + 3].ins->Mov_0 == reg(Register::R8)
            && buf[b + 3].ins->Mov_1 == reg(Register::R8),
        buf[b + 4].ins is Call,
        entry_ok(buf, b + 5),
    ensures
        entry_ok(buf, b),
{
    lemma_call(buf, b + 1, 3, Set::empty());
    lemma_call(buf, b + 1, 3, rax_alone());
    lemma_first_pop(buf, b, Register::R8);
}

/// The code of a load of a name is safe where the code after it is.
proof fn lemma_load_name_block(buf: Seq<InstructionView>, b: int)
    requires
        0 <= b,
        b + 4 <= buf.len(),
        buf[b].ins is Mov && buf[b].ins->Mov_0 == reg(Register::RCX) && buf[b].ins->Mov_1
            is Immediate,
        buf[b + 1].ins is Mov && buf[b + 1].ins->Mov_0 == reg(Register::RDX)
            && buf[b + 1].ins->Mov_1 is Immediate,
        buf[b + 2].ins is Call,
        buf[b + 3].ins == InstructionEnum::Push(reg(Register::RAX)),
        entry_ok(buf, b + 4),
    ensures
        entry_ok(buf, b),
{
    lemma_push_result(buf, b + 3);
    lemma_sets();
    lemma_step(buf, b + 2, Set::empty());
    lemma_inner(buf, b + 1, Set::empty());
    lemma_inner(buf, b, Set::empty());
}

/// The code of an addition is safe where the code after it is.
proof fn lemma_binary_add_block(buf: Seq<InstructionView>, b: int)
    requires
        0 <= b,
        b + 8 <= buf.len(),
        buf[b].ins == InstructionEnum::Pop(reg(Register::R8)),
        buf[b + 1].ins == InstructionEnum::Pop(reg(Register::RDX)),
        buf[b + 2].ins == InstructionEnum::Mov(reg(Register::RAX), reg(Register::RDX)),
        buf[b + 3].ins == InstructionEnum::Shr(Register::RAX, 48),
        buf[b + 4].ins == InstructionEnum::Mov(reg(Register::RBX), reg(Register::R8)),
        buf[b + 5].ins == InstructionEnum::Shr(Register::RBX, 48),
        buf[b + 6].ins is IntFastSlowPathBinary,
        buf[b + 7].ins == InstructionEnum::Push(reg(Register::RAX)),
        entry_ok(buf, b + 8),
    ensures
        entry_ok(buf, b),
{
    lemma_sets();
    lemma_push_result(buf, b + 7);
    lemma_step(buf, b + 6, Set::empty());
    lemma_inner(buf, b + 5, Set::empty());
    lemma_inner(buf, b + 4, Set::empty());
    lemma_inner(buf, b + 3, Set::empty());
    lemma_inner(buf, b + 2, Set::empty());
    lemma_inner(buf, b + 2, rax_alone());
    lemma_inner(buf, b + 1, Set::empty());
    lemma_inner(buf, b + 1, rax_alone());
    lemma_first_pop(buf, b, Register::R8);
}

/// The code of a comparison is safe where the code after it is.
proof fn lemma_less_than_block(buf: Seq<InstructionView>, b: int)
    requires
        0 <= b,
        b + 7 <= buf.len(),
        buf[b].ins == InstructionEnum::Pop(reg(Register::R8)),
        buf[b + 1].ins == InstructionEnum::Pop(reg(Register::RDX)),
        buf[b + 2].ins is Mov && buf[b + 2].ins->Mov_0 == reg(Register::RCX)
            && buf[b + 2].ins->Mov_1 is Immediate,
        buf[b + 3].ins == InstructionEnum::Mov(reg(Register::RDX), reg(Register::RDX)),
        buf[b + 4].ins == InstructionEnum::Mov(reg(Register::R8), reg(Register::R8)),
        buf[b + 5].ins is Call,
        buf[b + 6].ins == InstructionEnum::Push(reg(Register::RAX)),
        entry_ok(buf, b + 7),
    ensures
        entry_ok(buf, b),
{
    lemma_sets();
    lemma_push_result(buf, b + 6);
    lemma_step(buf, b + 5, Set::empty());
    lemma_step(buf, b + 5, rax_alone());
    lemma_inner(buf, b + 4, Set::empty());
    lemma_inner(buf, b + 4, rax_alone());
    lemma_inner(buf, b + 3, Set::empty());
    lemma_inner(buf, b + 3, rax_alone());
    lemma_inner(buf, b + 2, Set::empty());
    lemma_inner(buf, b + 2, rax_alone());
    lemma_inner(buf, b + 1, Set::empty());
    lemma_inner(buf, b + 1, rax_alone());
    lemma_first_pop(buf, b, Register::R8);
}

/// The code of one opcode is safe to come to where the code after it is.
proof fn lemma_block(
    callbacks: Callbacks,
    pool: Seq<Constant>,
    heap: HeapView,
    opcode: Opcode,
    operand: u32,
    offset: u32,
    buf: Seq<InstructionView>,
    b: int,
)
    requires
        lowered_opcode(callbacks, pool, heap, opcode, operand, offset) is Ok,
        stands_at(buf, b, lowered_opcode(callbacks, pool, heap, opcode, operand, offset)->Ok_0.1),
        entry_ok(
            buf,
            b + lowered_opcode(callbacks, pool, heap, opcode, operand, offset)->Ok_0.1.len(),
        ),
    ensures
        entry_ok(buf, b),
{
    let block = lowered_opcode(callbacks, pool, heap, opcode, operand, offset)->Ok_0.1;
    let n = block.len() as int;
    assert forall|k: int| 0 <= k < n implies buf[b + k].ins == (#[trigger] block[k]).ins by {
        assert(buf[b + k] == block[k]);
    }
    match opcode {
        Opcode::JUMP => {
            assert(block[0].ins is JumpBytecode);
            lemma_sets();
            lemma_last(buf, b, Set::empty());
        },
        Opcode::POP_JUMP_IF_FALSE => {
            assert(block[0].ins == InstructionEnum::Pop(reg(Register::RAX)));
            assert(block[1].ins is JumpBytecodeIfCmp);
            lemma_pop_rax_block(buf, b, 2);
        },
        Opcode::POP_TOP => {
            assert(block[0].ins == InstructionEnum::Pop(reg(Register::RAX)));
            lemma_pop_rax_block(buf, b, 1);
        },
        Opcode::LOAD_CONST => {
            assert(block[0].ins is Mov);
            assert(block[1].ins == InstructionEnum::Push(reg(Register::RAX)));
            lemma_load_const_block(buf, b);
        },
        Opcode::STORE_NAME => {
            assert(block[0].ins == InstructionEnum::Pop(reg(Register::R8)));
            assert(block[1].ins is Mov);
            assert(block[2].ins is Mov);
            assert(block[3].ins is Mov);
            assert(block[4].ins is Call);
            lemma_store_name_block(buf, b);
        },
        Opcode::LOAD_NAME => {
            assert(block[0].ins is Mov);
            assert(block[1].ins is Mov);
            assert(block[2].ins is Call);
            assert(block[3].ins == InstructionEnum::Push(reg(Register::RAX)));
            lemma_load_name_block(buf, b);
        },
        Opcode::RETURN => {
            assert(block[0].ins == InstructionEnum::Pop(reg(Register::RAX)));
            assert(block[1].ins is Exit);
            lemma_pop_rax_block(buf, b, 2);
        },
        Opcode::BINARY_ADD => {
            assert(block[0].ins == InstructionEnum::Pop(reg(Register::R8)));
            assert(block[1].ins == InstructionEnum::Pop(reg(Register::RDX)));
            assert(block[2].ins is Mov);
            assert(block[3].ins is Shr);
            assert(block[4].ins is Mov);
            assert(block[5].ins is Shr);
            assert(block[6].ins is IntFastSlowPathBinary);
            assert(block[7].ins == InstructionEnum::Push(reg(Register::RAX)));
            lemma_binary_add_block(buf, b);
        },
        Opcode::BINARY_BOOLEAN_LESS_THAN => {
            assert(block[0].ins == InstructionEnum::Pop(reg(Register::R8)));
            assert(block[1].ins == InstructionEnum::Pop(reg(Register::RDX)));
            assert(block[2].ins is Mov);
            assert(block[3].ins is Mov);
            assert(block[4].ins is Mov);
            assert(block[5].ins is Call);
            assert(block[6].ins == InstructionEnum::Push(reg(Register::RAX)));
            lemma_less_than_block(buf, b);
        },
        _ => {},
    }
}

/// Lowering only adds to the buffer, and what it adds is safe to come to.
proof fn lemma_lowered_entry(
    callbacks: Callbacks,
    pool: Seq<Constant>,
    code: Seq<u8>,
    state: Lowering,
    pc: int,
)
    requires
        0 <= pc,
        lowered(callbacks, pool, code, state, pc) is Ok,
    ensures
        stands_at(lowered(callbacks, pool, code, state, pc)->Ok_0.buffer, 0, state.buffer),
        entry_ok(
            lowered(callbacks, pool, code, state, pc)->Ok_0.buffer,
            state.buffer.len() as int,
        ),
    decreases code.len() - pc,
{
    let last = lowered(callbacks, pool, code, state, pc)->Ok_0.buffer;
    if pc >= code.len() {
    } else {
        let opcode = opcode_of(code[pc])->0;
        let operand = if opcode.has_operand() {
            u32_at(code, pc + 1)
        } else {
            0
        };
        let lowering = lowered_opcode(callbacks, pool, state.heap, opcode, operand, pc as u32);
        let added = lowering->Ok_0.1;
        let next = Lowering { heap: lowering->Ok_0.0, buffer: state.buffer + added };
        let after = pc + (if opcode.has_operand() {
            5int
        } else {
            1int
        });
        assert(lowered(callbacks, pool, code, state, pc) == lowered(
            callbacks,
            pool,
            code,
            next,
            after,
        ));
        lemma_lowered_entry(callbacks, pool, code, next, after);
        let b = state.buffer.len() as int;
        assert forall|k: int| 0 <= k < state.buffer.len() implies #[trigger] last[0 + k]
            == state.buffer[k] by {
            assert(last[0 + k] == next.buffer[k]);
        }
        assert forall|k: int| 0 <= k < added.len() implies #[trigger] last[b + k] == added[k] by {
            assert(last[0 + (b + k)] == next.buffer[b + k]);
        }
        lemma_block(callbacks, pool, state.heap, opcode, operand, pc as u32, last, b);
    }
}

/// The code that lowering makes of bytecode, into an empty buffer, holds no
/// instruction that reads a register that a collapsed window before it no
/// longer sets.
pub proof fn lemma_lowered_code_is_unread(
    callbacks: Callbacks,
    pool: Seq<Constant>,
    code: Seq<u8>,
    heap: HeapView,
)
    requires
        lowered(callbacks, pool, code, Lowering { heap, buffer: Seq::empty() }, 0) is Ok,
    ensures
        scratch_unread(
            lowered(callbacks, pool, code, Lowering { heap, buffer: Seq::empty() }, 0)->Ok_0.buffer,
        ),
{
    let start = Lowering { heap, buffer: Seq::empty() };
    lemma_lowered_entry(callbacks, pool, code, start, 0);
    lemma_unread_anyway(lowered(callbacks, pool, code, start, 0)->Ok_0.buffer, 0, Set::empty());
}

/// The optimizer keeps what lowered code computes: where the instructions that
/// lowering makes of bytecode, entered in any state, return, the optimized
/// instructions, entered in the same state, return with the same RAX and
/// after the same calls of the helpers, which leave the same globals.
pub proof fn lemma_lowered_code_keeps_meaning(
    callbacks: Callbacks,
    pool: Seq<Constant>,
    code: Seq<u8>,
    heap: HeapView,
    helpers: Helpers,
    m: Native,
    fuel: nat,
)
    requires
        well_formed(m),
        lowered(callbacks, pool, code, Lowering { heap, buffer: Seq::empty() }, 0) is Ok,
        run(
            lowered(callbacks, pool, code, Lowering { heap, buffer: Seq::empty() }, 0)->Ok_0.buffer,
            helpers,
            m,
            0,
            fuel,
        ) is Some,
    ensures
        ({
            let buffer = lowered(
                callbacks,
                pool,
                code,
                Lowering { heap, buffer: Seq::empty() },
                0,
            )->Ok_0.buffer;
            exists|fuel2: nat|
                observed_alike(
                    run(buffer, helpers, m, 0, fuel),
                    #[trigger] run(optimized(buffer), helpers, m, 0, fuel2),
                )
        }),
{
    lemma_lowered_code_is_unread(callbacks, pool, code, heap);
    let buffer = lowered(
        callbacks,
        pool,
        code,
        Lowering { heap, buffer: Seq::empty() },
        0,
    )->Ok_0.buffer;
    lemma_optimizer_keeps_meaning(buffer, helpers, m, fuel);
}

} // verus!
