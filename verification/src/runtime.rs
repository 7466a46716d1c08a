//! The virtual machine: its globals and heap, the helpers that generated code
//! calls back into, the lowering of bytecode to pseudo-instructions, and the
//! interpreter.

use std::collections::VecDeque;
use vstd::prelude::*;
use crate::bytekod::{opcode_of, Constant, Module, Opcode};
use crate::bytes::u32_at;
use crate::compiler::{
    argument_moves, binary_add_sequence, compilable, compiled_buffer, fresh, machine_code,
    optimized, InstructionEnum, InstructionView, JitCompiler,
};
use crate::assembler::enter_bytes;
use crate::heap::{GarbageCollector, HeapView, VMValue, VMValueView};
use crate::object::{
    pack, payload_bits, signed_payload, tag_bits, Object, ObjectTag, PAYLOAD_MASK,
};
use crate::operand::{Condition, Immediate, Operand, Register};

verus! {

/// A frame of the call stack.
pub struct CallFrame {
    pub ip: usize,
    pub locals: Vec<u64>,
}

/// The state of the interpreter.
pub struct VMState {
    pub gc: GarbageCollector,
    pub call_stack: VecDeque<CallFrame>,
    pub stack: Vec<Object>,
}

impl VMState {
    pub fn new() -> (state: VMState)
        ensures
            state.gc@.objects == Seq::<crate::heap::VMObjectView>::empty(),
            state.gc@.roots == Set::<u64>::empty(),
            state.gc@.next == 0,
            state.call_stack@.len() == 0,
            state.stack@ == Seq::<Object>::empty(),
    {
        VMState { gc: GarbageCollector::new(), call_stack: VecDeque::new(), stack: Vec::new() }
    }
}

/// The addresses that generated code passes and calls: the virtual machine
/// itself, which every helper takes as its first argument, and the helpers.
#[derive(Debug, Clone, Copy, PartialEq, Eq, Structural)]
pub struct Callbacks {
    pub vm: u64,
    pub store_name: u64,
    pub load_name: u64,
    pub rust_add: u64,
    pub rust_lt: u64,
}

/// Why bytecode cannot be run.
#[derive(Debug, Clone, Copy, PartialEq, Eq, Structural)]
pub enum VmError {
    /// A byte in the place of an opcode stands for none.
    InvalidOpcode(u8),
    /// The code ends inside the operand of the opcode.
    MissingOperand(Opcode),
    /// The constant pool has no entry with the index.
    ConstantOutOfRange(u32),
    /// The constant with the index is of a kind that cannot be loaded.
    UnsupportedConstant(u32),
    /// The opcode is outside the subset that is implemented.
    UnsupportedOpcode(Opcode),
    /// A value is taken from the empty stack.
    StackUnderflow(Opcode),
    /// No global with the index has been stored.
    NameOutOfRange(u32),
    /// The instructions cannot be compiled: a jump goes to a bytecode offset
    /// at which no instruction starts, or the encoder does not take the
    /// operands of an instruction that was in the buffer before.
    Uncompilable,
    /// The packed value that the code returned cannot be shown.
    UnsupportedResult(u64),
}

/// The packed null value.
pub open spec fn null_bits() -> u64 {
    pack(ObjectTag::Null.number(), 0)
}

/// The globals after `bits` was stored under `index`: they grow to hold every
/// name of the module, and the index, and what is new holds null.
pub open spec fn stored_globals(globals: Seq<u64>, names: nat, index: u32, bits: u64) -> Seq<u64> {
    let size = if globals.len() > index {
        globals.len()
    } else if names > index {
        names
    } else {
        (index + 1) as nat
    };
    Seq::new(
        size,
        |i: int|
            if i == index {
                bits
            } else if i < globals.len() {
                globals[i]
            } else {
                null_bits()
            },
    )
}

/// The sum of two packed integers: a packed integer whose payload is the sum
/// of their payloads, cut to 48 bits.
pub open spec fn added(lhs: u64, rhs: u64) -> u64 {
    pack(ObjectTag::Int.number(), (payload_bits(lhs) + payload_bits(rhs)) as u64)
}

/// Whether `lhs` is below `rhs`. Two integers are compared as the signed
/// integers that their payloads stand for; any other two values by their
/// payloads as they are.
pub open spec fn below(lhs: u64, rhs: u64) -> bool {
    if tag_bits(lhs) == ObjectTag::Int.number() && tag_bits(rhs) == ObjectTag::Int.number() {
        signed_payload(lhs) < signed_payload(rhs)
    } else {
        payload_bits(lhs) < payload_bits(rhs)
    }
}

/// The packed integer 1 if `lhs` is below `rhs`, else the packed integer 0.
pub open spec fn less_than(lhs: u64, rhs: u64) -> u64 {
    pack(
        ObjectTag::Int.number(),
        if below(lhs, rhs) {
            1
        } else {
            0
        },
    )
}

/// The packed value that stands for a constant, and the heap after the
/// constant was made: a string or a code object goes to the heap as a root,
/// and its packed value is a pointer with its handle. A tuple has none.
pub open spec fn materialized(heap: HeapView, constant: Constant) -> Option<(HeapView, u64)> {
    match constant {
        Constant::Null => Some((heap, null_bits())),
        Constant::Int(i) => Some((heap, pack(ObjectTag::Int.number(), i as u64))),
        Constant::Float(f) => Some((heap, pack(ObjectTag::Float.number(), f.whole))),
        Constant::String(s) => Some(
            (
                heap.with_object(VMValueView::String(s@)),
                pack(ObjectTag::Pointer.number(), heap.next),
            ),
        ),
        Constant::Code(code) => Some(
            (
                heap.with_object(VMValueView::Code(code@)),
                pack(ObjectTag::Pointer.number(), heap.next),
            ),
        ),
        Constant::Tuple(_) => None,
    }
}

/// The instructions of a call: the arguments are moved into their registers,
/// then the function at `callee` is called.
pub open spec fn call_sequence(bytecode_offset: u32, callee: u64, args: Seq<Operand>) -> Seq<
    InstructionView,
> {
    argument_moves(bytecode_offset, args).push(fresh(bytecode_offset, InstructionEnum::Call(callee)))
}

/// The instruction that pops into `register`.
pub open spec fn pop_into(bytecode_offset: u32, register: Register) -> InstructionView {
    fresh(bytecode_offset, InstructionEnum::Pop(Operand::Register(register, false)))
}

/// The instruction that pushes RAX.
pub open spec fn push_result(bytecode_offset: u32) -> InstructionView {
    fresh(bytecode_offset, InstructionEnum::Push(Operand::Register(Register::RAX, false)))
}

/// The instructions that push a packed value, which goes through RAX.
pub open spec fn push_bits(bytecode_offset: u32, bits: u64) -> Seq<InstructionView> {
    seq![
        fresh(
            bytecode_offset,
            InstructionEnum::Mov(
                Operand::Register(Register::RAX, false),
                Operand::Immediate(Immediate::Immediate64(bits)),
            ),
        ),
        push_result(bytecode_offset),
    ]
}

/// The heap and the instruction buffer while bytecode is lowered.
pub struct Lowering {
    pub heap: HeapView,
    pub buffer: Seq<InstructionView>,
}

/// What lowering one opcode, found at `offset` with the given operand, adds
/// to the buffer and makes of the heap. The native stack is the operand
/// stack; a helper is called with the machine in RCX and leaves its result in
/// RAX.
pub open spec fn lowered_opcode(
    callbacks: Callbacks,
    pool: Seq<Constant>,
    heap: HeapView,
    opcode: Opcode,
    operand: u32,
    offset: u32,
) -> Result<(HeapView, Seq<InstructionView>), VmError> {
    let vm = Operand::Immediate(Immediate::Immediate64(callbacks.vm));
    let index = Operand::Immediate(Immediate::Immediate32(operand));
    let r8 = Operand::Register(Register::R8, false);
    let rdx = Operand::Register(Register::RDX, false);
    match opcode {
        Opcode::JUMP => Ok((heap, seq![fresh(offset, InstructionEnum::JumpBytecode(operand))])),
        Opcode::POP_JUMP_IF_FALSE => Ok(
            (
                heap,
                seq![
                    pop_into(offset, Register::RAX),
                    fresh(
                        offset,
                        InstructionEnum::JumpBytecodeIfCmp(
                            Operand::Register(Register::RAX, false),
                            Condition::EqualTo,
                            Operand::Immediate(Immediate::Immediate8(0)),
                            operand,
                        ),
                    ),
                ],
            ),
        ),
        Opcode::POP_TOP => Ok((heap, seq![pop_into(offset, Register::RAX)])),
        Opcode::LOAD_CONST => {
            if operand >= pool.len() {
                Err(VmError::ConstantOutOfRange(operand))
            } else {
                match materialized(heap, pool[operand as int]) {
                    Some((after, bits)) => Ok((after, push_bits(offset, bits))),
                    None => Err(VmError::UnsupportedConstant(operand)),
                }
            }
        },
        Opcode::STORE_NAME => Ok(
            (
                heap,
                seq![pop_into(offset, Register::R8)] + call_sequence(
                    offset,
                    callbacks.store_name,
                    seq![vm, index, r8],
                ),
            ),
        ),
        Opcode::LOAD_NAME => Ok(
            (
                heap,
                call_sequence(offset, callbacks.load_name, seq![vm, index]).push(
                    push_result(offset),
                ),
            ),
        ),
        Opcode::RETURN => Ok(
            (heap, seq![pop_into(offset, Register::RAX), fresh(offset, InstructionEnum::Exit)]),
        ),
        Opcode::BINARY_ADD => Ok(
            (
                heap,
                binary_add_sequence(offset, callbacks.vm, callbacks.rust_add).push(
                    push_result(offset),
                ),
            ),
        ),
        Opcode::BINARY_BOOLEAN_LESS_THAN => Ok(
            (
                heap,
                (seq![pop_into(offset, Register::R8), pop_into(offset, Register::RDX)]
                    + call_sequence(offset, callbacks.rust_lt, seq![vm, rdx, r8])).push(
                    push_result(offset),
                ),
            ),
        ),
        other => Err(VmError::UnsupportedOpcode(other)),
    }
}

/// Whether lowering implements the opcode.
pub open spec fn in_subset(opcode: Opcode) -> bool {
    match opcode {
        Opcode::JUMP
        | Opcode::POP_JUMP_IF_FALSE
        | Opcode::POP_TOP
        | Opcode::LOAD_CONST
        | Opcode::STORE_NAME
        | Opcode::LOAD_NAME
        | Opcode::RETURN
        | Opcode::BINARY_ADD
        | Opcode::BINARY_BOOLEAN_LESS_THAN => true,
        _ => false,
    }
}

/// The first opcode outside the subset that is met when the bytecode is read
/// from offset `pc` on, opcode by opcode with its operand. There is none
/// where the reading ends first: at the end of the code, at a byte that stands
/// for no opcode, or at an operand that the code does not hold.
pub open spec fn first_unsupported(code: Seq<u8>, pc: int) -> Option<Opcode>
    decreases code.len() - pc,
{
    if pc < 0 || pc >= code.len() {
        None
    } else {
        match opcode_of(code[pc]) {
            None => None,
            Some(opcode) => {
                if !in_subset(opcode) {
                    Some(opcode)
                } else if opcode.has_operand() {
                    if pc + 5 > code.len() {
                        None
                    } else {
                        first_unsupported(code, pc + 5)
                    }
                } else {
                    first_unsupported(code, pc + 1)
                }
            },
        }
    }
}

/// What lowering the bytecode from offset `pc` on makes of the buffer and the
/// heap, or the first error it meets.
pub open spec fn lowered(
    callbacks: Callbacks,
    pool: Seq<Constant>,
    code: Seq<u8>,
    state: Lowering,
    pc: int,
) -> Result<Lowering, VmError>
    decreases code.len() - pc,
{
    if pc < 0 || pc >= code.len() {
        Ok(state)
    } else {
        match opcode_of(code[pc]) {
            None => Err(VmError::InvalidOpcode(code[pc])),
            Some(opcode) => {
                if !in_subset(opcode) {
                    Err(VmError::UnsupportedOpcode(opcode))
                } else if opcode.has_operand() && pc + 5 > code.len() {
                    Err(VmError::MissingOperand(opcode))
                } else {
                    let operand = if opcode.has_operand() {
                        u32_at(code, pc + 1)
                    } else {
                        0
                    };
                    match lowered_opcode(
                        callbacks,
                        pool,
                        state.heap,
                        opcode,
                        operand,
                        pc as u32,
                    ) {
                        Err(e) => Err(e),
                        Ok((heap, added)) => lowered(
                            callbacks,
                            pool,
                            code,
                            Lowering { heap, buffer: state.buffer + added },
                            pc + (if opcode.has_operand() {
                                5int
                            } else {
                                1int
                            }),
                        ),
                    }
                }
            },
        }
    }
}

/// Makes the packed value that stands for a constant. A string or a code
/// object is copied to the heap and made a root.
pub fn materialize(gc: &mut GarbageCollector, constant: &Constant) -> (r: Option<Object>)
    requires
        old(gc)@.next < u64::MAX,
    ensures
        match materialized(old(gc)@, *constant) {
            Some((heap, bits)) => r is Some && r->0@ == bits && final(gc)@ == heap,
            None => r is None && final(gc)@ == old(gc)@,
        },
{
    match constant {
        Constant::Null => Some(Object::new(0, ObjectTag::Null)),
        Constant::Int(i) => Some(Object::new(#[verifier::truncate] (*i as u64), ObjectTag::Int)),
        Constant::Float(f) => Some(Object::new(f.whole, ObjectTag::Float)),
        Constant::String(s) => {
            let handle = gc.allocate();
            gc.store(handle, &VMValue::String(s.clone()));
            gc.add_root(handle);
            Some(Object::new(handle, ObjectTag::Pointer))
        },
        Constant::Code(code) => {
            let handle = gc.allocate();
            gc.store(handle, &VMValue::Code(code.duplicate()));
            gc.add_root(handle);
            Some(Object::new(handle, ObjectTag::Pointer))
        },
        Constant::Tuple(_) => None,
    }
}

/// What the interpreter reports while it runs.
#[derive(Debug, Clone, Copy, PartialEq, Eq, Structural)]
pub enum Event {
    /// The opcode at the offset is about to run.
    Step(u32, Opcode),
    /// The packed value was popped and dropped.
    Popped(u64),
    /// The packed value was returned.
    Returned(u64),
}

/// The packed values of a stack, the oldest first.
pub open spec fn bits_of(stack: Seq<Object>) -> Seq<u64> {
    stack.map_values(|o: Object| o@)
}

/// The state that the interpreter works on, and what it has reported.
pub struct Machine {
    pub heap: HeapView,
    pub stack: Seq<u64>,
    pub globals: Seq<u64>,
    pub events: Seq<Event>,
}

/// Whether the interpreter implements the opcode.
pub open spec fn interpreted_subset(opcode: Opcode) -> bool {
    match opcode {
        Opcode::LOAD_CONST
        | Opcode::STORE_NAME
        | Opcode::LOAD_NAME
        | Opcode::POP_TOP
        | Opcode::RETURN => true,
        _ => false,
    }
}

/// The machine after one opcode of the subset ran with the given operand.
pub open spec fn stepped(
    pool: Seq<Constant>,
    names: nat,
    m: Machine,
    opcode: Opcode,
    operand: u32,
) -> Result<Machine, VmError> {
    match opcode {
        Opcode::LOAD_CONST => {
            if operand >= pool.len() {
                Err(VmError::ConstantOutOfRange(operand))
            } else {
                match materialized(m.heap, pool[operand as int]) {
                    Some((heap, bits)) => Ok(Machine { heap, stack: m.stack.push(bits), ..m }),
                    None => Err(VmError::UnsupportedConstant(operand)),
                }
            }
        },
        Opcode::STORE_NAME => {
            if m.stack.len() == 0 {
                Err(VmError::StackUnderflow(opcode))
            } else {
                Ok(
                    Machine {
                        stack: m.stack.drop_last(),
                        globals: stored_globals(m.globals, names, operand, m.stack.last()),
                        ..m
                    },
                )
            }
        },
        Opcode::LOAD_NAME => {
            if operand >= m.globals.len() {
                Err(VmError::NameOutOfRange(operand))
            } else {
                Ok(Machine { stack: m.stack.push(m.globals[operand as int]), ..m })
            }
        },
        Opcode::POP_TOP => {
            if m.stack.len() == 0 {
                Ok(m)
            } else {
                Ok(
                    Machine {
                        stack: m.stack.drop_last(),
                        events: m.events.push(Event::Popped(m.stack.last())),
                        ..m
                    },
                )
            }
        },
        _ => {
            if m.stack.len() == 0 {
                Ok(m)
            } else {
                Ok(
                    Machine {
                        stack: m.stack.drop_last(),
                        events: m.events.push(Event::Returned(m.stack.last())),
                        ..m
                    },
                )
            }
        },
    }
}

/// The machine after the bytecode from offset `pc` on ran, or the first error
/// it met. Every opcode is reported before it runs, and the code runs to its
/// end.
pub open spec fn interpreted(
    pool: Seq<Constant>,
    names: nat,
    code: Seq<u8>,
    m: Machine,
    pc: int,
) -> Result<Machine, VmError>
    decreases code.len() - pc,
{
    if pc < 0 || pc >= code.len() {
        Ok(m)
    } else {
        match opcode_of(code[pc]) {
            None => Err(VmError::InvalidOpcode(code[pc])),
            Some(opcode) => {
                if !interpreted_subset(opcode) {
                    Err(VmError::UnsupportedOpcode(opcode))
                } else if opcode.has_operand() && pc + 5 > code.len() {
                    Err(VmError::MissingOperand(opcode))
                } else {
                    let operand = if opcode.has_operand() {
                        u32_at(code, pc + 1)
                    } else {
                        0
                    };
                    let reported = Machine {
                        events: m.events.push(Event::Step(pc as u32, opcode)),
                        ..m
                    };
                    match stepped(pool, names, reported, opcode, operand) {
                        Err(e) => Err(e),
                        Ok(after) => interpreted(
                            pool,
                            names,
                            code,
                            after,
                            pc + (if opcode.has_operand() {
                                5int
                            } else {
                                1int
                            }),
                        ),
                    }
                }
            },
        }
    }
}

/// What generated code returned, for the caller to show.
#[derive(Debug, Clone, PartialEq, Eq)]
pub enum JitResult {
    Null,
    Int(u64),
    String(String),
}

pub enum JitResultView {
    Null,
    Int(u64),
    String(Seq<char>),
}

impl View for JitResult {
    type V = JitResultView;

    open spec fn view(&self) -> JitResultView {
        match self {
            JitResult::Null => JitResultView::Null,
            JitResult::Int(i) => JitResultView::Int(*i),
            JitResult::String(s) => JitResultView::String(s@),
        }
    }
}

/// What a packed value shows: null, the payload of an integer, or the string
/// that a pointer refers to. Other values show nothing.
pub open spec fn shown(heap: HeapView, bits: u64) -> Option<JitResultView> {
    if tag_bits(bits) == ObjectTag::Null.number() {
        Some(JitResultView::Null)
    } else if tag_bits(bits) == ObjectTag::Int.number() {
        Some(JitResultView::Int(payload_bits(bits)))
    } else if tag_bits(bits) == ObjectTag::Pointer.number() {
        let at = heap.position(payload_bits(bits));
        if at < heap.objects.len() && heap.objects[at].value is String {
            Some(JitResultView::String(heap.objects[at].value->String_0))
        } else {
            None
        }
    } else {
        None
    }
}

/// The virtual machine.
pub struct VM {
    pub state: VMState,
    pub module: Module,
    pub globals: Vec<u64>,
    pub jc: JitCompiler,
}

impl VM {
    /// A machine for `module` with no globals, an empty heap and no code.
    pub fn new(module: Module) -> (vm: Self)
        ensures
            vm.module == module,
            vm.globals@ == Seq::<u64>::empty(),
            vm.state.stack@ == Seq::<Object>::empty(),
            vm.state.gc@.objects == Seq::<crate::heap::VMObjectView>::empty(),
            vm.state.gc@.roots == Set::<u64>::empty(),
            vm.state.gc@.next == 0,
            vm.jc.buffer() == Seq::<InstructionView>::empty(),
            vm.jc.assembler@ == Seq::<u8>::empty(),
    {
        Self { state: VMState::new(), module, globals: Vec::new(), jc: JitCompiler::new() }
    }

    /// Stores `obj` as the global with the given index and returns it. The
    /// globals grow as far as needed, and what is new holds null.
    pub fn store_name(&mut self, name_index: u32, obj: Object) -> (r: Object)
        requires
            name_index < usize::MAX,
        ensures
            r == obj,
            final(self).globals@ == stored_globals(
                old(self).globals@,
                old(self).module.name_pool@.len(),
                name_index,
                obj@,
            ),
            final(self).state == old(self).state,
            final(self).module == old(self).module,
            final(self).jc == old(self).jc,
    {
        let index = name_index as usize;
        if self.globals.len() <= index {
            let names = self.module.name_pool.len();
            let size = if names > index {
                names
            } else {
                index + 1
            };
            let null = Object::new(0, ObjectTag::Null).encode();
            while self.globals.len() < size
                invariant
                    old(self).globals@.len() <= self.globals@.len() <= size,
                    null == null_bits(),
                    self.state == old(self).state,
                    self.module == old(self).module,
                    self.jc == old(self).jc,
                    forall|i: int|
                        0 <= i < self.globals@.len() ==> #[trigger] self.globals@[i] == (if i < old(
                            self,
                        ).globals@.len() {
                            old(self).globals@[i]
                        } else {
                            null
                        }),
                decreases size - self.globals@.len(),
            {
                self.globals.push(null);
            }
        }
        self.globals[index] = obj.encode();
        assert(self.globals@ =~= stored_globals(
            old(self).globals@,
            old(self).module.name_pool@.len(),
            name_index,
            obj@,
        ));
        obj
    }

    /// Whether a global with the given index has been stored, so that
    /// `load_name` may be called.
    pub fn has_name(&self, name_index: u32) -> (b: bool)
        ensures
            b == (name_index < self.globals@.len()),
    {
        (name_index as usize) < self.globals.len()
    }

    /// The global with the given index.
    pub fn load_name(&mut self, name_index: u32) -> (r: Object)
        requires
            name_index < old(self).globals@.len(),
        ensures
            r@ == old(self).globals@[name_index as int],
            *final(self) == *old(self),
    {
        Object::from(self.globals[name_index as usize])
    }

    /// Lowers one opcode of the subset, found at `offset` with the given
    /// operand.
    fn lower_opcode(&mut self, callbacks: &Callbacks, opcode: Opcode, operand: u32, offset: u32) -> (r:
        Result<(), VmError>)
        requires
            in_subset(opcode),
            old(self).state.gc@.next < u64::MAX,
        ensures
            match lowered_opcode(
                *callbacks,
                old(self).module.constant_pool@,
                old(self).state.gc@,
                opcode,
                operand,
                offset,
            ) {
                Ok((heap, added)) => {
                    &&& r is Ok
                    &&& final(self).state.gc@ == heap
                    &&& final(self).jc.buffer() == old(self).jc.buffer() + added
                },
                Err(e) => r == Err::<(), VmError>(e),
            },
            r is Err ==> !(r->Err_0 is UnsupportedOpcode),
            final(self).jc.assembler == old(self).jc.assembler,
            final(self).module == old(self).module,
            final(self).globals == old(self).globals,
            final(self).state.gc@.next <= old(self).state.gc@.next + 1,
    {
        let ghost before = self.jc.buffer();
        match opcode {
            Opcode::JUMP => {
                self.jc.compile_jump_bytecode(offset, operand);
                assert(self.jc.buffer() =~= before + seq![
                    fresh(offset, InstructionEnum::JumpBytecode(operand)),
                ]);
            },
            Opcode::POP_JUMP_IF_FALSE => {
                self.jc.compile_pop_jump_if_false_bytecode(offset, operand);
                assert(self.jc.buffer() =~= before + lowered_opcode(
                    *callbacks,
                    self.module.constant_pool@,
                    self.state.gc@,
                    opcode,
                    operand,
                    offset,
                )->Ok_0.1);
            },
            Opcode::POP_TOP => {
                self.jc.compile_pop(offset, Register::RAX);
                assert(self.jc.buffer() =~= before + seq![pop_into(offset, Register::RAX)]);
            },
            Opcode::LOAD_CONST => {
                if operand as usize >= self.module.constant_pool.len() {
                    return Err(VmError::ConstantOutOfRange(operand));
                }
                match materialize(&mut self.state.gc, &self.module.constant_pool[operand as usize]) {
                    Some(obj) => {
                        self.jc.compile_push_immediate(
                            offset,
                            Immediate::Immediate64(obj.encode()),
                        );
                        assert(self.jc.buffer() =~= before + push_bits(offset, obj@));
                    },
                    None => {
                        return Err(VmError::UnsupportedConstant(operand));
                    },
                }
            },
            Opcode::STORE_NAME => {
                self.jc.compile_pop(offset, Register::R8);
                let mut args: Vec<Operand> = Vec::new();
                args.push(Operand::Immediate(Immediate::Immediate64(callbacks.vm)));
                args.push(Operand::Immediate(Immediate::Immediate32(operand)));
                args.push(Operand::Register(Register::R8, false));
                assert(args@ =~= seq![
                    Operand::Immediate(Immediate::Immediate64(callbacks.vm)),
                    Operand::Immediate(Immediate::Immediate32(operand)),
                    Operand::Register(Register::R8, false),
                ]);
                self.jc.compile_call(offset, callbacks.store_name, args);
                assert(self.jc.buffer() =~= before + lowered_opcode(
                    *callbacks,
                    self.module.constant_pool@,
                    self.state.gc@,
                    opcode,
                    operand,
                    offset,
                )->Ok_0.1);
            },
            Opcode::LOAD_NAME => {
                let mut args: Vec<Operand> = Vec::new();
                args.push(Operand::Immediate(Immediate::Immediate64(callbacks.vm)));
                args.push(Operand::Immediate(Immediate::Immediate32(operand)));
                assert(args@ =~= seq![
                    Operand::Immediate(Immediate::Immediate64(callbacks.vm)),
                    Operand::Immediate(Immediate::Immediate32(operand)),
                ]);
                self.jc.compile_call(offset, callbacks.load_name, args);
                self.jc.compile_push(offset, Operand::Register(Register::RAX, false));
                assert(self.jc.buffer() =~= before + lowered_opcode(
                    *callbacks,
                    self.module.constant_pool@,
                    self.state.gc@,
                    opcode,
                    operand,
                    offset,
                )->Ok_0.1);
            },
            Opcode::RETURN => {
                self.jc.compile_return(offset);
                assert(self.jc.buffer() =~= before + seq![
                    pop_into(offset, Register::RAX),
                    fresh(offset, InstructionEnum::Exit),
                ]);
            },
            Opcode::BINARY_ADD => {
                self.jc.compile_binary_add(offset, callbacks.vm, callbacks.rust_add);
                self.jc.compile_push(offset, Operand::Register(Register::RAX, false));
                assert(self.jc.buffer() =~= before + binary_add_sequence(
                    offset,
                    callbacks.vm,
                    callbacks.rust_add,
                ).push(push_result(offset)));
            },
            _ => {
                self.jc.compile_pop(offset, Register::R8);
                self.jc.compile_pop(offset, Register::RDX);
                let mut args: Vec<Operand> = Vec::new();
                args.push(Operand::Immediate(Immediate::Immediate64(callbacks.vm)));
                args.push(Operand::Register(Register::RDX, false));
                args.push(Operand::Register(Register::R8, false));
                assert(args@ =~= seq![
                    Operand::Immediate(Immediate::Immediate64(callbacks.vm)),
                    Operand::Register(Register::RDX, false),
                    Operand::Register(Register::R8, false),
                ]);
                self.jc.compile_call(offset, callbacks.rust_lt, args);
                self.jc.compile_push(offset, Operand::Register(Register::RAX, false));
                assert(self.jc.buffer() =~= before + lowered_opcode(
                    *callbacks,
                    self.module.constant_pool@,
                    self.state.gc@,
                    opcode,
                    operand,
                    offset,
                )->Ok_0.1);
            },
        }
        Ok(())
    }

    /// The first opcode of the entry code that lowering does not implement,
    /// if the code holds one. `lower` and `run_jit` take only code that holds
    /// none.
    pub fn unsupported_opcode(&self) -> (r: Option<Opcode>)
        ensures
            r == first_unsupported(self.module.entry.code@, 0),
    {
        let ghost code = self.module.entry.code@;
        let mut i: usize = 0;
        while i < self.module.entry.code.len()
            invariant
                code == self.module.entry.code@,
                i <= code.len(),
                first_unsupported(code, 0) == first_unsupported(code, i as int),
            decreases code.len() - i,
        {
            let byte = self.module.entry.read8(&mut i);
            let opcode = match Opcode::try_from(byte) {
                Ok(opcode) => opcode,
                Err(_) => {
                    return None;
                },
            };
            let supported = match opcode {
                Opcode::JUMP
                | Opcode::POP_JUMP_IF_FALSE
                | Opcode::POP_TOP
                | Opcode::LOAD_CONST
                | Opcode::STORE_NAME
                | Opcode::LOAD_NAME
                | Opcode::RETURN
                | Opcode::BINARY_ADD
                | Opcode::BINARY_BOOLEAN_LESS_THAN => true,
                _ => false,
            };
            if !supported {
                return Some(opcode);
            }
            if opcode.takes_operand() {
                if self.module.entry.code.len() - i < 4 {
                    return None;
                }
                i += 4;
            }
        }
        None
    }

    /// Lowers the entry code of the module to pseudo-instructions, which are
    /// appended to the buffer of the compiler. The code holds no opcode
    /// outside the subset.
    pub fn lower(&mut self, callbacks: &Callbacks) -> (r: Result<(), VmError>)
        requires
            old(self).module.entry.code@.len() <= u32::MAX,
            old(self).state.gc@.next + old(self).module.entry.code@.len() <= PAYLOAD_MASK,
            first_unsupported(old(self).module.entry.code@, 0) is None,
        ensures
            match lowered(
                *callbacks,
                old(self).module.constant_pool@,
                old(self).module.entry.code@,
                Lowering { heap: old(self).state.gc@, buffer: old(self).jc.buffer() },
                0,
            ) {
                Ok(state) => {
                    &&& r is Ok
                    &&& final(self).state.gc@ == state.heap
                    &&& final(self).jc.buffer() == state.buffer
                },
                Err(e) => r == Err::<(), VmError>(e),
            },
            r is Err ==> !(r->Err_0 is UnsupportedOpcode),
            final(self).jc.assembler == old(self).jc.assembler,
            final(self).module == old(self).module,
            final(self).globals == old(self).globals,
    {
        let ghost pool = self.module.constant_pool@;
        let ghost code = self.module.entry.code@;
        let ghost goal = lowered(
            *callbacks,
            pool,
            code,
            Lowering { heap: self.state.gc@, buffer: self.jc.buffer() },
            0,
        );
        let mut i: usize = 0;
        while i < self.module.entry.code.len()
            invariant
                self.module == old(self).module,
                self.globals == old(self).globals,
                self.jc.assembler == old(self).jc.assembler,
                pool == self.module.constant_pool@,
                code == self.module.entry.code@,
                code.len() <= u32::MAX,
                i <= code.len(),
                self.state.gc@.next <= old(self).state.gc@.next + i,
                old(self).state.gc@.next + code.len() <= PAYLOAD_MASK,
                first_unsupported(code, i as int) is None,
                goal == lowered(
                    *callbacks,
                    old(self).module.constant_pool@,
                    old(self).module.entry.code@,
                    Lowering { heap: old(self).state.gc@, buffer: old(self).jc.buffer() },
                    0,
                ),
                goal == lowered(
                    *callbacks,
                    pool,
                    code,
                    Lowering { heap: self.state.gc@, buffer: self.jc.buffer() },
                    i as int,
                ),
            decreases code.len() - i,
        {
            let ghost pc = i as int;
            let ghost here = Lowering { heap: self.state.gc@, buffer: self.jc.buffer() };
            let offset = i as u32;
            let byte = self.module.entry.read8(&mut i);
            assert(byte == code[pc]);
            let opcode = match Opcode::try_from(byte) {
                Ok(opcode) => opcode,
                Err(_) => {
                    assert(lowered(*callbacks, pool, code, here, pc) == Err::<Lowering, VmError>(
                        VmError::InvalidOpcode(byte),
                    ));
                    return Err(VmError::InvalidOpcode(byte));
                },
            };
            assert(opcode_of(code[pc]) == Some(opcode));
            assert(in_subset(opcode));
            let mut operand: u32 = 0;
            if opcode.takes_operand() {
                if self.module.entry.code.len() - i < 4 {
                    assert(lowered(*callbacks, pool, code, here, pc) == Err::<Lowering, VmError>(
                        VmError::MissingOperand(opcode),
                    ));
                    return Err(VmError::MissingOperand(opcode));
                }
                operand = self.module.entry.read32(&mut i);
            }
            assert(first_unsupported(code, i as int) is None);
            assert(lowered(*callbacks, pool, code, here, pc) == (match lowered_opcode(
                *callbacks,
                pool,
                here.heap,
                opcode,
                operand,
                offset,
            ) {
                Err(e) => Err(e),
                Ok((heap, added)) => lowered(
                    *callbacks,
                    pool,
                    code,
                    Lowering { heap, buffer: here.buffer + added },
                    i as int,
                ),
            }));
            match self.lower_opcode(callbacks, opcode, operand, offset) {
                Ok(()) => {},
                Err(e) => {
                    return Err(e);
                },
            }
        }
        Ok(())
    }

    /// Lowers the entry code of the module and compiles it. The machine code
    /// is then in the assembler of the compiler; to run it is left to the
    /// caller, who hands what it returned to `jit_result`. The code holds no
    /// opcode outside the subset. Where the call fails, no machine code was
    /// emitted.
    pub fn run_jit(&mut self, callbacks: &Callbacks) -> (r: Result<(), VmError>)
        requires
            old(self).module.entry.code@.len() <= u32::MAX,
            old(self).state.gc@.next + old(self).module.entry.code@.len() <= PAYLOAD_MASK,
            first_unsupported(old(self).module.entry.code@, 0) is None,
        ensures
            match lowered(
                *callbacks,
                old(self).module.constant_pool@,
                old(self).module.entry.code@,
                Lowering { heap: old(self).state.gc@, buffer: old(self).jc.buffer() },
                0,
            ) {
                Ok(state) => {
                    if compilable(state.buffer) {
                        &&& r is Ok
                        &&& final(self).state.gc@ == state.heap
                        &&& final(self).jc.assembler@ == old(self).jc.assembler@ + machine_code(
                            optimized(state.buffer),
                            old(self).jc.assembler@.len() as int,
                        )
                        &&& final(self).jc.buffer() == compiled_buffer(
                            optimized(state.buffer),
                            (old(self).jc.assembler@.len() + enter_bytes().len()) as int,
                        )
                    } else {
                        &&& r == Err::<(), VmError>(VmError::Uncompilable)
                        &&& final(self).state.gc@ == state.heap
                        &&& final(self).jc.buffer() == state.buffer
                    }
                },
                Err(e) => r == Err::<(), VmError>(e),
            },
            r is Err ==> !(r->Err_0 is UnsupportedOpcode),
            r is Err ==> final(self).jc.assembler == old(self).jc.assembler,
            final(self).module == old(self).module,
            final(self).globals == old(self).globals,
    {
        match self.lower(callbacks) {
            Ok(()) => {},
            Err(e) => {
                return Err(e);
            },
        }
        if !self.jc.can_compile() {
            return Err(VmError::Uncompilable);
        }
        self.jc.compile();
        Ok(())
    }

    /// Reads what generated code returned, then collects the heap. A value
    /// that cannot be shown is an error, and the heap stays as it is.
    pub fn jit_result(&mut self, bits: u64) -> (r: Result<JitResult, VmError>)
        ensures
            match shown(old(self).state.gc@, bits) {
                Some(v) => {
                    &&& r is Ok
                    &&& r->Ok_0@ == v
                    &&& final(self).state.gc@ == old(self).state.gc@.collected()
                },
                None => {
                    &&& r == Err::<JitResult, VmError>(VmError::UnsupportedResult(bits))
                    &&& final(self).state.gc@ == old(self).state.gc@
                },
            },
            final(self).state.stack == old(self).state.stack,
            final(self).module == old(self).module,
            final(self).globals == old(self).globals,
            final(self).jc == old(self).jc,
    {
        let obj = Object::from(bits);
        if !obj.is_tagged() {
            return Err(VmError::UnsupportedResult(bits));
        }
        let result = match obj.tag() {
            ObjectTag::Null => JitResult::Null,
            ObjectTag::Int => JitResult::Int(obj.value()),
            ObjectTag::Pointer => {
                match self.state.gc.value_of(obj.value()) {
                    Some(VMValue::String(s)) => JitResult::String(s.clone()),
                    _ => {
                        return Err(VmError::UnsupportedResult(bits));
                    },
                }
            },
            _ => {
                return Err(VmError::UnsupportedResult(bits));
            },
        };
        self.state.gc.collect();
        Ok(result)
    }

    /// Runs one opcode of the interpreter's subset.
    fn step(&mut self, opcode: Opcode, operand: u32, events: &mut Vec<Event>) -> (r: Result<
        (),
        VmError,
    >)
        requires
            interpreted_subset(opcode),
            old(self).state.gc@.next < u64::MAX,
            usize::MAX > u32::MAX,
        ensures
            match stepped(
                old(self).module.constant_pool@,
                old(self).module.name_pool@.len(),
                Machine {
                    heap: old(self).state.gc@,
                    stack: bits_of(old(self).state.stack@),
                    globals: old(self).globals@,
                    events: old(events)@,
                },
                opcode,
                operand,
            ) {
                Ok(m) => {
                    &&& r is Ok
                    &&& final(self).state.gc@ == m.heap
                    &&& bits_of(final(self).state.stack@) == m.stack
                    &&& final(self).globals@ == m.globals
                    &&& final(events)@ == m.events
                },
                Err(e) => r == Err::<(), VmError>(e),
            },
            final(self).module == old(self).module,
            final(self).jc == old(self).jc,
            final(self).state.gc@.next <= old(self).state.gc@.next + 1,
    {
        let ghost before = bits_of(self.state.stack@);
        match opcode {
            Opcode::LOAD_CONST => {
                if operand as usize >= self.module.constant_pool.len() {
                    return Err(VmError::ConstantOutOfRange(operand));
                }
                match materialize(&mut self.state.gc, &self.module.constant_pool[operand as usize]) {
                    Some(obj) => {
                        self.state.stack.push(obj);
                        assert(bits_of(self.state.stack@) =~= before.push(obj@));
                    },
                    None => {
                        return Err(VmError::UnsupportedConstant(operand));
                    },
                }
            },
            Opcode::STORE_NAME => {
                match self.state.stack.pop() {
                    Some(obj) => {
                        assert(bits_of(self.state.stack@) =~= before.drop_last());
                        assert(before.last() == obj@);
                        self.store_name(operand, obj);
                    },
                    None => {
                        return Err(VmError::StackUnderflow(opcode));
                    },
                }
            },
            Opcode::LOAD_NAME => {
                if !self.has_name(operand) {
                    return Err(VmError::NameOutOfRange(operand));
                }
                let obj = self.load_name(operand);
                self.state.stack.push(obj);
                assert(bits_of(self.state.stack@) =~= before.push(obj@));
            },
            Opcode::POP_TOP => {
                match self.state.stack.pop() {
                    Some(obj) => {
                        assert(bits_of(self.state.stack@) =~= before.drop_last());
                        assert(before.last() == obj@);
                        events.push(Event::Popped(obj.encode()));
                    },
                    None => {},
                }
            },
            _ => {
                match self.state.stack.pop() {
                    Some(obj) => {
                        assert(bits_of(self.state.stack@) =~= before.drop_last());
                        assert(before.last() == obj@);
                        events.push(Event::Returned(obj.encode()));
                    },
                    None => {},
                }
            },
        }
        Ok(())
    }

    /// Interprets the entry code of the module from its first opcode to its
    /// end, then collects the heap, and returns what there is to report.
    pub fn run(&mut self) -> (r: Result<Vec<Event>, VmError>)
        requires
            old(self).module.entry.code@.len() <= u32::MAX,
            old(self).state.gc@.next + old(self).module.entry.code@.len() <= PAYLOAD_MASK,
            usize::MAX > u32::MAX,
        ensures
            match interpreted(
                old(self).module.constant_pool@,
                old(self).module.name_pool@.len(),
                old(self).module.entry.code@,
                Machine {
                    heap: old(self).state.gc@,
                    stack: bits_of(old(self).state.stack@),
                    globals: old(self).globals@,
                    events: Seq::empty(),
                },
                0,
            ) {
                Ok(m) => {
                    &&& r is Ok
                    &&& r->Ok_0@ == m.events
                    &&& final(self).state.gc@ == m.heap.collected()
                    &&& bits_of(final(self).state.stack@) == m.stack
                    &&& final(self).globals@ == m.globals
                },
                Err(e) => r == Err::<Vec<Event>, VmError>(e),
            },
            final(self).module == old(self).module,
            final(self).jc == old(self).jc,
    {
        let ghost pool = self.module.constant_pool@;
        let ghost names = self.module.name_pool@.len();
        let ghost code = self.module.entry.code@;
        let ghost goal = interpreted(
            pool,
            names,
            code,
            Machine {
                heap: self.state.gc@,
                stack: bits_of(self.state.stack@),
                globals: self.globals@,
                events: Seq::empty(),
            },
            0,
        );
        let mut events: Vec<Event> = Vec::new();
        let mut i: usize = 0;
        while i < self.module.entry.code.len()
            invariant
                self.module == old(self).module,
                self.jc == old(self).jc,
                pool == self.module.constant_pool@,
                names == self.module.name_pool@.len(),
                code == self.module.entry.code@,
                code.len() <= u32::MAX,
                usize::MAX > u32::MAX,
                i <= code.len(),
                self.state.gc@.next <= old(self).state.gc@.next + i,
                old(self).state.gc@.next + code.len() <= PAYLOAD_MASK,
                goal == interpreted(
                    old(self).module.constant_pool@,
                    old(self).module.name_pool@.len(),
                    old(self).module.entry.code@,
                    Machine {
                        heap: old(self).state.gc@,
                        stack: bits_of(old(self).state.stack@),
                        globals: old(self).globals@,
                        events: Seq::empty(),
                    },
                    0,
                ),
                goal == interpreted(
                    pool,
                    names,
                    code,
                    Machine {
                        heap: self.state.gc@,
                        stack: bits_of(self.state.stack@),
                        globals: self.globals@,
                        events: events@,
                    },
                    i as int,
                ),
            decreases code.len() - i,
        {
            let ghost pc = i as int;
            let ghost here = Machine {
                heap: self.state.gc@,
                stack: bits_of(self.state.stack@),
                globals: self.globals@,
                events: events@,
            };
            let offset = i as u32;
            let byte = self.module.entry.read8(&mut i);
            assert(byte == code[pc]);
            let opcode = match Opcode::try_from(byte) {
                Ok(opcode) => opcode,
                Err(_) => {
                    assert(interpreted(pool, names, code, here, pc) == Err::<Machine, VmError>(
                        VmError::InvalidOpcode(byte),
                    ));
                    return Err(VmError::InvalidOpcode(byte));
                },
            };
            assert(opcode_of(code[pc]) == Some(opcode));
            let supported = match opcode {
                Opcode::LOAD_CONST
                | Opcode::STORE_NAME
                | Opcode::LOAD_NAME
                | Opcode::POP_TOP
                | Opcode::RETURN => true,
                _ => false,
            };
            if !supported {
                assert(interpreted(pool, names, code, here, pc) == Err::<Machine, VmError>(
                    VmError::UnsupportedOpcode(opcode),
                ));
                return Err(VmError::UnsupportedOpcode(opcode));
            }
            let mut operand: u32 = 0;
            if opcode.takes_operand() {
                if self.module.entry.code.len() - i < 4 {
                    assert(interpreted(pool, names, code, here, pc) == Err::<Machine, VmError>(
                        VmError::MissingOperand(opcode),
                    ));
                    return Err(VmError::MissingOperand(opcode));
                }
                operand = self.module.entry.read32(&mut i);
            }
            events.push(Event::Step(offset, opcode));
            let ghost reported = Machine { events: events@, ..here };
            assert(interpreted(pool, names, code, here, pc) == (match stepped(
                pool,
                names,
                reported,
                opcode,
                operand,
            ) {
                Err(e) => Err(e),
                Ok(after) => interpreted(pool, names, code, after, i as int),
            }));
            match self.step(opcode, operand, &mut events) {
                Ok(()) => {},
                Err(e) => {
                    return Err(e);
                },
            }
        }
        self.state.gc.collect();
        Ok(events)
    }

    /// The sum of two packed integers.
    pub fn rust_add(&mut self, lhs: Object, rhs: Object) -> (r: Object)
        requires
            tag_bits(lhs@) == ObjectTag::Int.number(),
            tag_bits(rhs@) == ObjectTag::Int.number(),
        ensures
            r@ == added(lhs@, rhs@),
            *final(self) == *old(self),
    {
        Object::new(lhs.value() + rhs.value(), ObjectTag::Int)
    }

    /// Whether `lhs` is below `rhs`, as the packed integer 1 or 0. Two
    /// integers are compared as signed integers of 48 bits, two floats by
    /// their payloads.
    pub fn rust_lt(&mut self, lhs: Object, rhs: Object) -> (r: Object)
        requires
            tag_bits(lhs@) == tag_bits(rhs@),
            tag_bits(lhs@) == ObjectTag::Int.number() || tag_bits(lhs@)
                == ObjectTag::Float.number(),
        ensures
            r@ == less_than(lhs@, rhs@),
            *final(self) == *old(self),
    {
        let is_below = match lhs.tag() {
            ObjectTag::Int => lhs.signed_value() < rhs.signed_value(),
            _ => lhs.value() < rhs.value(),
        };
        if is_below {
            Object::new(1, ObjectTag::Int)
        } else {
            Object::new(0, ObjectTag::Int)
        }
    }
}

} // verus!
