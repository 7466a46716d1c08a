//! A machine that runs pseudo-instructions as the model of their meaning says,
//! with the helpers of the virtual machine behind their addresses.

use vstd::prelude::*;
use crate::compiler::{first_at, lands, views, Instruction, InstructionEnum};
use crate::object::{tag_bits, Object, ObjectTag};
use crate::operand::{low_dword, low_dword_of, Condition, Operand, Register};
use crate::runtime::{added, less_than, stored_globals, Callbacks, VM};
use crate::semantics::{
    called, fast_added, holds, outcome_of, run, step, value_of, Helpers, Invocation, Native,
    Outcome, Stepped, World,
};

verus! {

/// What a call of a helper of the virtual machine leaves behind. The helper
/// gets the index of a name in the low half of RDX, and packed values in RDX
/// and R8; it leaves zero in the registers that a callee may change. A call of
/// an address that is no helper, or of a helper with arguments that it does
/// not take, does not return.
pub open spec fn vm_outcome(
    callbacks: Callbacks,
    names: nat,
    callee: u64,
    rdx: u64,
    r8: u64,
    world: World,
) -> Outcome {
    let returned = Outcome {
        aborted: false,
        rax: 0,
        rcx: 0,
        rdx: 0,
        r8: 0,
        r9: 0,
        r10: 0,
        r11: 0,
        world,
    };
    let failed = Outcome { aborted: true, ..returned };
    if callee == callbacks.store_name {
        Outcome {
            rax: r8,
            world: World {
                globals: stored_globals(world.globals, names, low_dword(rdx), r8),
                ..world
            },
            ..returned
        }
    } else if callee == callbacks.load_name {
        if low_dword(rdx) < world.globals.len() {
            Outcome { rax: world.globals[low_dword(rdx) as int], ..returned }
        } else {
            failed
        }
    } else if callee == callbacks.rust_add {
        if tag_bits(rdx) == ObjectTag::Int.number() && tag_bits(r8) == ObjectTag::Int.number() {
            Outcome { rax: added(rdx, r8), ..returned }
        } else {
            failed
        }
    } else if callee == callbacks.rust_lt {
        if tag_bits(rdx) == tag_bits(r8) && (tag_bits(rdx) == ObjectTag::Int.number() || tag_bits(
            rdx,
        ) == ObjectTag::Float.number()) {
            Outcome { rax: less_than(rdx, r8), ..returned }
        } else {
            failed
        }
    } else {
        failed
    }
}

/// The helpers of a virtual machine with the given number of names, behind
/// the given addresses.
pub open spec fn vm_helpers(callbacks: Callbacks, names: nat) -> Helpers {
    |callee: u64, rcx: u64, rdx: u64, r8: u64, r9: u64, world: World|
        vm_outcome(callbacks, names, callee, rdx, r8, world)
}

/// Where the machine goes after an instruction.
#[derive(Debug, Clone, Copy, PartialEq, Eq, Structural)]
pub enum Flow {
    /// On to the instruction at the index.
    Next(usize),
    /// Back to the caller.
    Halt,
    /// Nowhere.
    Stuck,
}

/// The registers and the operand stack of the simulated machine.
#[derive(Debug)]
pub struct Cpu {
    pub regs: Vec<u64>,
    pub stack: Vec<u64>,
    pub calls: Vec<Invocation>,
}

/// The state of the machine that a processor and a virtual machine make up.
pub open spec fn native_of(cpu: Cpu, vm: VM) -> Native {
    Native {
        regs: cpu.regs@,
        stack: cpu.stack@,
        world: World { globals: vm.globals@, heap: vm.state.gc@ },
        calls: cpu.calls@,
    }
}

/// Whether a condition holds after `lhs` was compared with `rhs`.
pub fn condition_holds(condition: Condition, lhs: u64, rhs: u64) -> (b: bool)
    ensures
        b == holds(condition, lhs, rhs),
{
    let l: i128 = if lhs < 0x8000_0000_0000_0000 {
        lhs as i128
    } else {
        lhs as i128 - 0x1_0000_0000_0000_0000
    };
    let r: i128 = if rhs < 0x8000_0000_0000_0000 {
        rhs as i128
    } else {
        rhs as i128 - 0x1_0000_0000_0000_0000
    };
    let difference: i128 = l - r;
    let low: u64 = (lhs % 256 + 256 - rhs % 256) % 256;
    assert(low == (lhs - rhs) % 256);
    let even = (low % 2 + (low / 2) % 2 + (low / 4) % 2 + (low / 8) % 2 + (low / 16) % 2 + (low
        / 32) % 2 + (low / 64) % 2 + (low / 128) % 2) % 2 == 0;
    match condition {
        Condition::Overflow => difference < -0x8000_0000_0000_0000 || difference
            > 0x7fff_ffff_ffff_ffff,
        Condition::EqualTo => lhs == rhs,
        Condition::NotEqualTo => lhs != rhs,
        Condition::UnsignedGreaterThan | Condition::Above => lhs > rhs,
        Condition::UnsignedGreaterThanOrEqualTo | Condition::AboveOrEqual => lhs >= rhs,
        Condition::UnsignedLessThan | Condition::Below => lhs < rhs,
        Condition::UnsignedLessThanOrEqualTo | Condition::BelowOrEqual => lhs <= rhs,
        Condition::ParityEven | Condition::Unordered => even,
        Condition::ParityOdd | Condition::NotUnordered => !even,
        Condition::SignedGreaterThan => l > r,
        Condition::SignedGreaterThanOrEqualTo => l >= r,
        Condition::SignedLessThan => l < r,
        Condition::SignedLessThanOrEqualTo => l <= r,
    }
}

/// The index of the first instruction that comes from a bytecode offset.
fn landing_index(buffer: &Vec<Instruction>, bytecode_offset: u32) -> (r: Option<usize>)
    ensures
        r is Some <==> lands(views(buffer@), bytecode_offset),
        r matches Some(i) ==> i == first_at(views(buffer@), bytecode_offset, 0),
{
    let mut j: usize = 0;
    while j < buffer.len()
        invariant
            j <= buffer@.len(),
            first_at(views(buffer@), bytecode_offset, 0) == first_at(
                views(buffer@),
                bytecode_offset,
                j as int,
            ),
        decreases buffer@.len() - j,
    {
        assert(views(buffer@)[j as int] == buffer@[j as int]@);
        if buffer[j].bytecode_offset == bytecode_offset {
            return Some(j);
        }
        j += 1;
    }
    None
}

impl Cpu {
    /// A processor with zero in every register, an empty stack and no call
    /// made.
    pub fn new() -> (cpu: Cpu)
        ensures
            cpu.regs@ == Seq::new(16, |i: int| 0u64),
            cpu.stack@ == Seq::<u64>::empty(),
            cpu.calls@ == Seq::<Invocation>::empty(),
    {
        let mut regs: Vec<u64> = Vec::new();
        while regs.len() < 16
            invariant
                regs@.len() <= 16,
                forall|i: int| 0 <= i < regs@.len() ==> regs@[i] == 0,
            decreases 16 - regs@.len(),
        {
            regs.push(0);
        }
        assert(regs@ =~= Seq::new(16, |i: int| 0u64));
        Cpu { regs, stack: Vec::new(), calls: Vec::new() }
    }

    /// The value of an operand that is read.
    fn read(&self, op: &Operand) -> (v: Option<u64>)
        requires
            self.regs@.len() == 16,
        ensures
            forall|world: World|
                v == value_of(
                    Native { regs: self.regs@, stack: self.stack@, world, calls: self.calls@ },
                    *op,
                ),
    {
        match op {
            Operand::Register(r, float) => {
                if !*float && !r.is_simd() && *r != Register::RSP && *r != Register::RBP {
                    Some(self.regs[r.encode() as usize])
                } else {
                    None
                }
            },
            Operand::Immediate(_) => Some(op.offset_or_immediate()),
            Operand::Memory(_, _) => None,
        }
    }

    /// Calls the helper behind an address. The result says whether it
    /// returned.
    fn call(&mut self, vm: &mut VM, callbacks: &Callbacks, callee: u64, rcx: u64) -> (r: bool)
        requires
            old(self).regs@.len() == 16,
            usize::MAX > u32::MAX,
        ensures
            ({
                let helpers = vm_helpers(*callbacks, old(vm).module.name_pool@.len());
                let before = native_of(*old(self), *old(vm));
                if outcome_of(helpers, before, callee, rcx).aborted {
                    !r
                } else {
                    r && native_of(*final(self), *final(vm)) == called(helpers, before, callee, rcx)
                }
            }),
            final(self).regs@.len() == 16,
            final(vm).module == old(vm).module,
            final(vm).state == old(vm).state,
            final(vm).jc == old(vm).jc,
    {
        let rdx = self.regs[2];
        let r8 = self.regs[8];
        let rax = if callee == callbacks.store_name {
            vm.store_name(low_dword_of(rdx), Object::from(r8)).encode()
        } else if callee == callbacks.load_name {
            if !vm.has_name(low_dword_of(rdx)) {
                return false;
            }
            vm.load_name(low_dword_of(rdx)).encode()
        } else if callee == callbacks.rust_add {
            let (lhs, rhs) = (Object::from(rdx), Object::from(r8));
            if !(lhs.is_tagged() && rhs.is_tagged() && lhs.tag() == ObjectTag::Int && rhs.tag()
                == ObjectTag::Int) {
                return false;
            }
            vm.rust_add(lhs, rhs).encode()
        } else if callee == callbacks.rust_lt {
            let (lhs, rhs) = (Object::from(rdx), Object::from(r8));
            if !(lhs.is_tagged() && rhs.is_tagged() && lhs.tag() == rhs.tag() && (lhs.tag()
                == ObjectTag::Int || lhs.tag() == ObjectTag::Float)) {
                return false;
            }
            vm.rust_lt(lhs, rhs).encode()
        } else {
            return false;
        };
        self.calls.push(Invocation { callee, rcx, rdx, r8, r9: self.regs[9] });
        self.regs[0] = rax;
        self.regs[1] = 0;
        self.regs[2] = 0;
        self.regs[8] = 0;
        self.regs[9] = 0;
        self.regs[10] = 0;
        self.regs[11] = 0;
        assert(native_of(*self, *vm).regs =~= called(
            vm_helpers(*callbacks, old(vm).module.name_pool@.len()),
            native_of(*old(self), *old(vm)),
            callee,
            rcx,
        ).regs);
        true
    }

    /// Runs the instruction at index `pc`.
    fn step(
        &mut self,
        buffer: &Vec<Instruction>,
        vm: &mut VM,
        callbacks: &Callbacks,
        pc: usize,
    ) -> (r: Flow)
        requires
            old(self).regs@.len() == 16,
            pc < buffer@.len(),
            usize::MAX > u32::MAX,
        ensures
            final(self).regs@.len() == 16,
            match step(
                views(buffer@),
                vm_helpers(*callbacks, old(vm).module.name_pool@.len()),
                native_of(*old(self), *old(vm)),
                pc as int,
            ) {
                Stepped::Next(after, next) => r == Flow::Next(next as usize) && 0 <= next
                    <= buffer@.len() && native_of(*final(self), *final(vm)) == after,
                Stepped::Halt(last) => r == Flow::Halt && native_of(*final(self), *final(vm))
                    == last,
                Stepped::Stuck => r == Flow::Stuck,
            },
            final(vm).module == old(vm).module,
            final(vm).state == old(vm).state,
            final(vm).jc == old(vm).jc,
    {
        assert(views(buffer@)[pc as int] == buffer@[pc as int]@);
        let ghost before = native_of(*self, *vm);
        let size = buffer.len();
        assert(pc + 1 <= size);
        match buffer[pc].ins {
            InstructionEnum::Mov(dst, src) => {
                let v = match self.read(&src) {
                    Some(v) => v,
                    None => {
                        return Flow::Stuck;
                    },
                };
                match dst {
                    Operand::Register(d, float) => {
                        if float || d.is_simd() || d == Register::RSP || d == Register::RBP {
                            return Flow::Stuck;
                        }
                        self.regs[d.encode() as usize] = v;
                        Flow::Next(pc + 1)
                    },
                    _ => Flow::Stuck,
                }
            },
            InstructionEnum::Push(op) => {
                match self.read(&op) {
                    Some(v) => {
                        self.stack.push(v);
                        Flow::Next(pc + 1)
                    },
                    None => Flow::Stuck,
                }
            },
            InstructionEnum::Pop(op) => {
                match op {
                    Operand::Register(d, float) => {
                        if float || d.is_simd() || d == Register::RSP || d == Register::RBP {
                            return Flow::Stuck;
                        }
                        match self.stack.pop() {
                            Some(v) => {
                                self.regs[d.encode() as usize] = v;
                                assert(self.stack@ =~= before.stack.drop_last());
                                Flow::Next(pc + 1)
                            },
                            None => Flow::Stuck,
                        }
                    },
                    _ => Flow::Stuck,
                }
            },
            InstructionEnum::JumpBytecode(t) => match landing_index(buffer, t) {
                Some(target) => Flow::Next(target),
                None => Flow::Stuck,
            },
            InstructionEnum::JumpBytecodeIfCmp(lhs, condition, rhs, t) => {
                let l = match self.read(&lhs) {
                    Some(l) => l,
                    None => {
                        return Flow::Stuck;
                    },
                };
                let r = match self.read(&rhs) {
                    Some(r) => r,
                    None => {
                        return Flow::Stuck;
                    },
                };
                let is_register = match lhs {
                    Operand::Register(_, _) => true,
                    _ => false,
                };
                if !is_register {
                    return Flow::Stuck;
                }
                match landing_index(buffer, t) {
                    None => Flow::Stuck,
                    Some(target) => {
                        if condition_holds(condition, l, r) {
                            Flow::Next(target)
                        } else {
                            Flow::Next(pc + 1)
                        }
                    },
                }
            },
            InstructionEnum::Exit => Flow::Halt,
            InstructionEnum::Call(callee) => {
                let rcx = self.regs[1];
                if self.call(vm, callbacks, callee, rcx) {
                    Flow::Next(pc + 1)
                } else {
                    Flow::Stuck
                }
            },
            InstructionEnum::Shr(register, amount) => {
                if register.is_simd() || register == Register::RSP || register == Register::RBP {
                    return Flow::Stuck;
                }
                let at = register.encode() as usize;
                self.regs[at] = self.regs[at] >> (amount % 64);
                Flow::Next(pc + 1)
            },
            InstructionEnum::IntFastSlowPathBinary(machine, helper) => {
                if self.regs[0] == 0 && self.regs[3] == 0 {
                    let sum: u64 = ((self.regs[8] as u128 + self.regs[2] as u128)
                        % 0x1_0000_0000_0000_0000) as u64;
                    self.regs[8] = sum;
                    self.regs[0] = sum % 0x1_0000_0000_0000;
                    assert(self.regs@ =~= fast_added(before).regs);
                    Flow::Next(pc + 1)
                } else if self.call(vm, callbacks, helper, machine) {
                    Flow::Next(pc + 1)
                } else {
                    Flow::Stuck
                }
            },
        }
    }

    /// Runs a buffer from its first instruction, for at most `fuel`
    /// instructions, with the helpers of the virtual machine behind the given
    /// addresses. The result says whether the function returned; the
    /// processor and the virtual machine then hold what it left.
    pub fn simulate(
        &mut self,
        buffer: &Vec<Instruction>,
        vm: &mut VM,
        callbacks: &Callbacks,
        fuel: u64,
    ) -> (returned: bool)
        requires
            old(self).regs@.len() == 16,
            usize::MAX > u32::MAX,
        ensures
            match run(
                views(buffer@),
                vm_helpers(*callbacks, old(vm).module.name_pool@.len()),
                native_of(*old(self), *old(vm)),
                0,
                fuel as nat,
            ) {
                Some(last) => returned && native_of(*final(self), *final(vm)) == last,
                None => !returned,
            },
            final(vm).module == old(vm).module,
            final(vm).state == old(vm).state,
            final(vm).jc == old(vm).jc,
    {
        let ghost helpers = vm_helpers(*callbacks, vm.module.name_pool@.len());
        let ghost goal = run(views(buffer@), helpers, native_of(*self, *vm), 0, fuel as nat);
        let mut pc: usize = 0;
        let mut left: u64 = fuel;
        while left > 0 && pc < buffer.len()
            invariant
                self.regs@.len() == 16,
                usize::MAX > u32::MAX,
                pc <= buffer@.len(),
                vm.module == old(vm).module,
                vm.state == old(vm).state,
                vm.jc == old(vm).jc,
                helpers == vm_helpers(*callbacks, old(vm).module.name_pool@.len()),
                goal == run(
                    views(buffer@),
                    helpers,
                    native_of(*old(self), *old(vm)),
                    0,
                    fuel as nat,
                ),
                goal == run(views(buffer@), helpers, native_of(*self, *vm), pc as int, left as nat),
            decreases left,
        {
            match self.step(buffer, vm, callbacks, pc) {
                Flow::Stuck => {
                    return false;
                },
                Flow::Halt => {
                    return true;
                },
                Flow::Next(next) => {
                    pc = next;
                    left = left - 1;
                },
            }
        }
        false
    }
}

} // verus!
