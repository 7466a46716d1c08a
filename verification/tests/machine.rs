use kod::bytekod::{Code, Constant, FloatConstant, Module, Opcode};
use kod::compiler::{Instruction, InstructionEnum, JitCompiler};
use kod::lexer::{continues_word, starts_token, TokenStart};
use kod::object::{Object, ObjectTag};
use kod::operand::{Condition, Immediate, Operand, Register};
use kod::runtime::{Callbacks, VM};
use kod::semantics::{scratch_stays_unread, Invocation};
use kod::simulator::{condition_holds, Cpu};

fn callbacks() -> Callbacks {
    Callbacks { vm: 0x1000, store_name: 0x2000, load_name: 0x3000, rust_add: 0x4000, rust_lt: 0x5000 }
}

fn module(code: Vec<u8>, constants: Vec<Constant>, names: Vec<&str>) -> Module {
    let mut m = Module::new(String::from("test"));
    m.entry = Code::new(String::from("__main__"), vec![], code);
    m.constant_pool = constants;
    m.name_pool = names.into_iter().map(String::from).collect();
    m
}

fn op(opcode: Opcode) -> Vec<u8> {
    vec![opcode.encode()]
}

fn op32(opcode: Opcode, operand: u32) -> Vec<u8> {
    let mut bytes = vec![opcode.encode()];
    bytes.extend_from_slice(&operand.to_le_bytes());
    bytes
}

fn program(parts: Vec<Vec<u8>>) -> Vec<u8> {
    parts.into_iter().flatten().collect()
}

/// Lowers a module and runs its instructions, as they are or optimized, and
/// hands back the calls of helpers that were made as well.
fn run_logged(module: Module, optimized: bool) -> (Option<Object>, VM, Vec<Invocation>) {
    let mut vm = VM::new(module);
    let cb = callbacks();
    vm.lower(&cb).unwrap();
    if optimized {
        vm.jc.optimize();
    }
    let buffer: Vec<Instruction> = vm.jc.instructions.iter().map(|i| i.duplicate()).collect();
    let mut cpu = Cpu::new();
    let returned = cpu.simulate(&buffer, &mut vm, &cb, 10_000);
    let value = if returned { Some(Object::from(cpu.regs[0])) } else { None };
    (value, vm, cpu.calls)
}

/// Lowers a module and runs its instructions, as they are or optimized.
fn run(module: Module, optimized: bool) -> (Option<Object>, VM) {
    let mut vm = VM::new(module);
    let cb = callbacks();
    vm.lower(&cb).unwrap();
    assert!(scratch_stays_unread(&vm.jc));
    if optimized {
        vm.jc.optimize();
    }
    let buffer: Vec<Instruction> = vm.jc.instructions.iter().map(|i| i.duplicate()).collect();
    let mut cpu = Cpu::new();
    let returned = cpu.simulate(&buffer, &mut vm, &cb, 10_000);
    let value = if returned { Some(Object::from(cpu.regs[0])) } else { None };
    (value, vm)
}

fn both(code: Vec<u8>, constants: Vec<Constant>, names: Vec<&str>) -> Option<Object> {
    let (plain, plain_vm) = run(module(code.clone(), constants.clone(), names.clone()), false);
    let (fast, fast_vm) = run(module(code, constants, names), true);
    assert_eq!(plain, fast);
    assert_eq!(plain_vm.globals, fast_vm.globals);
    plain
}

fn integer(value: u64) -> Option<Object> {
    Some(Object::new(value, ObjectTag::Int))
}

#[test]
fn scenario_return_a_constant() {
    let code = program(vec![op32(Opcode::LOAD_CONST, 0), op(Opcode::RETURN)]);
    let returned = both(code, vec![Constant::Int(42)], vec![]).unwrap();
    assert_eq!(returned.tag(), ObjectTag::Int);
    assert_eq!(returned.value(), 42);
}

#[test]
fn scenario_store_then_load() {
    let code = program(vec![
        op32(Opcode::LOAD_CONST, 0),
        op32(Opcode::STORE_NAME, 0),
        op32(Opcode::LOAD_CONST, 1),
        op32(Opcode::STORE_NAME, 0),
        op32(Opcode::LOAD_NAME, 0),
        op(Opcode::RETURN),
    ]);
    let constants = vec![Constant::Int(1), Constant::Int(7)];
    assert_eq!(both(code.clone(), constants.clone(), vec!["x"]), integer(7));
    let (_, vm) = run(module(code, constants, vec!["x"]), true);
    assert_eq!(vm.globals, vec![7]);
}

#[test]
fn the_optimizer_keeps_the_calls_and_their_order() {
    let code = program(vec![
        op32(Opcode::LOAD_CONST, 0),
        op32(Opcode::STORE_NAME, 0),
        op32(Opcode::LOAD_CONST, 1),
        op32(Opcode::STORE_NAME, 1),
        op32(Opcode::LOAD_NAME, 0),
        op32(Opcode::LOAD_NAME, 1),
        op(Opcode::BINARY_BOOLEAN_LESS_THAN),
        op(Opcode::RETURN),
    ]);
    let constants = vec![Constant::Int(-1), Constant::Int(7)];
    let (plain, plain_vm, plain_calls) =
        run_logged(module(code.clone(), constants.clone(), vec!["x", "y"]), false);
    let (fast, fast_vm, fast_calls) =
        run_logged(module(code, constants, vec!["x", "y"]), true);
    assert_eq!(plain, integer(1));
    assert_eq!(fast, integer(1));
    assert_eq!(plain_vm.globals, fast_vm.globals);
    assert_eq!(plain_calls, fast_calls);
    let minus_one = Object::new(0xffff_ffff_ffff, ObjectTag::Int).encode();
    let seven = Object::new(7, ObjectTag::Int).encode();
    let cb = callbacks();
    assert_eq!(
        fast_calls,
        vec![
            Invocation { callee: cb.store_name, rcx: cb.vm, rdx: 0, r8: minus_one, r9: 0 },
            Invocation { callee: cb.store_name, rcx: cb.vm, rdx: 1, r8: seven, r9: 0 },
            Invocation { callee: cb.load_name, rcx: cb.vm, rdx: 0, r8: 0, r9: 0 },
            Invocation { callee: cb.load_name, rcx: cb.vm, rdx: 1, r8: 0, r9: 0 },
            Invocation { callee: cb.rust_lt, rcx: cb.vm, rdx: minus_one, r8: seven, r9: 0 },
        ]
    );
}

#[test]
fn scenario_less_than_with_a_negative_integer() {
    let code = program(vec![
        op32(Opcode::LOAD_CONST, 0),
        op32(Opcode::LOAD_CONST, 1),
        op(Opcode::BINARY_BOOLEAN_LESS_THAN),
        op(Opcode::RETURN),
    ]);
    assert_eq!(
        both(code.clone(), vec![Constant::Int(-1), Constant::Int(1)], vec![]),
        integer(1)
    );
    assert_eq!(
        both(code.clone(), vec![Constant::Int(1), Constant::Int(-1)], vec![]),
        integer(0)
    );
    assert_eq!(
        both(code, vec![Constant::Int(-5), Constant::Int(-3)], vec![]),
        integer(1)
    );
}

#[test]
fn scenario_less_than() {
    let code = program(vec![
        op32(Opcode::LOAD_CONST, 0),
        op32(Opcode::LOAD_CONST, 1),
        op(Opcode::BINARY_BOOLEAN_LESS_THAN),
        op(Opcode::RETURN),
    ]);
    assert_eq!(
        both(code.clone(), vec![Constant::Int(3), Constant::Int(5)], vec![]),
        integer(1)
    );
    assert_eq!(
        both(code, vec![Constant::Int(5), Constant::Int(3)], vec![]),
        integer(0)
    );
}

#[test]
fn scenario_integer_addition_takes_the_fast_path() {
    let code = program(vec![
        op32(Opcode::LOAD_CONST, 0),
        op32(Opcode::LOAD_CONST, 1),
        op(Opcode::BINARY_ADD),
        op(Opcode::RETURN),
    ]);
    let sum = both(code.clone(), vec![Constant::Int(10), Constant::Int(32)], vec![]).unwrap();
    assert_eq!(sum.tag(), ObjectTag::Int);
    assert_eq!(sum.value(), 42);
    let wrapped = both(
        code.clone(),
        vec![Constant::Int(0xffff_ffff_ffff), Constant::Int(1)],
        vec![],
    )
    .unwrap();
    assert_eq!(wrapped.tag(), ObjectTag::Int);
    assert_eq!(wrapped.value(), 0);
    let float = Constant::Float(FloatConstant { bits: 0x3ff0_0000_0000_0000, whole: 1 });
    assert_eq!(both(code, vec![float.clone(), float], vec![]), None);
}

#[test]
fn scenario_forward_jump() {
    let code = program(vec![
        op32(Opcode::LOAD_CONST, 0),
        op32(Opcode::JUMP, 15),
        op32(Opcode::LOAD_CONST, 1),
        op(Opcode::RETURN),
    ]);
    assert_eq!(
        both(code, vec![Constant::Int(99), Constant::Int(0)], vec![]),
        integer(99)
    );
}

#[test]
fn scenario_conditional_jump() {
    let code = |first: u32| {
        program(vec![
            op32(Opcode::LOAD_CONST, first),
            op32(Opcode::POP_JUMP_IF_FALSE, 16),
            op32(Opcode::LOAD_CONST, 2),
            op(Opcode::RETURN),
            op32(Opcode::LOAD_CONST, 3),
            op(Opcode::RETURN),
        ])
    };
    let constants = vec![
        Constant::Int(0),
        Constant::Int(1),
        Constant::Int(10),
        Constant::Int(20),
    ];
    assert_eq!(both(code(0), constants.clone(), vec![]), integer(20));
    assert_eq!(both(code(1), constants, vec![]), integer(10));
}

#[test]
fn a_loop_without_an_end_runs_out_of_fuel() {
    let code = program(vec![op32(Opcode::JUMP, 0), op(Opcode::RETURN)]);
    assert_eq!(both(code, vec![], vec![]), None);
}

#[test]
fn loading_a_name_that_was_not_stored_does_not_return() {
    let code = program(vec![op32(Opcode::LOAD_NAME, 3), op(Opcode::RETURN)]);
    assert_eq!(both(code, vec![], vec!["x"]), None);
}

#[test]
fn scenario_peephole_keeps_the_target_register() {
    let window = |jc: &mut JitCompiler| {
        jc.compile_mov(
            0,
            Operand::Register(Register::RAX, false),
            Operand::Immediate(Immediate::Immediate64(5)),
        );
        jc.compile_push(0, Operand::Register(Register::RAX, false));
        jc.compile_pop(0, Register::RBX);
        jc.instructions.push(Instruction::new(0, InstructionEnum::Exit));
    };
    let cb = callbacks();
    let mut before = JitCompiler::new();
    window(&mut before);
    let mut after = JitCompiler::new();
    window(&mut after);
    assert!(!scratch_stays_unread(&after));
    after.optimize();
    assert_eq!(after.instructions.len(), 2);
    assert!(scratch_stays_unread(&after));

    let mut vm = VM::new(module(vec![], vec![], vec![]));
    let mut slow = Cpu::new();
    assert!(slow.simulate(&before.instructions, &mut vm, &cb, 100));
    let mut fast = Cpu::new();
    assert!(fast.simulate(&after.instructions, &mut vm, &cb, 100));
    assert_eq!(slow.regs[3], 5);
    assert_eq!(fast.regs[3], 5);
    assert_eq!(slow.stack, fast.stack);
    assert_eq!(slow.regs[1..], fast.regs[1..]);
    assert_eq!(slow.regs[0], 5);
    assert_eq!(fast.regs[0], 0);
}

#[test]
fn instructions_do_what_the_model_says() {
    let cb = callbacks();
    let mut vm = VM::new(module(vec![], vec![], vec![]));
    let reg = |r: Register| Operand::Register(r, false);
    let buffer = vec![
        Instruction::new(0, InstructionEnum::Push(Operand::Immediate(Immediate::Immediate8(9)))),
        Instruction::new(0, InstructionEnum::Pop(reg(Register::R15))),
        Instruction::new(
            0,
            InstructionEnum::Mov(
                reg(Register::RAX),
                Operand::Immediate(Immediate::Immediate64(0xff00)),
            ),
        ),
        Instruction::new(0, InstructionEnum::Shr(Register::RAX, 8)),
        Instruction::new(
            1,
            InstructionEnum::JumpBytecodeIfCmp(
                reg(Register::RAX),
                Condition::SignedLessThan,
                reg(Register::R15),
                9,
            ),
        ),
        Instruction::new(2, InstructionEnum::Mov(reg(Register::RCX), reg(Register::RAX))),
        Instruction::new(9, InstructionEnum::Exit),
    ];
    let mut cpu = Cpu::new();
    assert!(cpu.simulate(&buffer, &mut vm, &cb, 7));
    assert_eq!(cpu.regs[0], 0xff);
    assert_eq!(cpu.regs[15], 9);
    assert_eq!(cpu.regs[1], 0xff);
    assert!(cpu.stack.is_empty());
    let mut short = Cpu::new();
    assert!(!short.simulate(&buffer, &mut vm, &cb, 6));
    let stuck = vec![Instruction::new(0, InstructionEnum::Pop(reg(Register::RAX)))];
    assert!(!Cpu::new().simulate(&stuck, &mut vm, &cb, 10));
    let memory = vec![Instruction::new(
        0,
        InstructionEnum::Push(Operand::Memory(Register::RAX, 0)),
    )];
    assert!(!Cpu::new().simulate(&memory, &mut vm, &cb, 10));
    let unknown = vec![Instruction::new(0, InstructionEnum::Call(0x9999))];
    assert!(!Cpu::new().simulate(&unknown, &mut vm, &cb, 10));
}

#[test]
fn conditions_of_a_comparison() {
    let minus_one = u64::MAX;
    assert!(condition_holds(Condition::EqualTo, 4, 4));
    assert!(condition_holds(Condition::NotEqualTo, 4, 5));
    assert!(condition_holds(Condition::Above, minus_one, 1));
    assert!(!condition_holds(Condition::SignedGreaterThan, minus_one, 1));
    assert!(condition_holds(Condition::SignedLessThan, minus_one, 1));
    assert!(condition_holds(Condition::SignedLessThanOrEqualTo, 1, 1));
    assert!(condition_holds(Condition::SignedGreaterThanOrEqualTo, 1, 1));
    assert!(condition_holds(Condition::Below, 1, 2));
    assert!(condition_holds(Condition::BelowOrEqual, 2, 2));
    assert!(condition_holds(Condition::AboveOrEqual, 2, 2));
    assert!(condition_holds(Condition::UnsignedLessThan, 1, minus_one));
    assert!(condition_holds(Condition::Overflow, 0x8000_0000_0000_0000, 1));
    assert!(!condition_holds(Condition::Overflow, 5, 1));
    assert!(condition_holds(Condition::ParityEven, 3, 0));
    assert!(condition_holds(Condition::ParityOdd, 1, 0));
    assert!(condition_holds(Condition::ParityEven, 0, 1));
    assert!(condition_holds(Condition::Unordered, 0x100, 0));
    assert!(condition_holds(Condition::NotUnordered, 7, 0));
}

#[test]
fn characters_start_tokens() {
    assert_eq!(starts_token('\0', 'a', false), TokenStart::End);
    assert_eq!(starts_token('"', 'a', false), TokenStart::String);
    assert_eq!(starts_token('\'', 'a', false), TokenStart::String);
    assert_eq!(starts_token('7', 'a', false), TokenStart::Number);
    assert_eq!(starts_token('.', '5', false), TokenStart::Number);
    assert_eq!(starts_token('.', 'a', false), TokenStart::Symbol);
    assert_eq!(starts_token('x', ' ', true), TokenStart::Word);
    assert_eq!(starts_token('_', ' ', false), TokenStart::Word);
    assert_eq!(starts_token('+', '=', false), TokenStart::Symbol);
    assert_eq!(starts_token('\n', 'a', false), TokenStart::Line);
    assert_eq!(starts_token('\r', '\n', false), TokenStart::Line);
    assert_eq!(starts_token('\r', 'a', false), TokenStart::Nothing);
    assert_eq!(starts_token('$', 'a', false), TokenStart::Nothing);
    assert_eq!(starts_token('x', ' ', false), TokenStart::Nothing);
    assert!(continues_word('a', true));
    assert!(continues_word('_', false));
    assert!(!continues_word('-', false));
}
