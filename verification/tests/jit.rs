use kod::bytekod::{Code, Constant, FloatConstant, Module, Opcode};
use kod::compiler::{Instruction, InstructionEnum, JitCompiler};
use kod::object::{Object, ObjectTag};
use kod::operand::{Condition, Immediate, Operand, Register};
use kod::runtime::{Callbacks, Event, JitResult, VmError, VM};

fn reg(r: Register) -> Operand {
    Operand::Register(r, false)
}

fn imm64(v: u64) -> Operand {
    Operand::Immediate(Immediate::Immediate64(v))
}

fn callbacks() -> Callbacks {
    Callbacks {
        vm: 0x1111_1111_1111,
        store_name: 0x2222_2222_2222,
        load_name: 0x3333_3333_3333,
        rust_add: 0x4444_4444_4444,
        rust_lt: 0x5555_5555_5555,
    }
}

fn module(code: Vec<u8>, constants: Vec<Constant>, names: Vec<&str>) -> Module {
    let mut m = Module::new(String::from("test"));
    m.entry = Code::new(String::from("__main__"), vec![], code);
    m.constant_pool = constants;
    m.name_pool = names.into_iter().map(String::from).collect();
    m
}

fn op(opcode: Opcode) -> Vec<u8> {
    vec![opcode.encode()]
}

fn op32(opcode: Opcode, operand: u32) -> Vec<u8> {
    let mut bytes = vec![opcode.encode()];
    bytes.extend_from_slice(&operand.to_le_bytes());
    bytes
}

fn kinds(jc: &JitCompiler) -> Vec<(u32, InstructionEnum)> {
    jc.instructions.iter().map(|i| (i.bytecode_offset, i.ins)).collect()
}

#[test]
fn peephole_collapses_mov_push_pop() {
    let mut jc = JitCompiler::new();
    jc.compile_mov(0, reg(Register::RAX), imm64(5));
    jc.compile_push(0, reg(Register::RAX));
    jc.compile_pop(0, Register::RBX);
    jc.optimize();
    assert_eq!(
        kinds(&jc),
        vec![(0, InstructionEnum::Mov(reg(Register::RBX), imm64(5)))]
    );
}

#[test]
fn peephole_keeps_the_bytecode_offset_of_the_last_instruction() {
    let mut jc = JitCompiler::new();
    jc.compile_push_immediate(0, Immediate::Immediate64(9));
    jc.compile_pop(5, Register::R8);
    jc.optimize();
    assert_eq!(
        kinds(&jc),
        vec![(5, InstructionEnum::Mov(reg(Register::R8), imm64(9)))]
    );
}

#[test]
fn peephole_removes_push_pop_of_one_operand() {
    let mut jc = JitCompiler::new();
    jc.compile_push(0, reg(Register::RCX));
    jc.compile_pop(0, Register::RCX);
    jc.compile_push(1, reg(Register::RCX));
    jc.compile_pop(1, Register::RDX);
    jc.optimize();
    assert_eq!(
        kinds(&jc),
        vec![
            (1, InstructionEnum::Push(reg(Register::RCX))),
            (1, InstructionEnum::Pop(reg(Register::RDX))),
        ]
    );
}

#[test]
fn peephole_leaves_a_window_that_a_jump_lands_in() {
    let mut jc = JitCompiler::new();
    jc.compile_jump_bytecode(0, 7);
    jc.compile_push_immediate(5, Immediate::Immediate64(1));
    jc.compile_pop(7, Register::RAX);
    jc.compile_push(8, reg(Register::RCX));
    jc.compile_pop(7, Register::RCX);
    jc.optimize();
    assert_eq!(
        kinds(&jc),
        vec![
            (0, InstructionEnum::JumpBytecode(7)),
            (5, InstructionEnum::Mov(reg(Register::RAX), imm64(1))),
            (5, InstructionEnum::Push(reg(Register::RAX))),
            (7, InstructionEnum::Pop(reg(Register::RAX))),
            (8, InstructionEnum::Push(reg(Register::RCX))),
            (7, InstructionEnum::Pop(reg(Register::RCX))),
        ]
    );
}

#[test]
fn peephole_needs_a_register_that_is_not_the_base_of_the_source() {
    let mut jc = JitCompiler::new();
    jc.compile_mov(0, reg(Register::RAX), Operand::Memory(Register::RAX, 8));
    jc.compile_push(0, reg(Register::RAX));
    jc.compile_pop(0, Register::RBX);
    jc.compile_mov(1, Operand::Memory(Register::RCX, 8), reg(Register::RDX));
    jc.compile_push(1, Operand::Memory(Register::RCX, 8));
    jc.compile_pop(1, Register::RBX);
    jc.optimize();
    assert_eq!(jc.instructions.len(), 6);
}

#[test]
fn peephole_does_not_look_at_its_own_output() {
    let mut jc = JitCompiler::new();
    jc.compile_push(0, reg(Register::RCX));
    jc.compile_push(0, reg(Register::RDX));
    jc.compile_pop(0, Register::RDX);
    jc.compile_pop(0, Register::RCX);
    jc.optimize();
    assert_eq!(
        kinds(&jc),
        vec![
            (0, InstructionEnum::Push(reg(Register::RCX))),
            (0, InstructionEnum::Pop(reg(Register::RCX))),
        ]
    );
}

#[test]
fn builders_append_what_they_say() {
    let mut jc = JitCompiler::new();
    jc.compile_return(3);
    jc.compile_shr(4, Register::RAX, 48);
    jc.compile_pop_jump_if_false_bytecode(5, 3);
    jc.compile_call(6, 0xabcd, vec![imm64(1), reg(Register::RDX)]);
    assert_eq!(
        kinds(&jc),
        vec![
            (3, InstructionEnum::Pop(reg(Register::RAX))),
            (3, InstructionEnum::Exit),
            (4, InstructionEnum::Shr(Register::RAX, 48)),
            (5, InstructionEnum::Pop(reg(Register::RAX))),
            (
                5,
                InstructionEnum::JumpBytecodeIfCmp(
                    reg(Register::RAX),
                    Condition::EqualTo,
                    Operand::Immediate(Immediate::Immediate8(0)),
                    3
                )
            ),
            (6, InstructionEnum::Mov(reg(Register::RCX), imm64(1))),
            (6, InstructionEnum::Mov(reg(Register::RDX), reg(Register::RDX))),
            (6, InstructionEnum::Call(0xabcd)),
        ]
    );
    assert!(jc.can_compile());
    assert!(jc.is_jump_target(3));
    assert!(!jc.is_jump_target(4));
}

#[test]
fn binary_add_is_the_documented_sequence() {
    let mut jc = JitCompiler::new();
    jc.compile_binary_add(9, 0x10, 0x20);
    assert_eq!(
        kinds(&jc),
        vec![
            (9, InstructionEnum::Pop(reg(Register::R8))),
            (9, InstructionEnum::Pop(reg(Register::RDX))),
            (9, InstructionEnum::Mov(reg(Register::RAX), reg(Register::RDX))),
            (9, InstructionEnum::Shr(Register::RAX, 48)),
            (9, InstructionEnum::Mov(reg(Register::RBX), reg(Register::R8))),
            (9, InstructionEnum::Shr(Register::RBX, 48)),
            (9, InstructionEnum::IntFastSlowPathBinary(0x10, 0x20)),
        ]
    );
}

#[test]
fn a_buffer_that_cannot_be_compiled_is_recognised() {
    let mut jc = JitCompiler::new();
    jc.compile_jump_bytecode(0, 8);
    assert!(!jc.can_compile());
    let mut other = JitCompiler::new();
    other.compile_push(0, Operand::Memory(Register::RAX, 0));
    assert!(!other.can_compile());
    let mut third = JitCompiler::new();
    third.compile_mov(0, imm64(1), imm64(2));
    assert!(!third.can_compile());
}

#[test]
fn compile_resolves_forward_and_backward_jumps() {
    let mut jc = JitCompiler::new();
    jc.compile_pop(0, Register::RAX);
    jc.compile_jump_bytecode(1, 3);
    jc.compile_jump_bytecode(2, 0);
    jc.compile_return(3);
    jc.compile();
    assert_eq!(
        jc.assembler.machine_code,
        vec![
            0x55, 0x48, 0x89, 0xe5, // push rbp; mov rbp, rsp
            0x58, // pop rax
            0xe9, 0x05, 0x00, 0x00, 0x00, // jmp +5
            0xe9, 0xf5, 0xff, 0xff, 0xff, // jmp -11
            0x58, // pop rax
            0xc9, 0xc3, // leave; ret
        ]
    );
    let offsets: Vec<usize> = jc.instructions.iter().map(|i| i.offset).collect();
    assert_eq!(offsets, vec![4, 5, 10, 15, 16]);
    assert!(jc.instructions[1].label.is_linked());
    assert!(!jc.instructions[0].label.is_linked());
}

#[test]
fn compile_encodes_the_fast_and_the_slow_path() {
    let mut jc = JitCompiler::new();
    jc.instructions.push(Instruction::new(
        0,
        InstructionEnum::IntFastSlowPathBinary(0x1_0000_0001, 0x2_0000_0002),
    ));
    jc.compile();
    assert_eq!(
        jc.assembler.machine_code,
        vec![
            0x55, 0x48, 0x89, 0xe5, // prologue
            0x48, 0x83, 0xf8, 0x00, // cmp rax, 0
            0x0f, 0x85, 0x1d, 0x00, 0x00, 0x00, // jne slow
            0x48, 0x83, 0xfb, 0x00, // cmp rbx, 0
            0x0f, 0x85, 0x13, 0x00, 0x00, 0x00, // jne slow
            0x49, 0x01, 0xd0, // add r8, rdx
            0x4c, 0x89, 0xc0, // mov rax, r8
            0x48, 0xc1, 0xe0, 0x10, // shl rax, 16
            0x48, 0xc1, 0xe8, 0x10, // shr rax, 16
            0xe9, 0x1e, 0x00, 0x00, 0x00, // jmp end
            0x48, 0xb9, 0x01, 0x00, 0x00, 0x00, 0x01, 0x00, 0x00, 0x00, // mov rcx, vm
            0x48, 0x83, 0xec, 0x20, // sub rsp, 32
            0x48, 0xb8, 0x02, 0x00, 0x00, 0x00, 0x02, 0x00, 0x00, 0x00, // mov rax, helper
            0xff, 0xd0, // call rax
            0x48, 0x83, 0xc4, 0x20, // add rsp, 32
        ]
    );
}

#[test]
fn return_a_constant() {
    let mut code = op32(Opcode::LOAD_CONST, 0);
    code.extend(op(Opcode::RETURN));
    let mut vm = VM::new(module(code, vec![Constant::Int(42)], vec![]));
    assert_eq!(vm.run_jit(&callbacks()), Ok(()));
    assert_eq!(
        kinds(&vm.jc),
        vec![
            (5, InstructionEnum::Mov(reg(Register::RAX), imm64(42))),
            (5, InstructionEnum::Exit),
        ]
    );
    assert_eq!(
        vm.jc.assembler.machine_code,
        vec![0x55, 0x48, 0x89, 0xe5, 0xb8, 0x2a, 0x00, 0x00, 0x00, 0xc9, 0xc3]
    );
    let returned = Object::new(42, ObjectTag::Int).encode();
    assert_eq!(vm.jit_result(returned), Ok(JitResult::Int(42)));
    assert_eq!(Object::from(returned).tag(), ObjectTag::Int);
}

#[test]
fn return_a_constant_interpreted() {
    let mut code = op32(Opcode::LOAD_CONST, 0);
    code.extend(op(Opcode::RETURN));
    let mut vm = VM::new(module(code, vec![Constant::Int(42)], vec![]));
    assert_eq!(
        vm.run(),
        Ok(vec![
            Event::Step(0, Opcode::LOAD_CONST),
            Event::Step(5, Opcode::RETURN),
            Event::Returned(42),
        ])
    );
}

fn store_then_load() -> Module {
    let mut code = op32(Opcode::LOAD_CONST, 0);
    code.extend(op32(Opcode::STORE_NAME, 0));
    code.extend(op32(Opcode::LOAD_CONST, 1));
    code.extend(op32(Opcode::STORE_NAME, 0));
    code.extend(op32(Opcode::LOAD_NAME, 0));
    code.extend(op(Opcode::RETURN));
    module(code, vec![Constant::Int(1), Constant::Int(7)], vec!["x"])
}

#[test]
fn store_then_load_interpreted() {
    let mut vm = VM::new(store_then_load());
    let events = vm.run().unwrap();
    assert_eq!(events.last(), Some(&Event::Returned(7)));
    assert_eq!(vm.globals, vec![7]);
    assert_eq!(Object::from(7).tag(), ObjectTag::Int);
    assert_eq!(Object::from(7).value(), 7);
}

#[test]
fn store_then_load_lowered() {
    let mut vm = VM::new(store_then_load());
    let cb = callbacks();
    assert_eq!(vm.lower(&cb), Ok(()));
    let store = |bco: u32| {
        vec![
            (bco, InstructionEnum::Pop(reg(Register::R8))),
            (bco, InstructionEnum::Mov(reg(Register::RCX), imm64(cb.vm))),
            (
                bco,
                InstructionEnum::Mov(
                    reg(Register::RDX),
                    Operand::Immediate(Immediate::Immediate32(0)),
                ),
            ),
            (bco, InstructionEnum::Mov(reg(Register::R8), reg(Register::R8))),
            (bco, InstructionEnum::Call(cb.store_name)),
        ]
    };
    let mut expected = vec![
        (0, InstructionEnum::Mov(reg(Register::RAX), imm64(1))),
        (0, InstructionEnum::Push(reg(Register::RAX))),
    ];
    expected.extend(store(5));
    expected.push((10, InstructionEnum::Mov(reg(Register::RAX), imm64(7))));
    expected.push((10, InstructionEnum::Push(reg(Register::RAX))));
    expected.extend(store(15));
    expected.extend(vec![
        (20, InstructionEnum::Mov(reg(Register::RCX), imm64(cb.vm))),
        (
            20,
            InstructionEnum::Mov(
                reg(Register::RDX),
                Operand::Immediate(Immediate::Immediate32(0)),
            ),
        ),
        (20, InstructionEnum::Call(cb.load_name)),
        (20, InstructionEnum::Push(reg(Register::RAX))),
        (25, InstructionEnum::Pop(reg(Register::RAX))),
        (25, InstructionEnum::Exit),
    ]);
    assert_eq!(kinds(&vm.jc), expected);
    assert!(vm.jc.can_compile());
}

#[test]
fn store_then_load_through_the_helpers() {
    let mut vm = VM::new(store_then_load());
    let one = Object::new(1, ObjectTag::Int);
    let seven = Object::new(7, ObjectTag::Int);
    assert_eq!(vm.store_name(0, one), one);
    assert_eq!(vm.store_name(0, seven), seven);
    assert!(vm.has_name(0));
    let loaded = vm.load_name(0);
    assert_eq!(loaded.tag(), ObjectTag::Int);
    assert_eq!(loaded.value(), 7);
}

#[test]
fn store_name_grows_the_globals_with_null() {
    let mut vm = VM::new(module(vec![], vec![], vec!["a", "b", "c"]));
    let v = Object::new(9, ObjectTag::Int);
    vm.store_name(1, v);
    let null = Object::new(0, ObjectTag::Null).encode();
    assert_eq!(vm.globals, vec![null, 9, null]);
    vm.store_name(5, v);
    assert_eq!(vm.globals, vec![null, 9, null, null, null, 9]);
    assert!(!vm.has_name(6));
}

#[test]
fn less_than_comparison() {
    let mut vm = VM::new(module(vec![], vec![], vec![]));
    let three = Object::new(3, ObjectTag::Int);
    let five = Object::new(5, ObjectTag::Int);
    let yes = vm.rust_lt(three, five);
    assert_eq!(yes.tag(), ObjectTag::Int);
    assert_eq!(yes.value(), 1);
    let no = vm.rust_lt(five, three);
    assert_eq!(no.tag(), ObjectTag::Int);
    assert_eq!(no.value(), 0);
    assert_eq!(vm.rust_lt(three, three).value(), 0);
}

#[test]
fn less_than_is_signed_for_integers() {
    let mut vm = VM::new(module(vec![], vec![], vec![]));
    let minus_one = Object::new(-1i64 as u64, ObjectTag::Int);
    assert_eq!(minus_one.value(), 0xffff_ffff_ffff);
    assert_eq!(minus_one.signed_value(), -1);
    let one = Object::new(1, ObjectTag::Int);
    let least = Object::new(0x8000_0000_0000, ObjectTag::Int);
    let greatest = Object::new(0x7fff_ffff_ffff, ObjectTag::Int);
    assert_eq!(least.signed_value(), -0x8000_0000_0000);
    assert_eq!(greatest.signed_value(), 0x7fff_ffff_ffff);
    assert_eq!(vm.rust_lt(minus_one, one), Object::new(1, ObjectTag::Int));
    assert_eq!(vm.rust_lt(one, minus_one), Object::new(0, ObjectTag::Int));
    assert_eq!(vm.rust_lt(least, minus_one).value(), 1);
    assert_eq!(vm.rust_lt(minus_one, least).value(), 0);
    assert_eq!(vm.rust_lt(least, greatest).value(), 1);
    assert_eq!(vm.rust_lt(greatest, least).value(), 0);
    assert_eq!(vm.rust_lt(minus_one, minus_one).value(), 0);
    assert_eq!(vm.globals, Vec::<u64>::new());
}

#[test]
fn less_than_takes_float_payloads_as_they_are() {
    let mut vm = VM::new(module(vec![], vec![], vec![]));
    let small = Object::new(2, ObjectTag::Float);
    let large = Object::new(0x8000_0000_0000, ObjectTag::Float);
    assert_eq!(vm.rust_lt(small, large), Object::new(1, ObjectTag::Int));
    assert_eq!(vm.rust_lt(large, small), Object::new(0, ObjectTag::Int));
}

#[test]
fn less_than_comparison_lowered() {
    let mut code = op32(Opcode::LOAD_CONST, 0);
    code.extend(op32(Opcode::LOAD_CONST, 1));
    code.extend(op(Opcode::BINARY_BOOLEAN_LESS_THAN));
    code.extend(op(Opcode::RETURN));
    let mut vm = VM::new(module(code, vec![Constant::Int(3), Constant::Int(5)], vec![]));
    let cb = callbacks();
    assert_eq!(vm.run_jit(&cb), Ok(()));
    assert_eq!(
        kinds(&vm.jc),
        vec![
            (0, InstructionEnum::Mov(reg(Register::RAX), imm64(3))),
            (0, InstructionEnum::Push(reg(Register::RAX))),
            (10, InstructionEnum::Mov(reg(Register::R8), imm64(5))),
            (10, InstructionEnum::Pop(reg(Register::RDX))),
            (10, InstructionEnum::Mov(reg(Register::RCX), imm64(cb.vm))),
            (10, InstructionEnum::Mov(reg(Register::RDX), reg(Register::RDX))),
            (10, InstructionEnum::Mov(reg(Register::R8), reg(Register::R8))),
            (10, InstructionEnum::Call(cb.rust_lt)),
            (11, InstructionEnum::Exit),
        ]
    );
}

#[test]
fn integer_addition_keeps_the_integer_tag() {
    let mut vm = VM::new(module(vec![], vec![], vec![]));
    let sum = vm.rust_add(Object::new(10, ObjectTag::Int), Object::new(32, ObjectTag::Int));
    assert_eq!(sum.tag(), ObjectTag::Int);
    assert_eq!(sum.value(), 42);
    let wrapped = vm.rust_add(
        Object::new(0xffff_ffff_ffff, ObjectTag::Int),
        Object::new(1, ObjectTag::Int),
    );
    assert_eq!(wrapped.tag(), ObjectTag::Int);
    assert_eq!(wrapped.value(), 0);
}

#[test]
fn integer_addition_lowered_with_a_fast_path() {
    let mut code = op32(Opcode::LOAD_CONST, 0);
    code.extend(op32(Opcode::LOAD_CONST, 1));
    code.extend(op(Opcode::BINARY_ADD));
    code.extend(op(Opcode::RETURN));
    let mut vm = VM::new(module(code, vec![Constant::Int(10), Constant::Int(32)], vec![]));
    let cb = callbacks();
    assert_eq!(vm.lower(&cb), Ok(()));
    assert_eq!(
        kinds(&vm.jc),
        vec![
            (0, InstructionEnum::Mov(reg(Register::RAX), imm64(10))),
            (0, InstructionEnum::Push(reg(Register::RAX))),
            (5, InstructionEnum::Mov(reg(Register::RAX), imm64(32))),
            (5, InstructionEnum::Push(reg(Register::RAX))),
            (10, InstructionEnum::Pop(reg(Register::R8))),
            (10, InstructionEnum::Pop(reg(Register::RDX))),
            (10, InstructionEnum::Mov(reg(Register::RAX), reg(Register::RDX))),
            (10, InstructionEnum::Shr(Register::RAX, 48)),
            (10, InstructionEnum::Mov(reg(Register::RBX), reg(Register::R8))),
            (10, InstructionEnum::Shr(Register::RBX, 48)),
            (10, InstructionEnum::IntFastSlowPathBinary(cb.vm, cb.rust_add)),
            (10, InstructionEnum::Push(reg(Register::RAX))),
            (11, InstructionEnum::Pop(reg(Register::RAX))),
            (11, InstructionEnum::Exit),
        ]
    );
    assert!(vm.jc.can_compile());
}

#[test]
fn forward_jump() {
    let mut code = op32(Opcode::LOAD_CONST, 0);
    code.extend(op32(Opcode::JUMP, 15));
    code.extend(op32(Opcode::LOAD_CONST, 1));
    code.extend(op(Opcode::RETURN));
    let mut vm = VM::new(module(code, vec![Constant::Int(99), Constant::Int(0)], vec![]));
    assert_eq!(vm.run_jit(&callbacks()), Ok(()));
    assert_eq!(
        vm.jc.assembler.machine_code,
        vec![
            0x55, 0x48, 0x89, 0xe5, // prologue
            0xb8, 0x63, 0x00, 0x00, 0x00, // mov eax, 99
            0x50, // push rax
            0xe9, 0x03, 0x00, 0x00, 0x00, // jmp over the second constant
            0x31, 0xc0, // xor eax, eax
            0x50, // push rax
            0x58, // pop rax
            0xc9, 0xc3, // leave; ret
        ]
    );
    let returned = Object::new(99, ObjectTag::Int).encode();
    assert_eq!(vm.jit_result(returned), Ok(JitResult::Int(99)));
}

#[test]
fn jump_into_an_operand_is_not_resolved() {
    let mut code = op32(Opcode::LOAD_CONST, 0);
    code.extend(op32(Opcode::JUMP, 8));
    code.extend(op32(Opcode::LOAD_CONST, 1));
    code.extend(op(Opcode::RETURN));
    let mut vm = VM::new(module(code, vec![Constant::Int(99), Constant::Int(0)], vec![]));
    assert_eq!(vm.run_jit(&callbacks()), Err(VmError::Uncompilable));
}

#[test]
fn pop_jump_if_false_lowered() {
    let mut code = op32(Opcode::LOAD_CONST, 0);
    code.extend(op32(Opcode::POP_JUMP_IF_FALSE, 11));
    code.extend(op(Opcode::POP_TOP));
    code.extend(op(Opcode::RETURN));
    let mut vm = VM::new(module(code, vec![Constant::Null], vec![]));
    assert_eq!(vm.run_jit(&callbacks()), Ok(()));
    let null = Object::new(0, ObjectTag::Null).encode();
    assert_eq!(
        kinds(&vm.jc),
        vec![
            (5, InstructionEnum::Mov(reg(Register::RAX), imm64(null))),
            (
                5,
                InstructionEnum::JumpBytecodeIfCmp(
                    reg(Register::RAX),
                    Condition::EqualTo,
                    Operand::Immediate(Immediate::Immediate8(0)),
                    11
                )
            ),
            (10, InstructionEnum::Pop(reg(Register::RAX))),
            (11, InstructionEnum::Pop(reg(Register::RAX))),
            (11, InstructionEnum::Exit),
        ]
    );
    assert_eq!(
        vm.jc.assembler.machine_code,
        vec![
            0x55, 0x48, 0x89, 0xe5, // prologue
            0x48, 0xb8, 0x00, 0x00, 0x00, 0x00, 0x00, 0x00, 0x01, 0x00, // mov rax, null
            0x48, 0x83, 0xf8, 0x00, // cmp rax, 0
            0x0f, 0x84, 0x01, 0x00, 0x00, 0x00, // je +1
            0x58, // pop rax
            0x58, // pop rax
            0xc9, 0xc3, // leave; ret
        ]
    );
}

#[test]
fn constants_are_materialized() {
    let mut code = op32(Opcode::LOAD_CONST, 0);
    code.extend(op32(Opcode::LOAD_CONST, 1));
    code.extend(op32(Opcode::LOAD_CONST, 2));
    code.extend(op32(Opcode::LOAD_CONST, 3));
    code.extend(op32(Opcode::LOAD_CONST, 4));
    let pool = vec![
        Constant::Null,
        Constant::Int(-1),
        Constant::Float(FloatConstant { bits: 0x4008_0000_0000_0000, whole: 3 }),
        Constant::String(String::from("hi")),
        Constant::Code(Code::new(String::from("f"), vec![], vec![0x20])),
    ];
    let mut vm = VM::new(module(code, pool, vec![]));
    let events = vm.run().unwrap();
    assert_eq!(events.len(), 5);
    let stack: Vec<u64> = vm.state.stack.iter().map(|o| o.encode()).collect();
    assert_eq!(
        stack,
        vec![
            0x0001_0000_0000_0000,
            0x0000_ffff_ffff_ffff,
            0x0002_0000_0000_0003,
            0x0003_0000_0000_0000,
            0x0003_0000_0000_0001,
        ]
    );
    assert_eq!(vm.jit_result(stack[3]), Ok(JitResult::String(String::from("hi"))));
    assert_eq!(vm.jit_result(stack[0]), Ok(JitResult::Null));
    assert_eq!(
        vm.jit_result(stack[4]),
        Err(VmError::UnsupportedResult(stack[4]))
    );
    assert_eq!(
        vm.jit_result(stack[2]),
        Err(VmError::UnsupportedResult(stack[2]))
    );
    assert_eq!(
        vm.jit_result(0x0003_0000_0000_0009),
        Err(VmError::UnsupportedResult(0x0003_0000_0000_0009))
    );
    assert_eq!(
        vm.jit_result(0x0009_0000_0000_0000),
        Err(VmError::UnsupportedResult(0x0009_0000_0000_0000))
    );
}

#[test]
fn pop_top_reports_what_it_dropped() {
    let mut code = op32(Opcode::LOAD_CONST, 0);
    code.extend(op(Opcode::POP_TOP));
    code.extend(op(Opcode::POP_TOP));
    code.extend(op(Opcode::RETURN));
    let mut vm = VM::new(module(code, vec![Constant::Int(4)], vec![]));
    assert_eq!(
        vm.run(),
        Ok(vec![
            Event::Step(0, Opcode::LOAD_CONST),
            Event::Step(5, Opcode::POP_TOP),
            Event::Popped(4),
            Event::Step(6, Opcode::POP_TOP),
            Event::Step(7, Opcode::RETURN),
        ])
    );
}

#[test]
fn lowering_errors() {
    let cb = callbacks();
    let mut invalid = VM::new(module(vec![0x30], vec![], vec![]));
    assert_eq!(invalid.run_jit(&cb), Err(VmError::InvalidOpcode(0x30)));
    let mut unknown = VM::new(module(vec![0x99], vec![], vec![]));
    assert_eq!(unknown.lower(&cb), Err(VmError::InvalidOpcode(0x99)));
    let mut short = VM::new(module(vec![0x00, 0x01, 0x00], vec![Constant::Null], vec![]));
    assert_eq!(short.run_jit(&cb), Err(VmError::MissingOperand(Opcode::LOAD_CONST)));
    let mut range = VM::new(module(op32(Opcode::LOAD_CONST, 1), vec![Constant::Null], vec![]));
    assert_eq!(range.run_jit(&cb), Err(VmError::ConstantOutOfRange(1)));
    let mut tuple = VM::new(module(
        op32(Opcode::LOAD_CONST, 0),
        vec![Constant::Tuple(vec![])],
        vec![],
    ));
    assert_eq!(tuple.run_jit(&cb), Err(VmError::UnsupportedConstant(0)));
}

#[test]
fn opcodes_outside_the_subset_are_found_before_lowering() {
    let outside = VM::new(module(op(Opcode::BINARY_SUB), vec![], vec![]));
    assert_eq!(outside.unsupported_opcode(), Some(Opcode::BINARY_SUB));
    let call = VM::new(module(op32(Opcode::CALL, 1), vec![], vec![]));
    assert_eq!(call.unsupported_opcode(), Some(Opcode::CALL));

    // The operand of an opcode is no opcode: 0x0d is the index here.
    let mut code = op32(Opcode::LOAD_CONST, 0x0d);
    code.extend(op(Opcode::RETURN));
    let operand = VM::new(module(code, vec![], vec![]));
    assert_eq!(operand.unsupported_opcode(), None);

    let mut later = op32(Opcode::LOAD_CONST, 0);
    later.extend(op(Opcode::POP_TOP));
    later.extend(op(Opcode::UNARY_SUB));
    later.extend(op(Opcode::BINARY_MUL));
    let vm = VM::new(module(later, vec![Constant::Int(1)], vec![]));
    assert_eq!(vm.unsupported_opcode(), Some(Opcode::UNARY_SUB));

    let empty = VM::new(module(vec![], vec![], vec![]));
    assert_eq!(empty.unsupported_opcode(), None);
    // Reading ends at a byte that is no opcode and at a missing operand.
    let invalid = VM::new(module(vec![0x30, 0x0d], vec![], vec![]));
    assert_eq!(invalid.unsupported_opcode(), None);
    let short = VM::new(module(vec![0x00, 0x0d, 0x0d], vec![], vec![]));
    assert_eq!(short.unsupported_opcode(), None);

    let mut whole = op32(Opcode::LOAD_CONST, 0);
    whole.extend(op32(Opcode::STORE_NAME, 0));
    whole.extend(op32(Opcode::LOAD_NAME, 0));
    whole.extend(op32(Opcode::LOAD_CONST, 0));
    whole.extend(op(Opcode::BINARY_ADD));
    whole.extend(op32(Opcode::LOAD_CONST, 0));
    whole.extend(op(Opcode::BINARY_BOOLEAN_LESS_THAN));
    whole.extend(op32(Opcode::POP_JUMP_IF_FALSE, 0));
    whole.extend(op32(Opcode::JUMP, 0));
    whole.extend(op(Opcode::POP_TOP));
    whole.extend(op(Opcode::RETURN));
    let subset = VM::new(module(whole, vec![Constant::Int(1)], vec!["x"]));
    assert_eq!(subset.unsupported_opcode(), None);
}

#[test]
fn a_failed_compilation_emits_no_machine_code() {
    let cb = callbacks();
    let mut code = op32(Opcode::LOAD_CONST, 0);
    code.extend(op32(Opcode::JUMP, 3));
    code.extend(op(Opcode::RETURN));
    let mut vm = VM::new(module(code, vec![Constant::Int(1)], vec![]));
    assert_eq!(vm.unsupported_opcode(), None);
    assert_eq!(vm.run_jit(&cb), Err(VmError::Uncompilable));
    assert_eq!(vm.jc.assembler.machine_code, Vec::<u8>::new());
    let mut range = VM::new(module(op32(Opcode::LOAD_CONST, 1), vec![Constant::Null], vec![]));
    assert_eq!(range.run_jit(&cb), Err(VmError::ConstantOutOfRange(1)));
    assert_eq!(range.jc.assembler.machine_code, Vec::<u8>::new());
}

#[test]
fn interpreter_errors() {
    let mut invalid = VM::new(module(vec![0x30], vec![], vec![]));
    assert_eq!(invalid.run(), Err(VmError::InvalidOpcode(0x30)));
    let mut outside = VM::new(module(op32(Opcode::JUMP, 0), vec![], vec![]));
    assert_eq!(outside.run(), Err(VmError::UnsupportedOpcode(Opcode::JUMP)));
    let mut short = VM::new(module(vec![0x05, 0x00], vec![], vec![]));
    assert_eq!(short.run(), Err(VmError::MissingOperand(Opcode::STORE_NAME)));
    let mut range = VM::new(module(op32(Opcode::LOAD_CONST, 3), vec![], vec![]));
    assert_eq!(range.run(), Err(VmError::ConstantOutOfRange(3)));
    let mut tuple = VM::new(module(
        op32(Opcode::LOAD_CONST, 0),
        vec![Constant::Tuple(vec![])],
        vec![],
    ));
    assert_eq!(tuple.run(), Err(VmError::UnsupportedConstant(0)));
    let mut empty = VM::new(module(op32(Opcode::STORE_NAME, 0), vec![], vec!["x"]));
    assert_eq!(empty.run(), Err(VmError::StackUnderflow(Opcode::STORE_NAME)));
    let mut name = VM::new(module(op32(Opcode::LOAD_NAME, 2), vec![], vec!["x"]));
    assert_eq!(name.run(), Err(VmError::NameOutOfRange(2)));
}

#[test]
fn encoders_do_the_same_on_any_buffer() {
    let mut fresh = kod::assembler::Assembler::new();
    fresh.mov(reg(Register::R9), imm64(0x1234));
    fresh.cmp(&reg(Register::RAX), &imm64(1));
    let mut used = kod::assembler::Assembler::new();
    used.trap();
    used.trap();
    used.mov(reg(Register::R9), imm64(0x1234));
    used.cmp(&reg(Register::RAX), &imm64(1));
    assert_eq!(fresh.machine_code[..], used.machine_code[2..]);
    let mut again = kod::assembler::Assembler::new();
    again.mov(reg(Register::R9), imm64(0x1234));
    again.cmp(&reg(Register::RAX), &imm64(1));
    assert_eq!(fresh.machine_code, again.machine_code);
}
