use kod::bytekod::{find_constant, find_name, matches_constant};
use kod::bytekod::{Code, Constant, FloatConstant, Module, Opcode};
use kod::operand::Register;
use kod::heap::{GarbageCollector, VMValue};
use kod::object::{Object, ObjectTag};

#[test]
fn tags_have_their_numbers() {
    assert_eq!(ObjectTag::from(0), ObjectTag::Int);
    assert_eq!(ObjectTag::from(1), ObjectTag::Null);
    assert_eq!(ObjectTag::from(2), ObjectTag::Float);
    assert_eq!(ObjectTag::from(3), ObjectTag::Pointer);
    assert_eq!(ObjectTag::from(4), ObjectTag::Code);
    assert_eq!(ObjectTag::from(5), ObjectTag::NativeFunc);
    assert_eq!(ObjectTag::NativeFunc.encode(), 5);
}

#[test]
fn packing_round_trips_every_tag() {
    let tags = [
        ObjectTag::Int,
        ObjectTag::Null,
        ObjectTag::Float,
        ObjectTag::Pointer,
        ObjectTag::Code,
        ObjectTag::NativeFunc,
    ];
    let payloads = [0u64, 1, 42, 0x1234_5678_9abc, 0x0000_ffff_ffff_ffff];
    for t in tags {
        for p in payloads {
            let obj = Object::new(p, t);
            assert!(obj.is_tagged());
            assert_eq!(obj.tag(), t);
            assert_eq!(obj.value(), p);
            assert_eq!(Object::from(obj.encode()), obj);
        }
    }
}

#[test]
fn packing_has_the_documented_layout() {
    assert_eq!(Object::new(42, ObjectTag::Int).encode(), 42);
    assert_eq!(Object::new(0, ObjectTag::Null).encode(), 0x0001_0000_0000_0000);
    assert_eq!(
        Object::new(0xabc, ObjectTag::Pointer).encode(),
        0x0003_0000_0000_0abc
    );
}

#[test]
fn payload_is_cut_to_48_bits() {
    let obj = Object::new(0xffff_ffff_ffff_ffff, ObjectTag::Int);
    assert_eq!(obj.value(), 0x0000_ffff_ffff_ffff);
    assert_eq!(obj.tag(), ObjectTag::Int);
}

#[test]
fn unknown_tag_is_recognised() {
    assert!(!Object::from(0x0006_0000_0000_0000).is_tagged());
    assert!(!Object::from(0xffff_0000_0000_0001).is_tagged());
    assert!(Object::from(0x0005_0000_0000_0000).is_tagged());
}

#[test]
fn opcodes_are_numbered_in_order() {
    assert_eq!(Opcode::LOAD_CONST.encode(), 0x00);
    assert_eq!(Opcode::STORE_NAME.encode(), 0x05);
    assert_eq!(Opcode::POP_TOP.encode(), 0x07);
    assert_eq!(Opcode::BINARY_ADD.encode(), 0x0c);
    assert_eq!(Opcode::BINARY_BOOLEAN_LESS_THAN.encode(), 0x1d);
    assert_eq!(Opcode::RETURN.encode(), 0x20);
    assert_eq!(Opcode::JUMP.encode(), 0x21);
    assert_eq!(Opcode::POP_JUMP_IF_FALSE.encode(), 0x22);
    assert_eq!(Opcode::UNPACK_SEQUENCE.encode(), 0x28);
}

#[test]
fn every_opcode_byte_decodes_to_itself() {
    for byte in 0u8..=0x28 {
        let op = Opcode::try_from(byte).unwrap();
        assert_eq!(op.encode(), byte);
    }
}

#[test]
fn bytes_that_are_no_opcode_are_rejected() {
    assert_eq!(Opcode::try_from(0x29), Err("Invalid opcode"));
    assert_eq!(Opcode::try_from(0x7f), Err("Invalid opcode"));
    assert_eq!(Opcode::try_from(0x80), Err("Unknown opcode"));
    assert_eq!(Opcode::try_from(0xff), Err("Unknown opcode"));
}

#[test]
fn opcodes_with_operands() {
    assert!(Opcode::LOAD_CONST.takes_operand());
    assert!(Opcode::JUMP.takes_operand());
    assert!(Opcode::CALL.takes_operand());
    assert!(Opcode::UNPACK_SEQUENCE.takes_operand());
    assert!(!Opcode::RETURN.takes_operand());
    assert!(!Opcode::POP_TOP.takes_operand());
    assert!(!Opcode::BINARY_ADD.takes_operand());
    assert!(!Opcode::SUBSCRIPT.takes_operand());
}

#[test]
fn code_emits_little_endian_and_returns_offsets() {
    let mut code = Code::new(String::from("f"), vec![], vec![]);
    assert_eq!(code.emit8(0x20), 0);
    assert_eq!(code.emit16(0x1234), 1);
    assert_eq!(code.emit32(0x1122_3344), 3);
    assert_eq!(code.emit64(0x0102_0304_0506_0708), 7);
    assert_eq!(code.emit(&[0xaa, 0xbb]), 15);
    assert_eq!(
        code.code,
        vec![
            0x20, 0x34, 0x12, 0x44, 0x33, 0x22, 0x11, 0x08, 0x07, 0x06, 0x05, 0x04, 0x03, 0x02,
            0x01, 0xaa, 0xbb
        ]
    );
}

#[test]
fn code_reads_back_what_it_emitted() {
    let mut code = Code::new(String::from("f"), vec![], vec![]);
    code.emit8(0x21);
    code.emit32(0xdead_beef);
    code.emit64(0x0123_4567_89ab_cdef);
    let mut at = 0usize;
    assert_eq!(code.read8(&mut at), 0x21);
    assert_eq!(at, 1);
    assert_eq!(code.read32(&mut at), 0xdead_beef);
    assert_eq!(at, 5);
    assert_eq!(code.read64(&mut at), 0x0123_4567_89ab_cdef);
    assert_eq!(at, 13);
}

#[test]
fn patch_overwrites_four_bytes() {
    let mut code = Code::new(String::from("f"), vec![], vec![1, 2, 3, 4, 5, 6]);
    code.patch32(1, 0xa1b2_c3d4);
    assert_eq!(code.code, vec![1, 0xd4, 0xc3, 0xb2, 0xa1, 6]);
}

#[test]
fn duplicates_hold_the_same() {
    let code = Code::new(String::from("f"), vec![String::from("a")], vec![1, 2]);
    assert_eq!(code.duplicate(), code);
    let c = Constant::Tuple(vec![
        Constant::Null,
        Constant::Int(-3),
        Constant::Float(FloatConstant { bits: 0x4008_0000_0000_0000, whole: 3 }),
        Constant::String(String::from("s")),
        Constant::Code(code),
    ]);
    assert_eq!(c.duplicate(), c);
    assert_eq!(c.clone(), c);
}

#[test]
fn new_module_is_empty() {
    let m = Module::new(String::from("m"));
    assert_eq!(m.name, "m");
    assert!(m.name_pool.is_empty());
    assert!(m.constant_pool.is_empty());
    assert!(m.entry.code.is_empty());
    assert!(m.entry.params.is_empty());
    assert_eq!(m.entry.name, "");
}

#[test]
fn heap_hands_out_handles_in_order() {
    let mut gc = GarbageCollector::new();
    assert_eq!(gc.next_handle(), 0);
    assert_eq!(gc.allocate(), 0);
    assert_eq!(gc.allocate(), 1);
    assert_eq!(gc.next_handle(), 2);
    assert!(matches!(gc.value_of(0), Some(VMValue::Null)));
    assert!(gc.value_of(2).is_none());
}

#[test]
fn heap_stores_values() {
    let mut gc = GarbageCollector::new();
    let h = gc.allocate();
    gc.store(h, &VMValue::String(String::from("hello")));
    match gc.value_of(h) {
        Some(VMValue::String(s)) => assert_eq!(s, "hello"),
        _ => panic!("no string"),
    }
}

#[test]
fn collection_keeps_what_a_root_refers_to() {
    let mut gc = GarbageCollector::new();
    let a = gc.allocate();
    let b = gc.allocate();
    let c = gc.allocate();
    gc.add_root(a);
    gc.add_root(c);
    gc.add_root(a);
    assert!(gc.is_root(a));
    assert!(!gc.is_root(b));
    gc.collect();
    assert!(gc.value_of(a).is_some());
    assert!(gc.value_of(b).is_none());
    assert!(gc.value_of(c).is_some());
    assert_eq!(gc.next_handle(), 3);
}

#[test]
fn marks_outlive_a_collection() {
    let mut gc = GarbageCollector::new();
    let a = gc.allocate();
    gc.add_root(a);
    gc.mark_phase();
    gc.sweep_phase();
    gc.sweep_phase();
    assert!(gc.value_of(a).is_some());
}

#[test]
fn code_objects_are_compared_by_what_they_hold() {
    let a = Code::new(String::from("f"), vec![String::from("x")], vec![1, 2]);
    assert!(a.same(&a.duplicate()));
    assert!(!a.same(&Code::new(String::from("g"), vec![String::from("x")], vec![1, 2])));
    assert!(!a.same(&Code::new(String::from("f"), vec![String::from("y")], vec![1, 2])));
    assert!(!a.same(&Code::new(String::from("f"), vec![], vec![1, 2])));
    assert!(!a.same(&Code::new(String::from("f"), vec![String::from("x")], vec![1, 3])));
    assert!(!a.same(&Code::new(String::from("f"), vec![String::from("x")], vec![1])));
}

#[test]
fn pool_entries_stand_for_equal_constants() {
    let float = |bits: u64| Constant::Float(FloatConstant { bits, whole: 0 });
    assert!(matches_constant(&Constant::Null, &Constant::Null));
    assert!(matches_constant(&Constant::Int(3), &Constant::Int(3)));
    assert!(!matches_constant(&Constant::Int(3), &Constant::Int(4)));
    assert!(!matches_constant(&Constant::Int(0), &Constant::Null));
    assert!(matches_constant(&float(0), &float(0x8000_0000_0000_0000)));
    assert!(matches_constant(&float(0x3ff0_0000_0000_0000), &float(0x3ff0_0000_0000_0000)));
    assert!(!matches_constant(&float(0x3ff0_0000_0000_0000), &float(0xbff0_0000_0000_0000)));
    assert!(!matches_constant(&float(0x7ff8_0000_0000_0000), &float(0x7ff8_0000_0000_0000)));
    assert!(matches_constant(&float(0x7ff0_0000_0000_0000), &float(0x7ff0_0000_0000_0000)));
    assert!(matches_constant(
        &Constant::String(String::from("a")),
        &Constant::String(String::from("a"))
    ));
    assert!(!matches_constant(&Constant::Tuple(vec![]), &Constant::Tuple(vec![])));
}

#[test]
fn pools_are_searched_from_the_front() {
    let pool = vec![Constant::Int(1), Constant::Null, Constant::Int(1)];
    assert_eq!(find_constant(&pool, &Constant::Int(1)), Some(0));
    assert_eq!(find_constant(&pool, &Constant::Null), Some(1));
    assert_eq!(find_constant(&pool, &Constant::Int(2)), None);
    let names = vec![String::from("a"), String::from("b"), String::from("a")];
    assert_eq!(find_name(&names, &String::from("a")), Some(0));
    assert_eq!(find_name(&names, &String::from("b")), Some(1));
    assert_eq!(find_name(&names, &String::from("c")), None);
}

#[test]
fn registers_have_an_index_and_a_class() {
    assert_eq!(Register::RAX.encode(), 0);
    assert_eq!(Register::RDI.encode(), 7);
    assert_eq!(Register::R8.encode(), 8);
    assert_eq!(Register::R15.encode(), 15);
    assert_eq!(Register::XMM0.encode(), 0);
    assert_eq!(Register::XMM15.encode(), 15);
    assert!(Register::XMM3.is_simd());
    assert!(!Register::R11.is_simd());
}
