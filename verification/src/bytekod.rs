//! The stack bytecode that the code generator consumes: opcodes, code objects,
//! constants and modules.

use vstd::prelude::*;
use crate::bytes::{le_u16, le_u32, le_u64, patched_u32, u32_at, u64_at};

verus! {

/// One instruction of the stack machine. Some are followed by a 32-bit
/// little-endian operand (see `has_operand`).
#[allow(non_camel_case_types)]
#[derive(Debug, Clone, Copy, PartialEq, Eq, Structural)]
pub enum Opcode {
    LOAD_CONST,
    LOAD_NAME,
    LOAD_ATTRIBUTE,
    LOAD_ATTRIBUTE_SELF,
    LOAD_METHOD,
    STORE_NAME,
    STORE_ATTRIBUTE,
    POP_TOP,
    UNARY_ADD,
    UNARY_SUB,
    UNARY_NOT,
    UNARY_BOOL_NOT,
    BINARY_ADD,
    BINARY_SUB,
    BINARY_MUL,
    BINARY_DIV,
    BINARY_MOD,
    BINARY_POW,
    BINARY_AND,
    BINARY_OR,
    BINARY_XOR,
    BINARY_LEFT_SHIFT,
    BINARY_RIGHT_SHIFT,
    BINARY_BOOLEAN_AND,
    BINARY_BOOLEAN_OR,
    BINARY_BOOLEAN_EQUAL,
    BINARY_BOOLEAN_NOT_EQUAL,
    BINARY_BOOLEAN_GREATER_THAN,
    BINARY_BOOLEAN_GREATER_THAN_OR_EQUAL_TO,
    BINARY_BOOLEAN_LESS_THAN,
    BINARY_BOOLEAN_LESS_THAN_OR_EQUAL_TO,
    CALL,
    RETURN,
    JUMP,
    POP_JUMP_IF_FALSE,
    BUILD_TUPLE,
    BUILD_LIST,
    BUILD_DICT,
    EXTEND_LIST,
    SUBSCRIPT,
    UNPACK_SEQUENCE,
}

/// The opcode that `byte` stands for, if it stands for one.
pub open spec fn opcode_of(byte: u8) -> Option<Opcode> {
    match byte {
        0 => Some(Opcode::LOAD_CONST),
        1 => Some(Opcode::LOAD_NAME),
        2 => Some(Opcode::LOAD_ATTRIBUTE),
        3 => Some(Opcode::LOAD_ATTRIBUTE_SELF),
        4 => Some(Opcode::LOAD_METHOD),
        5 => Some(Opcode::STORE_NAME),
        6 => Some(Opcode::STORE_ATTRIBUTE),
        7 => Some(Opcode::POP_TOP),
        8 => Some(Opcode::UNARY_ADD),
        9 => Some(Opcode::UNARY_SUB),
        10 => Some(Opcode::UNARY_NOT),
        11 => Some(Opcode::UNARY_BOOL_NOT),
        12 => Some(Opcode::BINARY_ADD),
        13 => Some(Opcode::BINARY_SUB),
        14 => Some(Opcode::BINARY_MUL),
        15 => Some(Opcode::BINARY_DIV),
        16 => Some(Opcode::BINARY_MOD),
        17 => Some(Opcode::BINARY_POW),
        18 => Some(Opcode::BINARY_AND),
        19 => Some(Opcode::BINARY_OR),
        20 => Some(Opcode::BINARY_XOR),
        21 => Some(Opcode::BINARY_LEFT_SHIFT),
        22 => Some(Opcode::BINARY_RIGHT_SHIFT),
        23 => Some(Opcode::BINARY_BOOLEAN_AND),
        24 => Some(Opcode::BINARY_BOOLEAN_OR),
        25 => Some(Opcode::BINARY_BOOLEAN_EQUAL),
        26 => Some(Opcode::BINARY_BOOLEAN_NOT_EQUAL),
        27 => Some(Opcode::BINARY_BOOLEAN_GREATER_THAN),
        28 => Some(Opcode::BINARY_BOOLEAN_GREATER_THAN_OR_EQUAL_TO),
        29 => Some(Opcode::BINARY_BOOLEAN_LESS_THAN),
        30 => Some(Opcode::BINARY_BOOLEAN_LESS_THAN_OR_EQUAL_TO),
        31 => Some(Opcode::CALL),
        32 => Some(Opcode::RETURN),
        33 => Some(Opcode::JUMP),
        34 => Some(Opcode::POP_JUMP_IF_FALSE),
        35 => Some(Opcode::BUILD_TUPLE),
        36 => Some(Opcode::BUILD_LIST),
        37 => Some(Opcode::BUILD_DICT),
        38 => Some(Opcode::EXTEND_LIST),
        39 => Some(Opcode::SUBSCRIPT),
        40 => Some(Opcode::UNPACK_SEQUENCE),
        _ => None,
    }
}

impl Opcode {
    /// The byte that stands for this opcode.
    pub open spec fn number(self) -> u8 {
        match self {
            Opcode::LOAD_CONST => 0,
            Opcode::LOAD_NAME => 1,
            Opcode::LOAD_ATTRIBUTE => 2,
            Opcode::LOAD_ATTRIBUTE_SELF => 3,
            Opcode::LOAD_METHOD => 4,
            Opcode::STORE_NAME => 5,
            Opcode::STORE_ATTRIBUTE => 6,
            Opcode::POP_TOP => 7,
            Opcode::UNARY_ADD => 8,
            Opcode::UNARY_SUB => 9,
            Opcode::UNARY_NOT => 10,
            Opcode::UNARY_BOOL_NOT => 11,
            Opcode::BINARY_ADD => 12,
            Opcode::BINARY_SUB => 13,
            Opcode::BINARY_MUL => 14,
            Opcode::BINARY_DIV => 15,
            Opcode::BINARY_MOD => 16,
            Opcode::BINARY_POW => 17,
            Opcode::BINARY_AND => 18,
            Opcode::BINARY_OR => 19,
            Opcode::BINARY_XOR => 20,
            Opcode::BINARY_LEFT_SHIFT => 21,
            Opcode::BINARY_RIGHT_SHIFT => 22,
            Opcode::BINARY_BOOLEAN_AND => 23,
            Opcode::BINARY_BOOLEAN_OR => 24,
            Opcode::BINARY_BOOLEAN_EQUAL => 25,
            Opcode::BINARY_BOOLEAN_NOT_EQUAL => 26,
            Opcode::BINARY_BOOLEAN_GREATER_THAN => 27,
            Opcode::BINARY_BOOLEAN_GREATER_THAN_OR_EQUAL_TO => 28,
            Opcode::BINARY_BOOLEAN_LESS_THAN => 29,
            Opcode::BINARY_BOOLEAN_LESS_THAN_OR_EQUAL_TO => 30,
            Opcode::CALL => 31,
            Opcode::RETURN => 32,
            Opcode::JUMP => 33,
            Opcode::POP_JUMP_IF_FALSE => 34,
            Opcode::BUILD_TUPLE => 35,
            Opcode::BUILD_LIST => 36,
            Opcode::BUILD_DICT => 37,
            Opcode::EXTEND_LIST => 38,
            Opcode::SUBSCRIPT => 39,
            Opcode::UNPACK_SEQUENCE => 40,
        }
    }

    /// Whether a 32-bit operand follows the opcode byte.
    pub open spec fn has_operand(self) -> bool {
        match self {
            Opcode::LOAD_CONST
            | Opcode::LOAD_NAME
            | Opcode::LOAD_ATTRIBUTE
            | Opcode::LOAD_ATTRIBUTE_SELF
            | Opcode::LOAD_METHOD
            | Opcode::STORE_NAME
            | Opcode::STORE_ATTRIBUTE
            | Opcode::CALL
            | Opcode::JUMP
            | Opcode::POP_JUMP_IF_FALSE
            | Opcode::BUILD_TUPLE
            | Opcode::BUILD_LIST
            | Opcode::BUILD_DICT
            | Opcode::UNPACK_SEQUENCE => true,
            _ => false,
        }
    }

    /// The byte that stands for this opcode.
    pub fn encode(&self) -> (byte: u8)
        ensures
            byte == self.number(),
            byte <= 0x28,
    {
        match self {
            Opcode::LOAD_CONST => 0,
            Opcode::LOAD_NAME => 1,
            Opcode::LOAD_ATTRIBUTE => 2,
            Opcode::LOAD_ATTRIBUTE_SELF => 3,
            Opcode::LOAD_METHOD => 4,
            Opcode::STORE_NAME => 5,
            Opcode::STORE_ATTRIBUTE => 6,
            Opcode::POP_TOP => 7,
            Opcode::UNARY_ADD => 8,
            Opcode::UNARY_SUB => 9,
            Opcode::UNARY_NOT => 10,
            Opcode::UNARY_BOOL_NOT => 11,
            Opcode::BINARY_ADD => 12,
            Opcode::BINARY_SUB => 13,
            Opcode::BINARY_MUL => 14,
            Opcode::BINARY_DIV => 15,
            Opcode::BINARY_MOD => 16,
            Opcode::BINARY_POW => 17,
            Opcode::BINARY_AND => 18,
            Opcode::BINARY_OR => 19,
            Opcode::BINARY_XOR => 20,
            Opcode::BINARY_LEFT_SHIFT => 21,
            Opcode::BINARY_RIGHT_SHIFT => 22,
            Opcode::BINARY_BOOLEAN_AND => 23,
            Opcode::BINARY_BOOLEAN_OR => 24,
            Opcode::BINARY_BOOLEAN_EQUAL => 25,
            Opcode::BINARY_BOOLEAN_NOT_EQUAL => 26,
            Opcode::BINARY_BOOLEAN_GREATER_THAN => 27,
            Opcode::BINARY_BOOLEAN_GREATER_THAN_OR_EQUAL_TO => 28,
            Opcode::BINARY_BOOLEAN_LESS_THAN => 29,
            Opcode::BINARY_BOOLEAN_LESS_THAN_OR_EQUAL_TO => 30,
            Opcode::CALL => 31,
            Opcode::RETURN => 32,
            Opcode::JUMP => 33,
            Opcode::POP_JUMP_IF_FALSE => 34,
            Opcode::BUILD_TUPLE => 35,
            Opcode::BUILD_LIST => 36,
            Opcode::BUILD_DICT => 37,
            Opcode::EXTEND_LIST => 38,
            Opcode::SUBSCRIPT => 39,
            Opcode::UNPACK_SEQUENCE => 40,
        }
    }

    /// Whether a 32-bit operand follows the opcode byte.
    pub fn takes_operand(&self) -> (b: bool)
        ensures
            b == self.has_operand(),
    {
        match self {
            Opcode::LOAD_CONST
            | Opcode::LOAD_NAME
            | Opcode::LOAD_ATTRIBUTE
            | Opcode::LOAD_ATTRIBUTE_SELF
            | Opcode::LOAD_METHOD
            | Opcode::STORE_NAME
            | Opcode::STORE_ATTRIBUTE
            | Opcode::CALL
            | Opcode::JUMP
            | Opcode::POP_JUMP_IF_FALSE
            | Opcode::BUILD_TUPLE
            | Opcode::BUILD_LIST
            | Opcode::BUILD_DICT
            | Opcode::UNPACK_SEQUENCE => true,
            _ => false,
        }
    }

    /// The opcode that `byte` stands for. Bytes from 0x80 on are unknown, the
    /// others above the last opcode are invalid.
    pub fn try_from(byte: u8) -> (r: Result<Opcode, &'static str>)
        ensures
            byte <= 0x28 <==> r is Ok,
            r matches Ok(op) ==> op.number() == byte && opcode_of(byte) == Some(op),
            r is Err ==> opcode_of(byte) is None,
            r matches Err(msg) ==> msg@ == (if byte >= 0x80 {
                "Unknown opcode"@
            } else {
                "Invalid opcode"@
            }),
    {
        match byte {
            0 => Ok(Opcode::LOAD_CONST),
            1 => Ok(Opcode::LOAD_NAME),
            2 => Ok(Opcode::LOAD_ATTRIBUTE),
            3 => Ok(Opcode::LOAD_ATTRIBUTE_SELF),
            4 => Ok(Opcode::LOAD_METHOD),
            5 => Ok(Opcode::STORE_NAME),
            6 => Ok(Opcode::STORE_ATTRIBUTE),
            7 => Ok(Opcode::POP_TOP),
            8 => Ok(Opcode::UNARY_ADD),
            9 => Ok(Opcode::UNARY_SUB),
            10 => Ok(Opcode::UNARY_NOT),
            11 => Ok(Opcode::UNARY_BOOL_NOT),
            12 => Ok(Opcode::BINARY_ADD),
            13 => Ok(Opcode::BINARY_SUB),
            14 => Ok(Opcode::BINARY_MUL),
            15 => Ok(Opcode::BINARY_DIV),
            16 => Ok(Opcode::BINARY_MOD),
            17 => Ok(Opcode::BINARY_POW),
            18 => Ok(Opcode::BINARY_AND),
            19 => Ok(Opcode::BINARY_OR),
            20 => Ok(Opcode::BINARY_XOR),
            21 => Ok(Opcode::BINARY_LEFT_SHIFT),
            22 => Ok(Opcode::BINARY_RIGHT_SHIFT),
            23 => Ok(Opcode::BINARY_BOOLEAN_AND),
            24 => Ok(Opcode::BINARY_BOOLEAN_OR),
            25 => Ok(Opcode::BINARY_BOOLEAN_EQUAL),
            26 => Ok(Opcode::BINARY_BOOLEAN_NOT_EQUAL),
            27 => Ok(Opcode::BINARY_BOOLEAN_GREATER_THAN),
            28 => Ok(Opcode::BINARY_BOOLEAN_GREATER_THAN_OR_EQUAL_TO),
            29 => Ok(Opcode::BINARY_BOOLEAN_LESS_THAN),
            30 => Ok(Opcode::BINARY_BOOLEAN_LESS_THAN_OR_EQUAL_TO),
            31 => Ok(Opcode::CALL),
            32 => Ok(Opcode::RETURN),
            33 => Ok(Opcode::JUMP),
            34 => Ok(Opcode::POP_JUMP_IF_FALSE),
            35 => Ok(Opcode::BUILD_TUPLE),
            36 => Ok(Opcode::BUILD_LIST),
            37 => Ok(Opcode::BUILD_DICT),
            38 => Ok(Opcode::EXTEND_LIST),
            39 => Ok(Opcode::SUBSCRIPT),
            40 => Ok(Opcode::UNPACK_SEQUENCE),
            _ => {
                if byte >= 0x80 {
                    Err("Unknown opcode")
                } else {
                    Err("Invalid opcode")
                }
            },
        }
    }
}

/// Two opcodes with the same byte are the same opcode.
pub proof fn lemma_opcode_number_injective(a: Opcode, b: Opcode)
    requires
        a.number() == b.number(),
    ensures
        a == b,
{
}

/// A code object: a name, the names of its parameters and its opcode bytes.
#[derive(Debug, Clone, PartialEq)]
pub struct Code {
    pub name: String,
    pub params: Vec<String>,
    pub code: Vec<u8>,
}

/// A line of the listing of a code object: the offset of an opcode, the
/// opcode, and its operand where it has one.
#[derive(Debug, Clone, Copy, PartialEq, Eq, Structural)]
pub struct CodeLine {
    pub offset: usize,
    pub opcode: Opcode,
    pub operand: Option<u32>,
}

/// Why a code object has no listing.
#[derive(Debug, Clone, Copy, PartialEq, Eq, Structural)]
pub enum CodeError {
    /// The byte at the offset stands for no opcode.
    InvalidOpcode(usize, u8),
    /// The code ends inside the operand of the opcode at the offset.
    MissingOperand(usize, Opcode),
}

/// The listing of the code from offset `pc` on, after the lines in `lines`.
pub open spec fn listed(code: Seq<u8>, pc: int, lines: Seq<CodeLine>) -> Result<
    Seq<CodeLine>,
    CodeError,
>
    decreases code.len() - pc,
{
    if pc < 0 || pc >= code.len() {
        Ok(lines)
    } else {
        match opcode_of(code[pc]) {
            None => Err(CodeError::InvalidOpcode(pc as usize, code[pc])),
            Some(opcode) => if !opcode.has_operand() {
                listed(
                    code,
                    pc + 1,
                    lines.push(CodeLine { offset: pc as usize, opcode, operand: None }),
                )
            } else if pc + 5 > code.len() {
                Err(CodeError::MissingOperand(pc as usize, opcode))
            } else {
                listed(
                    code,
                    pc + 5,
                    lines.push(
                        CodeLine {
                            offset: pc as usize,
                            opcode,
                            operand: Some(u32_at(code, pc + 1)),
                        },
                    ),
                )
            },
        }
    }
}

/// What a code object holds.
pub struct CodeView {
    pub name: Seq<char>,
    pub params: Seq<Seq<char>>,
    pub code: Seq<u8>,
}

impl View for Code {
    type V = CodeView;

    open spec fn view(&self) -> CodeView {
        CodeView {
            name: self.name@,
            params: self.params@.map_values(|p: String| p@),
            code: self.code@,
        }
    }
}

impl Code {
    pub fn new(name: String, params: Vec<String>, code: Vec<u8>) -> (c: Self)
        ensures
            c.name == name,
            c.params == params,
            c.code == code,
    {
        Self { name, params, code }
    }

    /// The listing of the code: every opcode with its offset and its
    /// operand.
    pub fn listing(&self) -> (r: Result<Vec<CodeLine>, CodeError>)
        ensures
            match listed(self.code@, 0, Seq::empty()) {
                Ok(lines) => r is Ok && r->Ok_0@ == lines,
                Err(e) => r == Err::<Vec<CodeLine>, CodeError>(e),
            },
    {
        let mut lines: Vec<CodeLine> = Vec::new();
        let mut i: usize = 0;
        while i < self.code.len()
            invariant
                i <= self.code@.len(),
                listed(self.code@, i as int, lines@) == listed(self.code@, 0, Seq::empty()),
            decreases self.code@.len() - i,
        {
            let offset = i;
            let byte = self.read8(&mut i);
            let opcode = match Opcode::try_from(byte) {
                Ok(opcode) => opcode,
                Err(_) => {
                    return Err(CodeError::InvalidOpcode(offset, byte));
                },
            };
            let mut operand: Option<u32> = None;
            if opcode.takes_operand() {
                if self.code.len() - i < 4 {
                    return Err(CodeError::MissingOperand(offset, opcode));
                }
                operand = Some(self.read32(&mut i));
            }
            lines.push(CodeLine { offset, opcode, operand });
        }
        Ok(lines)
    }

    /// Whether two code objects hold the same.
    pub fn same(&self, other: &Code) -> (b: bool)
        ensures
            b == (self@ == other@),
    {
        if self.name != other.name {
            return false;
        }
        if self.params.len() != other.params.len() || self.code.len() != other.code.len() {
            assert(self@.params.len() == self.params@.len());
            assert(other@.params.len() == other.params@.len());
            return false;
        }
        let mut i: usize = 0;
        while i < self.params.len()
            invariant
                i <= self.params@.len(),
                self.params@.len() == other.params@.len(),
                forall|j: int| 0 <= j < i ==> (#[trigger] self.params@[j])@ == other.params@[j]@,
            decreases self.params@.len() - i,
        {
            if self.params[i] != other.params[i] {
                assert(self@.params[i as int] == self.params@[i as int]@);
                assert(other@.params[i as int] == other.params@[i as int]@);
                return false;
            }
            i += 1;
        }
        let mut k: usize = 0;
        while k < self.code.len()
            invariant
                k <= self.code@.len(),
                self.code@.len() == other.code@.len(),
                forall|j: int| 0 <= j < k ==> self.code@[j] == other.code@[j],
            decreases self.code@.len() - k,
        {
            if self.code[k] != other.code[k] {
                return false;
            }
            k += 1;
        }
        assert(self@.params =~= other@.params);
        assert(self@.code =~= other@.code);
        true
    }

    /// A code object that holds the same.
    pub fn duplicate(&self) -> (c: Self)
        ensures
            c@ == self@,
    {
        let mut params: Vec<String> = Vec::new();
        let mut i: usize = 0;
        while i < self.params.len()
            invariant
                i <= self.params@.len(),
                params@.len() == i,
                forall|j: int| 0 <= j < i ==> (#[trigger] params@[j])@ == self.params@[j]@,
            decreases self.params@.len() - i,
        {
            params.push(self.params[i].clone());
            i += 1;
        }
        let mut code: Vec<u8> = Vec::new();
        let mut k: usize = 0;
        while k < self.code.len()
            invariant
                k <= self.code@.len(),
                code@ == self.code@.subrange(0, k as int),
            decreases self.code@.len() - k,
        {
            code.push(self.code[k]);
            k += 1;
            assert(code@ =~= self.code@.subrange(0, k as int));
        }
        assert(self.code@.subrange(0, k as int) =~= self.code@);
        let c = Self { name: self.name.clone(), params, code };
        assert(c@.params =~= self@.params);
        c
    }

    /// Appends `other` and returns the offset at which it starts.
    pub fn emit(&mut self, other: &[u8]) -> (at: usize)
        ensures
            at == old(self).code@.len(),
            final(self).code@ == old(self).code@ + other@,
            final(self).name == old(self).name,
            final(self).params == old(self).params,
    {
        let at = self.code.len();
        let mut i: usize = 0;
        while i < other.len()
            invariant
                i <= other@.len(),
                self.code@ == old(self).code@ + other@.subrange(0, i as int),
                self.name == old(self).name,
                self.params == old(self).params,
            decreases other@.len() - i,
        {
            self.code.push(other[i]);
            i += 1;
            assert(self.code@ =~= old(self).code@ + other@.subrange(0, i as int));
        }
        assert(other@.subrange(0, i as int) =~= other@);
        at
    }

    /// Appends one byte and returns its offset.
    pub fn emit8(&mut self, byte: u8) -> (at: usize)
        ensures
            at == old(self).code@.len(),
            final(self).code@ == old(self).code@.push(byte),
            final(self).name == old(self).name,
            final(self).params == old(self).params,
    {
        let at = self.code.len();
        self.code.push(byte);
        at
    }

    /// Appends `word`, least significant byte first, and returns its offset.
    pub fn emit16(&mut self, word: u16) -> (at: usize)
        ensures
            at == old(self).code@.len(),
            final(self).code@ == old(self).code@ + le_u16(word),
            final(self).name == old(self).name,
            final(self).params == old(self).params,
    {
        let at = self.code.len();
        self.code.push(#[verifier::truncate] (word as u8));
        self.code.push(#[verifier::truncate] ((word >> 8) as u8));
        assert(self.code@ =~= old(self).code@ + le_u16(word));
        at
    }

    /// Appends `dword`, least significant byte first, and returns its offset.
    pub fn emit32(&mut self, dword: u32) -> (at: usize)
        ensures
            at == old(self).code@.len(),
            final(self).code@ == old(self).code@ + le_u32(dword),
            final(self).name == old(self).name,
            final(self).params == old(self).params,
    {
        let at = self.code.len();
        self.code.push(#[verifier::truncate] (dword as u8));
        self.code.push(#[verifier::truncate] ((dword >> 8) as u8));
        self.code.push(#[verifier::truncate] ((dword >> 16) as u8));
        self.code.push(#[verifier::truncate] ((dword >> 24) as u8));
        assert(self.code@ =~= old(self).code@ + le_u32(dword));
        at
    }

    /// Appends `qword`, least significant byte first, and returns its offset.
    pub fn emit64(&mut self, qword: u64) -> (at: usize)
        ensures
            at == old(self).code@.len(),
            final(self).code@ == old(self).code@ + le_u64(qword),
            final(self).name == old(self).name,
            final(self).params == old(self).params,
    {
        let at = self.code.len();
        self.code.push(#[verifier::truncate] (qword as u8));
        self.code.push(#[verifier::truncate] ((qword >> 8) as u8));
        self.code.push(#[verifier::truncate] ((qword >> 16) as u8));
        self.code.push(#[verifier::truncate] ((qword >> 24) as u8));
        self.code.push(#[verifier::truncate] ((qword >> 32) as u8));
        self.code.push(#[verifier::truncate] ((qword >> 40) as u8));
        self.code.push(#[verifier::truncate] ((qword >> 48) as u8));
        self.code.push(#[verifier::truncate] ((qword >> 56) as u8));
        assert(self.code@ =~= old(self).code@ + le_u64(qword));
        at
    }

    /// Reads the byte at `offset` and moves `offset` past it.
    pub fn read8(&self, offset: &mut usize) -> (byte: u8)
        requires
            *old(offset) < self.code.len(),
        ensures
            byte == self.code@[*old(offset) as int],
            *final(offset) == *old(offset) + 1,
    {
        let result = self.code[*offset];
        *offset += 1;
        result
    }

    /// Reads the little-endian 32-bit number at `offset` and moves `offset`
    /// past it.
    pub fn read32(&self, offset: &mut usize) -> (dword: u32)
        requires
            *old(offset) + 4 <= self.code.len(),
        ensures
            dword == u32_at(self.code@, *old(offset) as int),
            *final(offset) == *old(offset) + 4,
    {
        let at: usize = *offset;
        let result = (self.code[at] as u32) | ((self.code[at + 1] as u32) << 8) | ((self.code[at
            + 2] as u32) << 16) | ((self.code[at + 3] as u32) << 24);
        *offset += 4;
        result
    }

    /// Reads the little-endian 64-bit number at `offset` and moves `offset`
    /// past it.
    pub fn read64(&self, offset: &mut usize) -> (qword: u64)
        requires
            *old(offset) + 8 <= self.code.len(),
        ensures
            qword == u64_at(self.code@, *old(offset) as int),
            *final(offset) == *old(offset) + 8,
    {
        let at: usize = *offset;
        let result = (self.code[at] as u64) | ((self.code[at + 1] as u64) << 8) | ((self.code[at
            + 2] as u64) << 16) | ((self.code[at + 3] as u64) << 24) | ((self.code[at + 4] as u64)
            << 32) | ((self.code[at + 5] as u64) << 40) | ((self.code[at + 6] as u64) << 48) | ((
        self.code[at + 7] as u64) << 56);
        *offset += 8;
        result
    }

    /// Overwrites the four bytes from `offset` with `value`, least significant
    /// byte first.
    pub fn patch32(&mut self, offset: usize, value: u32)
        requires
            offset + 4 <= old(self).code.len(),
        ensures
            final(self).code@ == patched_u32(old(self).code@, offset as int, value),
            final(self).name == old(self).name,
            final(self).params == old(self).params,
    {
        proof {
            reveal(patched_u32);
        }
        self.code[offset] = #[verifier::truncate] (value as u8);
        self.code[offset + 1] = #[verifier::truncate] ((value >> 8) as u8);
        self.code[offset + 2] = #[verifier::truncate] ((value >> 16) as u8);
        self.code[offset + 3] = #[verifier::truncate] ((value >> 24) as u8);
    }
}

/// A number with a fraction, held as the integers that stand for it: its
/// IEEE-754 bit pattern, and the number cut to an unsigned integer, which is
/// what a packed value carries of it.
#[derive(Debug, Clone, Copy, PartialEq, Eq, Structural)]
pub struct FloatConstant {
    pub bits: u64,
    pub whole: u64,
}

/// An entry of a module's constant pool.
#[derive(Debug, PartialEq)]
pub enum Constant {
    Null,
    Int(i64),
    Float(FloatConstant),
    String(String),
    Code(Code),
    Tuple(Vec<Constant>),
}

/// What a constant holds.
pub enum ConstantView {
    Null,
    Int(i64),
    Float(FloatConstant),
    String(Seq<char>),
    Code(CodeView),
    Tuple(Seq<ConstantView>),
}

/// What a constant holds.
pub open spec fn constant_view(c: Constant) -> ConstantView
    decreases c,
{
    match c {
        Constant::Null => ConstantView::Null,
        Constant::Int(i) => ConstantView::Int(i),
        Constant::Float(f) => ConstantView::Float(f),
        Constant::String(s) => ConstantView::String(s@),
        Constant::Code(code) => ConstantView::Code(code@),
        Constant::Tuple(items) => ConstantView::Tuple(constant_views(items@, 0)),
    }
}

/// What the constants from index `from` on hold.
pub open spec fn constant_views(items: Seq<Constant>, from: int) -> Seq<ConstantView>
    decreases items, items.len() - from,
{
    if 0 <= from < items.len() {
        seq![constant_view(items[from])] + constant_views(items, from + 1)
    } else {
        Seq::empty()
    }
}

/// What the entries of a constant pool hold.
pub open spec fn pool_view(pool: Seq<Constant>) -> Seq<ConstantView> {
    pool.map_values(|c: Constant| constant_view(c))
}

/// What the entries of a name pool hold.
pub open spec fn names_view(pool: Seq<String>) -> Seq<Seq<char>> {
    pool.map_values(|s: String| s@)
}

/// Whether two numbers with a fraction, given by their bit patterns, are
/// equal as numbers: no number equals one that is not a number, and the two
/// zeros are equal.
pub open spec fn float_equal(a: u64, b: u64) -> bool {
    let magnitude_a = a & 0x7fff_ffff_ffff_ffff;
    let magnitude_b = b & 0x7fff_ffff_ffff_ffff;
    if magnitude_a > 0x7ff0_0000_0000_0000 || magnitude_b > 0x7ff0_0000_0000_0000 {
        false
    } else if magnitude_a == 0 && magnitude_b == 0 {
        true
    } else {
        a == b
    }
}

/// Whether an entry of the constant pool can stand for a wanted constant: it
/// is of the same kind and holds the same. No entry stands for a tuple.
pub open spec fn pool_match(entry: ConstantView, wanted: ConstantView) -> bool {
    match (entry, wanted) {
        (ConstantView::Null, ConstantView::Null) => true,
        (ConstantView::Int(a), ConstantView::Int(b)) => a == b,
        (ConstantView::Float(a), ConstantView::Float(b)) => float_equal(a.bits, b.bits),
        (ConstantView::String(a), ConstantView::String(b)) => a == b,
        (ConstantView::Code(a), ConstantView::Code(b)) => a == b,
        _ => false,
    }
}

/// The first index from `from` on of an entry that can stand for the wanted
/// constant, or the length of the pool if there is none.
pub open spec fn first_match(pool: Seq<ConstantView>, wanted: ConstantView, from: int) -> int
    decreases pool.len() - from,
{
    if from < 0 || from >= pool.len() {
        pool.len() as int
    } else if pool_match(pool[from], wanted) {
        from
    } else {
        first_match(pool, wanted, from + 1)
    }
}

/// The first index from `from` on of the given name, or the length of the
/// pool if it is not in it.
pub open spec fn first_name(pool: Seq<Seq<char>>, name: Seq<char>, from: int) -> int
    decreases pool.len() - from,
{
    if from < 0 || from >= pool.len() {
        pool.len() as int
    } else if pool[from] == name {
        from
    } else {
        first_name(pool, name, from + 1)
    }
}

/// Whether an entry of the constant pool can stand for a wanted constant.
pub fn matches_constant(entry: &Constant, wanted: &Constant) -> (b: bool)
    ensures
        b == pool_match(constant_view(*entry), constant_view(*wanted)),
{
    match (entry, wanted) {
        (Constant::Null, Constant::Null) => true,
        (Constant::Int(a), Constant::Int(b)) => *a == *b,
        (Constant::Float(a), Constant::Float(b)) => {
            let magnitude_a: u64 = a.bits & 0x7fff_ffff_ffff_ffff;
            let magnitude_b: u64 = b.bits & 0x7fff_ffff_ffff_ffff;
            if magnitude_a > 0x7ff0_0000_0000_0000 || magnitude_b > 0x7ff0_0000_0000_0000 {
                false
            } else if magnitude_a == 0 && magnitude_b == 0 {
                true
            } else {
                a.bits == b.bits
            }
        },
        (Constant::String(a), Constant::String(b)) => *a == *b,
        (Constant::Code(a), Constant::Code(b)) => a.same(b),
        _ => false,
    }
}

/// The first index of an entry of the pool that can stand for the wanted
/// constant.
pub fn find_constant(pool: &Vec<Constant>, wanted: &Constant) -> (r: Option<usize>)
    ensures
        match r {
            Some(i) => i < pool@.len() && i == first_match(
                pool_view(pool@),
                constant_view(*wanted),
                0,
            ),
            None => first_match(pool_view(pool@), constant_view(*wanted), 0) == pool@.len(),
        },
{
    let mut i: usize = 0;
    while i < pool.len()
        invariant
            i <= pool@.len(),
            first_match(pool_view(pool@), constant_view(*wanted), 0) == first_match(
                pool_view(pool@),
                constant_view(*wanted),
                i as int,
            ),
        decreases pool@.len() - i,
    {
        assert(pool_view(pool@)[i as int] == constant_view(pool@[i as int]));
        if matches_constant(&pool[i], wanted) {
            return Some(i);
        }
        i += 1;
    }
    None
}

/// The first index of the given name in the pool.
pub fn find_name(pool: &Vec<String>, name: &String) -> (r: Option<usize>)
    ensures
        match r {
            Some(i) => i < pool@.len() && i == first_name(names_view(pool@), name@, 0),
            None => first_name(names_view(pool@), name@, 0) == pool@.len(),
        },
{
    let mut i: usize = 0;
    while i < pool.len()
        invariant
            i <= pool@.len(),
            first_name(names_view(pool@), name@, 0) == first_name(
                names_view(pool@),
                name@,
                i as int,
            ),
        decreases pool@.len() - i,
    {
        assert(names_view(pool@)[i as int] == pool@[i as int]@);
        if pool[i] == *name {
            return Some(i);
        }
        i += 1;
    }
    None
}

/// A copy of each constant.
fn duplicate_all(items: &Vec<Constant>) -> (copies: Vec<Constant>)
    ensures
        constant_views(copies@, 0) == constant_views(items@, 0),
    decreases items,
{
    let mut copies: Vec<Constant> = Vec::new();
    let mut i: usize = 0;
    while i < items.len()
        invariant
            i <= items@.len(),
            copies@.len() == i,
            forall|j: int| 0 <= j < i ==> constant_view(#[trigger] copies@[j]) == constant_view(
                items@[j],
            ),
        decreases items@.len() - i,
    {
        copies.push(items[i].duplicate());
        i += 1;
    }
    proof {
        lemma_constant_views_alike(copies@, items@, 0);
    }
    copies
}

/// Constants that hold the same one by one hold the same as sequences.
proof fn lemma_constant_views_alike(a: Seq<Constant>, b: Seq<Constant>, from: int)
    requires
        a.len() == b.len(),
        0 <= from <= a.len(),
        forall|j: int| 0 <= j < a.len() ==> constant_view(#[trigger] a[j]) == constant_view(b[j]),
    ensures
        constant_views(a, from) == constant_views(b, from),
    decreases a.len() - from,
{
    if from < a.len() {
        lemma_constant_views_alike(a, b, from + 1);
    }
}

impl Constant {
    /// A copy of this constant.
    pub fn duplicate(&self) -> (c: Constant)
        ensures
            constant_view(c) == constant_view(*self),
        decreases self,
    {
        match self {
            Constant::Null => Constant::Null,
            Constant::Int(i) => Constant::Int(*i),
            Constant::Float(f) => Constant::Float(*f),
            Constant::String(s) => Constant::String(s.clone()),
            Constant::Code(code) => Constant::Code(code.duplicate()),
            Constant::Tuple(items) => Constant::Tuple(duplicate_all(items)),
        }
    }
}

impl Clone for Constant {
    fn clone(&self) -> (c: Self) {
        self.duplicate()
    }
}

/// A compiled module: its name pool, its constant pool and the code that runs
/// when it is entered.
#[derive(Debug, Clone)]
pub struct Module {
    pub name: String,
    pub name_pool: Vec<String>,
    pub constant_pool: Vec<Constant>,
    pub entry: Code,
}

impl Module {
    /// An empty module called `name`.
    pub fn new(name: String) -> (m: Self)
        ensures
            m.name == name,
            m.name_pool@.len() == 0,
            m.constant_pool@.len() == 0,
            m.entry.name@.len() == 0,
            m.entry.params@.len() == 0,
            m.entry.code@.len() == 0,
    {
        Self {
            name,
            name_pool: Vec::new(),
            constant_pool: Vec::new(),
            entry: Code::new(String::new(), Vec::new(), Vec::new()),
        }
    }
}

} // verus!
