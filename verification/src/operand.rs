//! Operands of the instruction encoder and the two bytes that describe them:
//! registers, immediates, condition codes, ModR/M and REX.

use vstd::prelude::*;
use crate::bytes::{le_u32, le_u64};

verus! {

/// A hardware register: sixteen general-purpose ones and sixteen SIMD ones.
#[derive(Copy, Clone, PartialEq, Eq, Structural, Debug)]
pub enum Register {
    RAX,
    RCX,
    RDX,
    RBX,
    RSP,
    RBP,
    RSI,
    RDI,
    R8,
    R9,
    R10,
    R11,
    R12,
    R13,
    R14,
    R15,
    XMM0,
    XMM1,
    XMM2,
    XMM3,
    XMM4,
    XMM5,
    XMM6,
    XMM7,
    XMM8,
    XMM9,
    XMM10,
    XMM11,
    XMM12,
    XMM13,
    XMM14,
    XMM15,
}

impl Register {
    /// The four-bit hardware index of the register.
    pub open spec fn index(self) -> u8 {
        match self {
            Register::RAX | Register::XMM0 => 0,
            Register::RCX | Register::XMM1 => 1,
            Register::RDX | Register::XMM2 => 2,
            Register::RBX | Register::XMM3 => 3,
            Register::RSP | Register::XMM4 => 4,
            Register::RBP | Register::XMM5 => 5,
            Register::RSI | Register::XMM6 => 6,
            Register::RDI | Register::XMM7 => 7,
            Register::R8 | Register::XMM8 => 8,
            Register::R9 | Register::XMM9 => 9,
            Register::R10 | Register::XMM10 => 10,
            Register::R11 | Register::XMM11 => 11,
            Register::R12 | Register::XMM12 => 12,
            Register::R13 | Register::XMM13 => 13,
            Register::R14 | Register::XMM14 => 14,
            Register::R15 | Register::XMM15 => 15,
        }
    }

    /// Whether the register is a SIMD register.
    pub open spec fn is_float(self) -> bool {
        match self {
            Register::XMM0
            | Register::XMM1
            | Register::XMM2
            | Register::XMM3
            | Register::XMM4
            | Register::XMM5
            | Register::XMM6
            | Register::XMM7
            | Register::XMM8
            | Register::XMM9
            | Register::XMM10
            | Register::XMM11
            | Register::XMM12
            | Register::XMM13
            | Register::XMM14
            | Register::XMM15 => true,
            _ => false,
        }
    }

    /// Whether the register is a SIMD register.
    pub fn is_simd(&self) -> (b: bool)
        ensures
            b == self.is_float(),
    {
        match self {
            Register::XMM0
            | Register::XMM1
            | Register::XMM2
            | Register::XMM3
            | Register::XMM4
            | Register::XMM5
            | Register::XMM6
            | Register::XMM7
            | Register::XMM8
            | Register::XMM9
            | Register::XMM10
            | Register::XMM11
            | Register::XMM12
            | Register::XMM13
            | Register::XMM14
            | Register::XMM15 => true,
            _ => false,
        }
    }

    /// The four-bit hardware index of the register.
    pub fn encode(&self) -> (i: u8)
        ensures
            i == self.index(),
            i < 16,
    {
        match self {
            Register::RAX | Register::XMM0 => 0,
            Register::RCX | Register::XMM1 => 1,
            Register::RDX | Register::XMM2 => 2,
            Register::RBX | Register::XMM3 => 3,
            Register::RSP | Register::XMM4 => 4,
            Register::RBP | Register::XMM5 => 5,
            Register::RSI | Register::XMM6 => 6,
            Register::RDI | Register::XMM7 => 7,
            Register::R8 | Register::XMM8 => 8,
            Register::R9 | Register::XMM9 => 9,
            Register::R10 | Register::XMM10 => 10,
            Register::R11 | Register::XMM11 => 11,
            Register::R12 | Register::XMM12 => 12,
            Register::R13 | Register::XMM13 => 13,
            Register::R14 | Register::XMM14 => 14,
            Register::R15 | Register::XMM15 => 15,
        }
    }
}

/// An unsigned constant of 8, 32 or 64 bits.
#[derive(Copy, Clone, PartialEq, Eq, Structural, Debug)]
pub enum Immediate {
    Immediate8(u8),
    Immediate32(u32),
    Immediate64(u64),
}

impl Immediate {
    /// The constant, widened with zeros to 64 bits.
    pub open spec fn value(self) -> u64 {
        match self {
            Immediate::Immediate8(i) => i as u64,
            Immediate::Immediate32(i) => i as u64,
            Immediate::Immediate64(i) => i,
        }
    }

    /// The bytes of the constant in its own width, least significant first.
    pub open spec fn le_bytes(self) -> Seq<u8> {
        match self {
            Immediate::Immediate8(i) => seq![i],
            Immediate::Immediate32(i) => le_u32(i),
            Immediate::Immediate64(i) => le_u64(i),
        }
    }

    /// The bytes of the constant in its own width, least significant first.
    pub fn to_le_bytes(&self) -> (bytes: Vec<u8>)
        ensures
            bytes@ == self.le_bytes(),
    {
        let mut bytes: Vec<u8> = Vec::new();
        match self {
            Immediate::Immediate8(i) => {
                bytes.push(*i);
                assert(bytes@ =~= self.le_bytes());
            },
            Immediate::Immediate32(i) => {
                let v: u32 = *i;
                bytes.push(#[verifier::truncate] (v as u8));
                bytes.push(#[verifier::truncate] ((v >> 8) as u8));
                bytes.push(#[verifier::truncate] ((v >> 16) as u8));
                bytes.push(#[verifier::truncate] ((v >> 24) as u8));
                assert(bytes@ =~= self.le_bytes());
            },
            Immediate::Immediate64(i) => {
                let v: u64 = *i;
                bytes.push(#[verifier::truncate] (v as u8));
                bytes.push(#[verifier::truncate] ((v >> 8) as u8));
                bytes.push(#[verifier::truncate] ((v >> 16) as u8));
                bytes.push(#[verifier::truncate] ((v >> 24) as u8));
                bytes.push(#[verifier::truncate] ((v >> 32) as u8));
                bytes.push(#[verifier::truncate] ((v >> 40) as u8));
                bytes.push(#[verifier::truncate] ((v >> 48) as u8));
                bytes.push(#[verifier::truncate] ((v >> 56) as u8));
                assert(bytes@ =~= self.le_bytes());
            },
        }
        bytes
    }
}

/// The condition of a conditional jump, set or move.
#[derive(Copy, Clone, PartialEq, Eq, Structural, Debug)]
pub enum Condition {
    Overflow,
    EqualTo,
    NotEqualTo,
    UnsignedGreaterThan,
    UnsignedGreaterThanOrEqualTo,
    UnsignedLessThan,
    UnsignedLessThanOrEqualTo,
    ParityEven,
    ParityOdd,
    SignedGreaterThan,
    SignedGreaterThanOrEqualTo,
    SignedLessThan,
    SignedLessThanOrEqualTo,
    Unordered,
    NotUnordered,
    Below,
    BelowOrEqual,
    Above,
    AboveOrEqual,
}

impl Condition {
    /// The low nibble of the opcode byte. Synonyms share a nibble.
    pub open spec fn nibble(self) -> u8 {
        match self {
            Condition::Overflow => 0x0,
            Condition::EqualTo => 0x4,
            Condition::NotEqualTo => 0x5,
            Condition::UnsignedGreaterThan => 0x7,
            Condition::UnsignedGreaterThanOrEqualTo => 0x3,
            Condition::UnsignedLessThan => 0x2,
            Condition::UnsignedLessThanOrEqualTo => 0x6,
            Condition::ParityEven => 0xA,
            Condition::ParityOdd => 0xB,
            Condition::SignedGreaterThan => 0xF,
            Condition::SignedGreaterThanOrEqualTo => 0xD,
            Condition::SignedLessThan => 0xC,
            Condition::SignedLessThanOrEqualTo => 0xE,
            Condition::Unordered => 0xA,
            Condition::NotUnordered => 0xB,
            Condition::Below => 0x2,
            Condition::BelowOrEqual => 0x6,
            Condition::Above => 0x7,
            Condition::AboveOrEqual => 0x3,
        }
    }

    /// The low nibble of the opcode byte.
    pub fn encode(&self) -> (n: u8)
        ensures
            n == self.nibble(),
            n < 16,
    {
        match self {
            Condition::Overflow => 0x0,
            Condition::EqualTo => 0x4,
            Condition::NotEqualTo => 0x5,
            Condition::UnsignedGreaterThan => 0x7,
            Condition::UnsignedGreaterThanOrEqualTo => 0x3,
            Condition::UnsignedLessThan => 0x2,
            Condition::UnsignedLessThanOrEqualTo => 0x6,
            Condition::ParityEven => 0xA,
            Condition::ParityOdd => 0xB,
            Condition::SignedGreaterThan => 0xF,
            Condition::SignedGreaterThanOrEqualTo => 0xD,
            Condition::SignedLessThan => 0xC,
            Condition::SignedLessThanOrEqualTo => 0xE,
            Condition::Unordered => 0xA,
            Condition::NotUnordered => 0xB,
            Condition::Below => 0x2,
            Condition::BelowOrEqual => 0x6,
            Condition::Above => 0x7,
            Condition::AboveOrEqual => 0x3,
        }
    }
}

/// The addressing mode in the top two bits of a ModR/M byte.
#[derive(Copy, Clone, PartialEq, Eq, Structural, Debug)]
pub enum ModRmEnum {
    Mem,
    MemDisp8,
    MemDisp32,
    Reg,
}

impl ModRmEnum {
    pub open spec fn number(self) -> u8 {
        match self {
            ModRmEnum::Mem => 0,
            ModRmEnum::MemDisp8 => 1,
            ModRmEnum::MemDisp32 => 2,
            ModRmEnum::Reg => 3,
        }
    }

    pub fn encode(&self) -> (n: u8)
        ensures
            n == self.number(),
    {
        match self {
            ModRmEnum::Mem => 0,
            ModRmEnum::MemDisp8 => 1,
            ModRmEnum::MemDisp32 => 2,
            ModRmEnum::Reg => 3,
        }
    }
}

/// The byte `mod:2 | reg:3 | rm:3` built from the low bits of each field.
pub open spec fn modrm_byte(rm: u8, reg: u8, mode: u8) -> u8 {
    ((mode & 0b11) << 6) | ((reg & 0b111) << 3) | (rm & 0b111)
}

/// `raw` with its top two bits replaced by the low two bits of `mode`.
pub open spec fn with_mode(raw: u8, mode: u8) -> u8 {
    ((mode & 0b11) << 6) | (raw & 0x3f)
}

/// The fields of a ModR/M byte read back as numbers: the mode is the byte
/// divided by 64, the reg field the next three bits, the rm field the last
/// three. Replacing the mode of a byte built with mode 0 builds the byte with
/// the new mode.
pub proof fn lemma_modrm_fields(rm: u8, reg: u8, mode: u8)
    by (bit_vector)
    ensures
        modrm_byte(rm, reg, mode) / 64 == mode % 4,
        (modrm_byte(rm, reg, mode) / 8) % 8 == reg % 8,
        modrm_byte(rm, reg, mode) % 8 == rm % 8,
        with_mode(modrm_byte(rm, reg, 0), mode) == modrm_byte(rm, reg, mode),
        with_mode(modrm_byte(rm, reg, 0), mode) / 64 == mode % 4,
{
}

/// Replacing the mode of a ModR/M byte, whatever mode it was built with,
/// builds the byte with the new mode.
pub proof fn lemma_mode_replaced(rm: u8, reg: u8, held: u8, mode: u8)
    by (bit_vector)
    ensures
        with_mode(modrm_byte(rm, reg, held), mode) == modrm_byte(rm, reg, mode),
{
}

/// A ModR/M byte.
pub struct ModRm {
    pub raw: u8,
}

impl ModRm {
    pub fn new(rm: u8, reg: u8, mode: u8) -> (m: Self)
        ensures
            m.raw == modrm_byte(rm, reg, mode),
    {
        ModRm { raw: ((mode & 0b11) << 6) | ((reg & 0b111) << 3) | (rm & 0b111) }
    }

    pub fn encode(&self) -> (byte: u8)
        ensures
            byte == self.raw,
    {
        self.raw
    }

    pub fn set_mode(&mut self, mode: u8)
        ensures
            final(self).raw == with_mode(old(self).raw, mode),
    {
        self.raw = ((mode & 0b11) << 6) | (self.raw & 0x3f);
    }
}

/// Whether an encoded value may be patched later.
#[derive(Copy, Clone, PartialEq, Eq, Structural, Debug)]
pub enum Patchable {
    No,
    Yes,
}

impl Patchable {
    pub open spec fn number(self) -> u8 {
        match self {
            Patchable::No => 0,
            Patchable::Yes => 1,
        }
    }

    pub fn encode(&self) -> (n: u8)
        ensures
            n == self.number(),
    {
        match self {
            Patchable::No => 0,
            Patchable::Yes => 1,
        }
    }
}

/// Whether an instruction asks for 64-bit operands.
#[derive(Copy, Clone, PartialEq, Eq, Structural, Debug)]
pub enum RexW {
    No,
    Yes,
}

impl RexW {
    pub open spec fn number(self) -> u8 {
        match self {
            RexW::No => 0,
            RexW::Yes => 1,
        }
    }

    pub fn encode(&self) -> (n: u8)
        ensures
            n == self.number(),
    {
        match self {
            RexW::No => 0,
            RexW::Yes => 1,
        }
    }
}

/// The byte `0100 | W | R | X | B`.
pub open spec fn rex_byte(b: u8, x: u8, r: u8, w: u8) -> u8 {
    (0b0100u8 << 4) | (w << 3) | (r << 2) | (x << 1) | b
}

/// A REX byte built from flags of one bit each is the number
/// 0x40 + 8W + 4R + 2X + B.
pub proof fn lemma_rex_flags(b: u8, x: u8, r: u8, w: u8)
    by (bit_vector)
    requires
        b <= 1,
        x <= 1,
        r <= 1,
        w <= 1,
    ensures
        rex_byte(b, x, r, w) == 0x40 + 8 * w + 4 * r + 2 * x + b,
{
}

/// A REX prefix.
#[derive(Copy, Clone, PartialEq, Eq, Structural, Debug)]
pub struct Rex {
    pub raw: u8,
}

impl Rex {
    pub fn new(b: u8, x: u8, r: u8, w: u8) -> (rex: Self)
        ensures
            rex.raw == rex_byte(b, x, r, w),
    {
        Rex { raw: (0b0100u8 << 4) | (w << 3) | (r << 2) | (x << 1) | b }
    }

    pub fn encode(&self) -> (byte: u8)
        ensures
            byte == self.raw,
    {
        self.raw
    }

    /// Bits 6, 5, 4 and 3 of the byte, in that order.
    pub fn decode(&self) -> (bits: (u8, u8, u8, u8))
        ensures
            bits.0 == (self.raw >> 6) & 0b1,
            bits.1 == (self.raw >> 5) & 0b1,
            bits.2 == (self.raw >> 4) & 0b1,
            bits.3 == (self.raw >> 3) & 0b1,
    {
        ((self.raw >> 6) & 0b1, (self.raw >> 5) & 0b1, (self.raw >> 4) & 0b1, (self.raw >> 3) & 0b1)
    }
}

/// The low eight bits of `v`.
pub open spec fn low_byte(v: u64) -> u8 {
    v as u8
}

/// The low 32 bits of `v`.
pub open spec fn low_dword(v: u64) -> u32 {
    v as u32
}

/// The low eight bits of `v`.
pub fn low_byte_of(v: u64) -> (b: u8)
    ensures
        b == low_byte(v),
{
    #[verifier::truncate]
    (v as u8)
}

/// The low 32 bits of `v`.
pub fn low_dword_of(v: u64) -> (d: u32)
    ensures
        d == low_dword(v),
{
    #[verifier::truncate]
    (v as u32)
}

/// Whether `v`, read as a signed 64-bit number, lies in -128..=127.
pub open spec fn fits_i8(v: u64) -> bool {
    v <= 0x7f || v >= 0xffff_ffff_ffff_ff80
}

/// Whether `v`, read as a signed 64-bit number, lies in -2^31..=2^31-1.
pub open spec fn fits_i32(v: u64) -> bool {
    v <= 0x7fff_ffff || v >= 0xffff_ffff_8000_0000
}

/// What an instruction works on.
#[derive(Copy, Clone, PartialEq, Eq, Structural, Debug)]
pub enum Operand {
    /// A register, and whether it is used as a SIMD register.
    Register(Register, bool),
    /// The memory at a base register plus a displacement.
    Memory(Register, u64),
    Immediate(Immediate),
}

impl Operand {
    pub open spec fn is_reg_or_mem(self) -> bool {
        self is Register || self is Memory
    }

    /// The full hardware index of the register, or of the base register.
    pub open spec fn index(self) -> u8
        recommends
            self.is_reg_or_mem(),
    {
        match self {
            Operand::Register(r, _) => r.index(),
            Operand::Memory(r, _) => r.index(),
            Operand::Immediate(_) => 0,
        }
    }

    /// The register's index, or the low three bits of the base register's.
    pub open spec fn underlying(self) -> u8
        recommends
            self.is_reg_or_mem(),
    {
        match self {
            Operand::Register(r, _) => r.index(),
            Operand::Memory(r, _) => r.index() & 0x7,
            Operand::Immediate(_) => 0,
        }
    }

    /// The displacement of a memory operand or the value of an immediate.
    pub open spec fn number(self) -> u64
        recommends
            !(self is Register),
    {
        match self {
            Operand::Memory(_, offset) => offset,
            Operand::Immediate(i) => i.value(),
            Operand::Register(_, _) => 0,
        }
    }

    pub fn is_register_or_memory(&self) -> (b: bool)
        ensures
            b == self.is_reg_or_mem(),
    {
        match self {
            Operand::Register(_, _) | Operand::Memory(_, _) => true,
            _ => false,
        }
    }

    pub fn is_immediate(&self) -> (b: bool)
        ensures
            b == (self is Immediate),
    {
        match self {
            Operand::Immediate(_) => true,
            _ => false,
        }
    }

    /// The full hardware index of the register, or of the base register.
    pub fn register_index(&self) -> (i: u8)
        requires
            self.is_reg_or_mem(),
        ensures
            i == self.index(),
            i < 16,
    {
        match self {
            Operand::Register(r, _) => r.encode(),
            Operand::Memory(r, _) => r.encode(),
            _ => 0,
        }
    }

    pub fn register_or_memory_base_to_underlying(&self) -> (i: u8)
        requires
            self.is_reg_or_mem(),
        ensures
            i == self.underlying(),
            i < 16,
    {
        match self {
            Operand::Register(r, _) => r.encode(),
            Operand::Memory(r, _) => {
                let i: u8 = r.encode();
                assert(i & 0x7 < 16) by (bit_vector);
                i & 0x7
            },
            _ => 0,
        }
    }

    pub fn offset_or_immediate(&self) -> (v: u64)
        requires
            !(self is Register),
        ensures
            v == self.number(),
    {
        match self {
            Operand::Memory(_, offset) => *offset,
            Operand::Immediate(Immediate::Immediate8(i)) => *i as u64,
            Operand::Immediate(Immediate::Immediate32(i)) => *i as u64,
            Operand::Immediate(Immediate::Immediate64(i)) => *i,
            _ => 0,
        }
    }

    pub fn fits_in_u8(&self) -> (b: bool)
        requires
            self is Immediate,
        ensures
            b == (self.number() <= 0xff),
    {
        self.offset_or_immediate() <= 0xff
    }

    pub fn fits_in_u32(&self) -> (b: bool)
        requires
            self is Immediate,
        ensures
            b == (self.number() <= 0xffff_ffff),
    {
        self.offset_or_immediate() <= 0xffff_ffff
    }

    pub fn fits_in_i8(&self) -> (b: bool)
        requires
            self is Immediate,
        ensures
            b == fits_i8(self.number()),
    {
        let v: u64 = self.offset_or_immediate();
        v <= 0x7f || v >= 0xffff_ffff_ffff_ff80
    }

    pub fn fits_in_i32(&self) -> (b: bool)
        requires
            self is Immediate,
        ensures
            b == fits_i32(self.number()),
    {
        let v: u64 = self.offset_or_immediate();
        v <= 0x7fff_ffff || v >= 0xffff_ffff_8000_0000
    }
}

} // verus!
