//! The 64-bit packed representation of runtime values: a 16-bit tag in the
//! high bits and a 48-bit payload in the low bits.

use vstd::prelude::*;

verus! {

/// The low 48 bits of a packed value.
pub const PAYLOAD_MASK: u64 = 0x0000_FFFF_FFFF_FFFF;

/// The type of a runtime value.
#[derive(Debug, Copy, Clone, PartialEq, Eq, Structural)]
pub enum ObjectTag {
    Int,
    Null,
    Float,
    Pointer,
    Code,
    NativeFunc,
}

/// The tag stored in the high 16 bits of `bits`.
pub open spec fn tag_bits(bits: u64) -> u16 {
    ((bits >> 48) & 0xFFFF) as u16
}

/// The payload stored in the low 48 bits of `bits`.
pub open spec fn payload_bits(bits: u64) -> u64 {
    bits & PAYLOAD_MASK
}

/// The least payload that stands for a negative integer: bit 47, the sign
/// bit of a payload.
pub const PAYLOAD_SIGN: u64 = 0x0000_8000_0000_0000;

/// The integer that the payload of `bits` stands for, read as 48-bit two's
/// complement: a payload from `PAYLOAD_SIGN` on stands for the payload less
/// 2^48.
pub open spec fn signed_payload(bits: u64) -> int {
    if payload_bits(bits) >= PAYLOAD_SIGN {
        payload_bits(bits) - 0x1_0000_0000_0000
    } else {
        payload_bits(bits) as int
    }
}

/// The packed word with tag number `tag` and the low 48 bits of `value`.
pub open spec fn pack(tag: u16, value: u64) -> u64 {
    ((tag as u64) << 48) | (value & PAYLOAD_MASK)
}

impl ObjectTag {
    /// The number that stands for this tag in a packed value.
    pub open spec fn number(self) -> u16 {
        match self {
            ObjectTag::Int => 0,
            ObjectTag::Null => 1,
            ObjectTag::Float => 2,
            ObjectTag::Pointer => 3,
            ObjectTag::Code => 4,
            ObjectTag::NativeFunc => 5,
        }
    }

    /// Whether `value` is the number of some tag.
    pub open spec fn is_number(value: u16) -> bool {
        value <= 5
    }

    pub fn encode(&self) -> (n: u16)
        ensures
            n == self.number(),
    {
        match self {
            ObjectTag::Int => 0,
            ObjectTag::Null => 1,
            ObjectTag::Float => 2,
            ObjectTag::Pointer => 3,
            ObjectTag::Code => 4,
            ObjectTag::NativeFunc => 5,
        }
    }

    /// The tag with the given number.
    pub fn from(value: u16) -> (tag: Self)
        requires
            Self::is_number(value),
        ensures
            tag.number() == value,
    {
        if value == 0 {
            ObjectTag::Int
        } else if value == 1 {
            ObjectTag::Null
        } else if value == 2 {
            ObjectTag::Float
        } else if value == 3 {
            ObjectTag::Pointer
        } else if value == 4 {
            ObjectTag::Code
        } else {
            ObjectTag::NativeFunc
        }
    }
}

/// A function of the host: its address and its name.
#[derive(Debug)]
pub struct FunctionObject {
    pub function: u64,
    pub name: String,
}

/// A packed runtime value.
#[derive(Debug, Copy, Clone, PartialEq, Eq, Structural)]
pub struct Object(u64);

impl View for Object {
    type V = u64;

    closed spec fn view(&self) -> u64 {
        self.0
    }
}

impl Object {
    /// Whether the high 16 bits name a tag.
    pub open spec fn has_tag(self) -> bool {
        ObjectTag::is_number(tag_bits(self@))
    }

    /// Packs the low 48 bits of `value` under `object_tag`.
    pub fn new(value: u64, object_tag: ObjectTag) -> (obj: Self)
        ensures
            obj@ == pack(object_tag.number(), value),
            obj.has_tag(),
            tag_bits(obj@) == object_tag.number(),
            payload_bits(obj@) == payload_bits(value),
    {
        let t: u64 = object_tag.encode() as u64;
        proof {
            lemma_pack_parts(object_tag.number(), value);
        }
        Object((t << 48) | (value & 0x0000_FFFF_FFFF_FFFF))
    }

    /// Reads a packed word as it is.
    pub fn from(value: u64) -> (obj: Self)
        ensures
            obj@ == value,
    {
        proof {
            lemma_split_word(value);
        }
        Object((value & 0xFFFF_0000_0000_0000) | (value & 0x0000_FFFF_FFFF_FFFF))
    }

    /// The packed word.
    pub fn encode(&self) -> (bits: u64)
        ensures
            bits == self@,
    {
        self.0
    }

    /// The 48-bit payload.
    pub fn value(&self) -> (payload: u64)
        ensures
            payload == payload_bits(self@),
            payload <= PAYLOAD_MASK,
    {
        let bits: u64 = self.0;
        assert(bits & 0x0000_FFFF_FFFF_FFFF <= 0x0000_FFFF_FFFF_FFFF) by (bit_vector);
        bits & 0x0000_FFFF_FFFF_FFFF
    }

    /// The integer that the payload stands for, read as 48-bit two's
    /// complement.
    pub fn signed_value(&self) -> (n: i64)
        ensures
            n == signed_payload(self@),
    {
        let payload: u64 = self.value();
        if payload >= PAYLOAD_SIGN {
            (payload - PAYLOAD_SIGN) as i64 - 0x0000_8000_0000_0000
        } else {
            payload as i64
        }
    }

    /// Whether the high 16 bits name a tag, so that `tag` may be called.
    pub fn is_tagged(&self) -> (b: bool)
        ensures
            b == self.has_tag(),
    {
        let bits: u64 = self.0;
        assert((bits >> 48) & 0xFFFF <= 0xFFFF) by (bit_vector);
        ((bits >> 48) & 0xFFFF) as u16 <= 5
    }

    /// The tag in the high 16 bits.
    pub fn tag(&self) -> (t: ObjectTag)
        requires
            self.has_tag(),
        ensures
            t.number() == tag_bits(self@),
    {
        let bits: u64 = self.0;
        assert((bits >> 48) & 0xFFFF <= 0xFFFF) by (bit_vector);
        ObjectTag::from(((bits >> 48) & 0xFFFF) as u16)
    }
}

/// What packing stores can be read back: the tag number as it was given and the
/// value cut to 48 bits.
pub proof fn lemma_pack_parts(tag: u16, value: u64)
    ensures
        tag_bits(pack(tag, value)) == tag,
        payload_bits(pack(tag, value)) == payload_bits(value),
        value <= PAYLOAD_MASK ==> payload_bits(pack(tag, value)) == value,
{
    let t: u64 = tag as u64;
    assert(((((t << 48) | (value & 0x0000_FFFF_FFFF_FFFF)) >> 48) & 0xFFFF) == t) by (bit_vector)
        requires
            t <= 0xFFFF,
    ;
    assert(((t << 48) | (value & 0x0000_FFFF_FFFF_FFFF)) & 0x0000_FFFF_FFFF_FFFF == value
        & 0x0000_FFFF_FFFF_FFFF) by (bit_vector)
        requires
            t <= 0xFFFF,
    ;
    assert(value <= 0x0000_FFFF_FFFF_FFFF ==> value & 0x0000_FFFF_FFFF_FFFF == value)
        by (bit_vector);
}

proof fn lemma_split_word(value: u64)
    ensures
        (value & 0xFFFF_0000_0000_0000) | (value & 0x0000_FFFF_FFFF_FFFF) == value,
{
    assert((value & 0xFFFF_0000_0000_0000) | (value & 0x0000_FFFF_FFFF_FFFF) == value)
        by (bit_vector);
}

/// Tag round trip: for every tag and every 48-bit payload, the packed value
/// has that tag and that payload.
pub proof fn lemma_tag_round_trip(t: ObjectTag, p: u64)
    requires
        p <= PAYLOAD_MASK,
    ensures
        tag_bits(pack(t.number(), p)) == t.number(),
        ObjectTag::is_number(tag_bits(pack(t.number(), p))),
        payload_bits(pack(t.number(), p)) == p,
{
    lemma_pack_parts(t.number(), p);
}

/// Signed round trip: an integer of 48 bits, packed under any tag as its
/// two's complement, is read back as itself.
pub proof fn lemma_signed_round_trip(t: ObjectTag, i: i64)
    requires
        -0x8000_0000_0000 <= i < 0x8000_0000_0000,
    ensures
        signed_payload(pack(t.number(), i as u64)) == i,
{
    lemma_pack_parts(t.number(), i as u64);
    if i >= 0 {
        assert((i as u64) & 0x0000_FFFF_FFFF_FFFF == i && (i as u64) & 0x0000_FFFF_FFFF_FFFF
            < 0x0000_8000_0000_0000) by (bit_vector)
            requires
                0 <= i < 0x8000_0000_0000,
        ;
    } else {
        assert((i as u64) & 0x0000_FFFF_FFFF_FFFF == i + 0x1_0000_0000_0000 && (i as u64)
            & 0x0000_FFFF_FFFF_FFFF >= 0x0000_8000_0000_0000) by (bit_vector)
            requires
                -0x8000_0000_0000 <= i < 0,
        ;
    }
}

} // verus!
