use vstd::prelude::*;
use crate::le::{le_bytes, le_decode, le_encode, le_nat, lemma_bytes_of_le_nat, lemma_le_bytes_len, lemma_le_nat_bound, lemma_le_nat_of_bytes};
use crate::tag::TypeTag;

verus! {

/// One value of a fixed-width numeric type.
///
/// Floating-point values are held as their IEEE-754 bit patterns.
#[derive(Clone, Copy, Debug, PartialEq, Eq, Structural)]
pub enum Value {
    U8(u8),
    U16(u16),
    U32(u32),
    U64(u64),
    U128(u128),
    I8(i8),
    I16(i16),
    I32(i32),
    I64(i64),
    I128(i128),
    F32(u32),
    F64(u64),
}

/// The value of type `tag` that holds the integer `x`.
pub open spec fn value_of_int(tag: TypeTag, x: int) -> Value {
    match tag {
        TypeTag::U8 => Value::U8(x as u8),
        TypeTag::U16 => Value::U16(x as u16),
        TypeTag::U32 => Value::U32(x as u32),
        TypeTag::U64 => Value::U64(x as u64),
        TypeTag::U128 => Value::U128(x as u128),
        TypeTag::I8 => Value::I8(x as i8),
        TypeTag::I16 => Value::I16(x as i16),
        TypeTag::I32 => Value::I32(x as i32),
        TypeTag::I64 => Value::I64(x as i64),
        TypeTag::I128 => Value::I128(x as i128),
        TypeTag::F32 => Value::F32(x as u32),
        TypeTag::F64 => Value::F64(x as u64),
    }
}

/// The value of type `tag` whose bit pattern, read as an unsigned number, is `n`.
pub open spec fn value_of_bits(tag: TypeTag, n: int) -> Value {
    if tag.signed() && n > tag.max_int() {
        value_of_int(tag, n - tag.modulus())
    } else {
        value_of_int(tag, n)
    }
}

/// The bytes that stand for `v` in a file: its bit pattern, least significant byte first.
pub open spec fn encode_spec(v: Value) -> Seq<u8> {
    le_bytes(v.bits(), v.tag().width())
}

/// The value of type `tag` that the bytes `b` stand for.
pub open spec fn decode_spec(tag: TypeTag, b: Seq<u8>) -> Value {
    value_of_bits(tag, le_nat(b) as int)
}

impl Value {
    /// The type of this value.
    pub open spec fn tag(self) -> TypeTag {
        match self {
            Value::U8(_) => TypeTag::U8,
            Value::U16(_) => TypeTag::U16,
            Value::U32(_) => TypeTag::U32,
            Value::U64(_) => TypeTag::U64,
            Value::U128(_) => TypeTag::U128,
            Value::I8(_) => TypeTag::I8,
            Value::I16(_) => TypeTag::I16,
            Value::I32(_) => TypeTag::I32,
            Value::I64(_) => TypeTag::I64,
            Value::I128(_) => TypeTag::I128,
            Value::F32(_) => TypeTag::F32,
            Value::F64(_) => TypeTag::F64,
        }
    }

    /// The integer held; for a floating-point value, its bit pattern.
    pub open spec fn to_int(self) -> int {
        match self {
            Value::U8(x) => x as int,
            Value::U16(x) => x as int,
            Value::U32(x) => x as int,
            Value::U64(x) => x as int,
            Value::U128(x) => x as int,
            Value::I8(x) => x as int,
            Value::I16(x) => x as int,
            Value::I32(x) => x as int,
            Value::I64(x) => x as int,
            Value::I128(x) => x as int,
            Value::F32(x) => x as int,
            Value::F64(x) => x as int,
        }
    }

    /// The bit pattern read as an unsigned number (two's complement for negative integers).
    pub open spec fn bits(self) -> nat {
        if self.to_int() < 0 {
            (self.to_int() + self.tag().modulus()) as nat
        } else {
            self.to_int() as nat
        }
    }

    /// A value lies within the range of its type, and is the value of its type holding that integer.
    pub proof fn lemma_range(self)
        ensures
            self.tag().min_int() <= self.to_int() <= self.tag().max_int(),
            self.bits() < self.tag().modulus(),
            value_of_int(self.tag(), self.to_int()) == self,
    {
        self.tag().lemma_modulus();
    }

    /// The type of this value.
    pub fn type_tag(&self) -> (r: TypeTag)
        ensures
            r == self.tag(),
    {
        match self {
            Value::U8(_) => TypeTag::U8,
            Value::U16(_) => TypeTag::U16,
            Value::U32(_) => TypeTag::U32,
            Value::U64(_) => TypeTag::U64,
            Value::U128(_) => TypeTag::U128,
            Value::I8(_) => TypeTag::I8,
            Value::I16(_) => TypeTag::I16,
            Value::I32(_) => TypeTag::I32,
            Value::I64(_) => TypeTag::I64,
            Value::I128(_) => TypeTag::I128,
            Value::F32(_) => TypeTag::F32,
            Value::F64(_) => TypeTag::F64,
        }
    }

    /// The bit pattern read as an unsigned number.
    fn to_bits(&self) -> (r: u128)
        ensures
            r == self.bits(),
    {
        proof {
            self.tag().lemma_modulus();
        }
        match *self {
            Value::U8(x) => x as u128,
            Value::U16(x) => x as u128,
            Value::U32(x) => x as u128,
            Value::U64(x) => x as u128,
            Value::U128(x) => x,
            Value::I8(x) => if x < 0 { 0xff - (-(x + 1)) as u128 } else { x as u128 },
            Value::I16(x) => if x < 0 { 0xffff - (-(x + 1)) as u128 } else { x as u128 },
            Value::I32(x) => if x < 0 { 0xffff_ffff - (-(x + 1)) as u128 } else { x as u128 },
            Value::I64(x) => if x < 0 {
                0xffff_ffff_ffff_ffff - (-(x + 1)) as u128
            } else {
                x as u128
            },
            Value::I128(x) => if x < 0 { u128::MAX - (-(x + 1)) as u128 } else { x as u128 },
            Value::F32(x) => x as u128,
            Value::F64(x) => x as u128,
        }
    }

    /// The value of type `tag` whose bit pattern, read as an unsigned number, is `n`.
    fn from_bits(tag: TypeTag, n: u128) -> (r: Value)
        requires
            n < tag.modulus(),
        ensures
            r == value_of_bits(tag, n as int),
    {
        proof {
            tag.lemma_modulus();
        }
        match tag {
            TypeTag::U8 => Value::U8(n as u8),
            TypeTag::U16 => Value::U16(n as u16),
            TypeTag::U32 => Value::U32(n as u32),
            TypeTag::U64 => Value::U64(n as u64),
            TypeTag::U128 => Value::U128(n),
            TypeTag::I8 => Value::I8(if n > 0x7f { -((0xff - n) as i8) - 1 } else { n as i8 }),
            TypeTag::I16 => Value::I16(if n > 0x7fff { -((0xffff - n) as i16) - 1 } else { n as i16 }),
            TypeTag::I32 => Value::I32(
                if n > 0x7fff_ffff { -((0xffff_ffff - n) as i32) - 1 } else { n as i32 },
            ),
            TypeTag::I64 => Value::I64(
                if n > 0x7fff_ffff_ffff_ffff {
                    -((0xffff_ffff_ffff_ffff - n) as i64) - 1
                } else {
                    n as i64
                },
            ),
            TypeTag::I128 => Value::I128(
                if n > i128::MAX as u128 { -((u128::MAX - n) as i128) - 1 } else { n as i128 },
            ),
            TypeTag::F32 => Value::F32(n as u32),
            TypeTag::F64 => Value::F64(n as u64),
        }
    }

    /// The bytes that stand for this value in a file: two's complement for
    /// integers, the IEEE-754 layout for floats, least significant byte first.
    pub fn encode(&self) -> (r: Vec<u8>)
        ensures
            r@ == encode_spec(*self),
            r@.len() == self.tag().width(),
    {
        let w = self.type_tag().byte_width();
        let n = self.to_bits();
        proof {
            self.tag().lemma_modulus();
            lemma_le_bytes_len(n as nat, w as nat);
        }
        le_encode(n, w)
    }

    /// The value of type `tag` that `bytes` stand for.
    pub fn decode(tag: TypeTag, bytes: &[u8]) -> (r: Value)
        requires
            bytes@.len() == tag.width(),
        ensures
            r == decode_spec(tag, bytes@),
            r.tag() == tag,
    {
        proof {
            tag.lemma_modulus();
            lemma_le_nat_bound(bytes@);
        }
        let n = le_decode(bytes);
        Value::from_bits(tag, n)
    }
}

/// The value of type `tag` holding an integer in that type's range holds exactly that integer.
pub proof fn lemma_value_of_int(tag: TypeTag, x: int)
    requires
        tag.min_int() <= x <= tag.max_int(),
    ensures
        value_of_int(tag, x).tag() == tag,
        value_of_int(tag, x).to_int() == x,
{
    tag.lemma_modulus();
}

/// Decoding the bytes of a value gives that value back.
pub proof fn lemma_decode_encode(v: Value)
    ensures
        decode_spec(v.tag(), encode_spec(v)) == v,
{
    v.lemma_range();
    v.tag().lemma_modulus();
    lemma_le_nat_of_bytes(v.bits(), v.tag().width());
}

/// Encoding the value that `b` stands for gives `b` back, for every `b` of the type's width.
pub proof fn lemma_encode_decode(tag: TypeTag, b: Seq<u8>)
    requires
        b.len() == tag.width(),
    ensures
        decode_spec(tag, b).tag() == tag,
        encode_spec(decode_spec(tag, b)) == b,
{
    let n = le_nat(b) as int;
    tag.lemma_modulus();
    lemma_le_nat_bound(b);
    if tag.signed() && n > tag.max_int() {
        lemma_value_of_int(tag, n - tag.modulus());
    } else {
        lemma_value_of_int(tag, n);
    }
    lemma_bytes_of_le_nat(b);
}

} // verus!
