use vstd::prelude::*;
use crate::le::{pow256, lemma_pow256_16};
use crate::text::same_text;

verus! {

/// One of the fixed-width numeric types that a file can hold.
#[derive(Clone, Copy, Debug, PartialEq, Eq, Structural)]
pub enum TypeTag {
    U8,
    U16,
    U32,
    U64,
    U128,
    I8,
    I16,
    I32,
    I64,
    I128,
    F32,
    F64,
}

impl TypeTag {
    /// Number of bytes that one value of this type occupies.
    pub open spec fn width(self) -> nat {
        match self {
            TypeTag::U8 | TypeTag::I8 => 1,
            TypeTag::U16 | TypeTag::I16 => 2,
            TypeTag::U32 | TypeTag::I32 | TypeTag::F32 => 4,
            TypeTag::U64 | TypeTag::I64 | TypeTag::F64 => 8,
            TypeTag::U128 | TypeTag::I128 => 16,
        }
    }

    /// Whether values of this type are two's-complement signed integers.
    pub open spec fn signed(self) -> bool {
        match self {
            TypeTag::I8 | TypeTag::I16 | TypeTag::I32 | TypeTag::I64 | TypeTag::I128 => true,
            _ => false,
        }
    }

    /// Whether values of this type are IEEE-754 floating-point numbers.
    pub open spec fn floating(self) -> bool {
        match self {
            TypeTag::F32 | TypeTag::F64 => true,
            _ => false,
        }
    }

    /// Number of distinct bit patterns of this type: `256^width`.
    pub open spec fn modulus(self) -> int {
        pow256(self.width()) as int
    }

    /// Smallest integer that this type can hold.
    pub open spec fn min_int(self) -> int {
        if self.signed() {
            -(self.modulus() / 2)
        } else {
            0
        }
    }

    /// Largest integer that this type can hold.
    pub open spec fn max_int(self) -> int {
        if self.signed() {
            self.modulus() / 2 - 1
        } else {
            self.modulus() - 1
        }
    }

    /// The name by which the type is chosen on the command line.
    pub open spec fn name(self) -> Seq<char> {
        match self {
            TypeTag::U8 => seq!['u', '8'],
            TypeTag::U16 => seq!['u', '1', '6'],
            TypeTag::U32 => seq!['u', '3', '2'],
            TypeTag::U64 => seq!['u', '6', '4'],
            TypeTag::U128 => seq!['u', '1', '2', '8'],
            TypeTag::I8 => seq!['i', '8'],
            TypeTag::I16 => seq!['i', '1', '6'],
            TypeTag::I32 => seq!['i', '3', '2'],
            TypeTag::I64 => seq!['i', '6', '4'],
            TypeTag::I128 => seq!['i', '1', '2', '8'],
            TypeTag::F32 => seq!['f', '3', '2'],
            TypeTag::F64 => seq!['f', '6', '4'],
        }
    }

    /// The modulus at each width, spelled out.
    pub proof fn lemma_modulus(self)
        ensures
            self.width() == 1 ==> self.modulus() == 0x100,
            self.width() == 2 ==> self.modulus() == 0x1_0000,
            self.width() == 4 ==> self.modulus() == 0x1_0000_0000,
            self.width() == 8 ==> self.modulus() == 0x1_0000_0000_0000_0000,
            self.width() == 16 ==> self.modulus() == 0x1_0000_0000_0000_0000_0000_0000_0000_0000,
            1 <= self.width() <= 16,
    {
        lemma_pow256_16();
    }

    /// No two types share a name.
    pub proof fn lemma_name_unique(self, other: TypeTag)
        requires
            self.name() == other.name(),
        ensures
            self == other,
    {
        let a = self.name();
        let b = other.name();
        assert(a.len() == b.len());
        assert(a[0] == b[0]);
        assert(a[1] == b[1]);
        if a.len() > 2 {
            assert(a[2] == b[2]);
        }
    }

    /// Number of bytes that one value of this type occupies.
    pub fn byte_width(&self) -> (r: usize)
        ensures
            r == self.width(),
    {
        match self {
            TypeTag::U8 | TypeTag::I8 => 1,
            TypeTag::U16 | TypeTag::I16 => 2,
            TypeTag::U32 | TypeTag::I32 | TypeTag::F32 => 4,
            TypeTag::U64 | TypeTag::I64 | TypeTag::F64 => 8,
            TypeTag::U128 | TypeTag::I128 => 16,
        }
    }

    /// Whether values of this type are two's-complement signed integers.
    pub fn is_signed(&self) -> (r: bool)
        ensures
            r == self.signed(),
    {
        match self {
            TypeTag::I8 | TypeTag::I16 | TypeTag::I32 | TypeTag::I64 | TypeTag::I128 => true,
            _ => false,
        }
    }

    /// Whether values of this type are IEEE-754 floating-point numbers.
    pub fn is_float(&self) -> (r: bool)
        ensures
            r == self.floating(),
    {
        match self {
            TypeTag::F32 | TypeTag::F64 => true,
            _ => false,
        }
    }

    /// The type whose name is `s`, if there is one.
    pub fn from_name(s: &str) -> (r: Option<TypeTag>)
        ensures
            r matches Some(t) ==> s@ == t.name(),
            r is None <==> forall|t: TypeTag| s@ != #[trigger] t.name(),
    {
        proof {
            reveal_strlit("u8");
            reveal_strlit("u16");
            reveal_strlit("u32");
            reveal_strlit("u64");
            reveal_strlit("u128");
            reveal_strlit("i8");
            reveal_strlit("i16");
            reveal_strlit("i32");
            reveal_strlit("i64");
            reveal_strlit("i128");
            reveal_strlit("f32");
            reveal_strlit("f64");
        }
        let r = if same_text(s, "u8") {
            Some(TypeTag::U8)
        } else if same_text(s, "u16") {
            Some(TypeTag::U16)
        } else if same_text(s, "u32") {
            Some(TypeTag::U32)
        } else if same_text(s, "u64") {
            Some(TypeTag::U64)
        } else if same_text(s, "u128") {
            Some(TypeTag::U128)
        } else if same_text(s, "i8") {
            Some(TypeTag::I8)
        } else if same_text(s, "i16") {
            Some(TypeTag::I16)
        } else if same_text(s, "i32") {
            Some(TypeTag::I32)
        } else if same_text(s, "i64") {
            Some(TypeTag::I64)
        } else if same_text(s, "i128") {
            Some(TypeTag::I128)
        } else if same_text(s, "f32") {
            Some(TypeTag::F32)
        } else if same_text(s, "f64") {
            Some(TypeTag::F64)
        } else {
            None
        };
        proof {
            if let Some(t) = r {
                assert(s@ =~= t.name());
            }
            if r is None {
                assert forall|t: TypeTag| s@ != #[trigger] t.name() by {
                    match t {
                        TypeTag::U8 => assert("u8"@ =~= t.name()),
                        TypeTag::U16 => assert("u16"@ =~= t.name()),
                        TypeTag::U32 => assert("u32"@ =~= t.name()),
                        TypeTag::U64 => assert("u64"@ =~= t.name()),
                        TypeTag::U128 => assert("u128"@ =~= t.name()),
                        TypeTag::I8 => assert("i8"@ =~= t.name()),
                        TypeTag::I16 => assert("i16"@ =~= t.name()),
                        TypeTag::I32 => assert("i32"@ =~= t.name()),
                        TypeTag::I64 => assert("i64"@ =~= t.name()),
                        TypeTag::I128 => assert("i128"@ =~= t.name()),
                        TypeTag::F32 => assert("f32"@ =~= t.name()),
                        TypeTag::F64 => assert("f64"@ =~= t.name()),
                    }
                }
            }
        }
        r
    }
}

} // verus!
