//! Tensor data types: primitive element types and compound types made of several of them.

use vstd::prelude::*;

verus! {

/// Where the values of a quantized tensor are stored.
#[derive(Debug, Clone, Copy, Hash, PartialEq, Eq, Structural)]
pub enum QuantStore {
    /// Each value in its own native type.
    Native,
    /// Values packed into 32-bit words.
    U32,
}

/// The value kind of a quantized tensor.
#[derive(Debug, Clone, Copy, Hash, PartialEq, Eq, Structural)]
pub enum QuantValue {
    Q8F,
    Q8S,
    E4M3,
    E5M2,
    E2M1,
    Q4F,
    Q4S,
    Q2F,
    Q2S,
}

/// The parts of a quantization scheme that decide how its values are stored.
#[derive(Debug, Clone, Copy, Hash, PartialEq, Eq, Structural)]
pub struct QuantScheme {
    pub store: QuantStore,
    pub value: QuantValue,
}

/// Size in bytes of one stored value of a quantization scheme (0 for sub-byte values).
pub open spec fn quant_size(q: QuantScheme) -> nat {
    match q.store {
        QuantStore::Native => match q.value {
            QuantValue::Q8F | QuantValue::Q8S | QuantValue::E4M3 | QuantValue::E5M2
            | QuantValue::E2M1 => 1,
            _ => 0,
        },
        QuantStore::U32 => 4,
    }
}

impl QuantScheme {
    /// Size in bytes of one stored value; 0 for values narrower than a byte.
    pub fn size(&self) -> (r: usize)
        ensures
            r == quant_size(*self),
    {
        match self.store {
            QuantStore::Native => match self.value {
                QuantValue::Q8F | QuantValue::Q8S => 1,
                // e2m1 is packed by the kernels, so its storage is 8 bits wide.
                QuantValue::E4M3 | QuantValue::E5M2 | QuantValue::E2M1 => 1,
                QuantValue::Q4F | QuantValue::Q4S | QuantValue::Q2F | QuantValue::Q2S => 0,
            },
            QuantStore::U32 => 4,
        }
    }
}

/// Memory layout of a compound data type.
#[derive(Debug, Clone, Copy, Hash, PartialEq, Eq, Structural)]
pub enum CompoundLayout {
    InterLeaved,
    Split,
}

/// A primitive element type.
#[derive(Debug, Clone, Copy, Hash, PartialEq, Eq, Structural)]
pub enum PrimitiveDType {
    F64,
    F32,
    Flex32,
    F16,
    BF16,
    I64,
    I32,
    I16,
    I8,
    U64,
    U32,
    U16,
    U8,
    Bool,
    QFloat(QuantScheme),
}

/// Size in bytes of a primitive element type (0 for sub-byte quantized values).
pub open spec fn primitive_size(p: PrimitiveDType) -> nat {
    match p {
        PrimitiveDType::F64 | PrimitiveDType::I64 | PrimitiveDType::U64 => 8,
        PrimitiveDType::F32 | PrimitiveDType::Flex32 | PrimitiveDType::I32
        | PrimitiveDType::U32 => 4,
        PrimitiveDType::F16 | PrimitiveDType::BF16 | PrimitiveDType::I16
        | PrimitiveDType::U16 => 2,
        PrimitiveDType::I8 | PrimitiveDType::U8 | PrimitiveDType::Bool => 1,
        PrimitiveDType::QFloat(q) => quant_size(q),
    }
}

/// The name of a primitive element type.
pub open spec fn primitive_name(p: PrimitiveDType) -> Seq<char> {
    match p {
        PrimitiveDType::F64 => "f64"@,
        PrimitiveDType::F32 => "f32"@,
        PrimitiveDType::Flex32 => "flex32"@,
        PrimitiveDType::F16 => "f16"@,
        PrimitiveDType::BF16 => "bf16"@,
        PrimitiveDType::I64 => "i64"@,
        PrimitiveDType::I32 => "i32"@,
        PrimitiveDType::I16 => "i16"@,
        PrimitiveDType::I8 => "i8"@,
        PrimitiveDType::U64 => "u64"@,
        PrimitiveDType::U32 => "u32"@,
        PrimitiveDType::U16 => "u16"@,
        PrimitiveDType::U8 => "u8"@,
        PrimitiveDType::Bool => "bool"@,
        PrimitiveDType::QFloat(_) => "qfloat"@,
    }
}

impl PrimitiveDType {
    /// Returns the size of a type in bytes.
    pub fn size(&self) -> (r: usize)
        ensures
            r == primitive_size(*self),
    {
        match self {
            PrimitiveDType::F64 => 8,
            PrimitiveDType::F32 => 4,
            PrimitiveDType::Flex32 => 4,
            PrimitiveDType::F16 => 2,
            PrimitiveDType::BF16 => 2,
            PrimitiveDType::I64 => 8,
            PrimitiveDType::I32 => 4,
            PrimitiveDType::I16 => 2,
            PrimitiveDType::I8 => 1,
            PrimitiveDType::U64 => 8,
            PrimitiveDType::U32 => 4,
            PrimitiveDType::U16 => 2,
            PrimitiveDType::U8 => 1,
            PrimitiveDType::Bool => 1,
            PrimitiveDType::QFloat(scheme) => scheme.size(),
        }
    }

    /// Returns true if the data type is a floating point type.
    pub fn is_float(&self) -> (r: bool)
        ensures
            r == (*self is F64 || *self is F32 || *self is Flex32 || *self is F16
                || *self is BF16),
    {
        match self {
            PrimitiveDType::F64 | PrimitiveDType::F32 | PrimitiveDType::Flex32
            | PrimitiveDType::F16 | PrimitiveDType::BF16 => true,
            _ => false,
        }
    }

    /// Returns true if the data type is a signed integer type.
    pub fn is_int(&self) -> (r: bool)
        ensures
            r == (*self is I64 || *self is I32 || *self is I16 || *self is I8),
    {
        match self {
            PrimitiveDType::I64 | PrimitiveDType::I32 | PrimitiveDType::I16
            | PrimitiveDType::I8 => true,
            _ => false,
        }
    }

    /// Returns true if the data type is an unsigned integer type.
    pub fn is_uint(&self) -> (r: bool)
        ensures
            r == (*self is U64 || *self is U32 || *self is U16 || *self is U8),
    {
        match self {
            PrimitiveDType::U64 | PrimitiveDType::U32 | PrimitiveDType::U16
            | PrimitiveDType::U8 => true,
            _ => false,
        }
    }

    /// Returns true if the data type is a boolean type.
    pub fn is_bool(&self) -> (r: bool)
        ensures
            r == (*self is Bool),
    {
        match self {
            PrimitiveDType::Bool => true,
            _ => false,
        }
    }

    /// Returns the data type name.
    pub fn name(&self) -> (r: &'static str)
        ensures
            r@ == primitive_name(*self),
    {
        match self {
            PrimitiveDType::F64 => "f64",
            PrimitiveDType::F32 => "f32",
            PrimitiveDType::Flex32 => "flex32",
            PrimitiveDType::F16 => "f16",
            PrimitiveDType::BF16 => "bf16",
            PrimitiveDType::I64 => "i64",
            PrimitiveDType::I32 => "i32",
            PrimitiveDType::I16 => "i16",
            PrimitiveDType::I8 => "i8",
            PrimitiveDType::U64 => "u64",
            PrimitiveDType::U32 => "u32",
            PrimitiveDType::U16 => "u16",
            PrimitiveDType::U8 => "u8",
            PrimitiveDType::Bool => "bool",
            PrimitiveDType::QFloat(_) => "qfloat",
        }
    }
}

/// Sum of the sizes of a sequence of primitive types.
pub open spec fn sum_sizes(s: Seq<PrimitiveDType>) -> nat
    decreases s.len(),
{
    if s.len() == 0 {
        0
    } else {
        sum_sizes(s.drop_last()) + primitive_size(s.last())
    }
}

/// Every type of the sequence equals its first.
pub open spec fn all_same(s: Seq<PrimitiveDType>) -> bool {
    forall|i: int| 0 <= i < s.len() ==> #[trigger] s[i] == s[0]
}

/// Describes a compound data type, made up of several primitive data types,
/// stored interleaved (contiguous) or split.
#[derive(Debug, Clone, Copy, Hash, PartialEq, Eq)]
pub struct CompoundDtypeScheme {
    pub name: &'static str,
    pub inner_dtypes: &'static [PrimitiveDType],
    pub layout: CompoundLayout,
}

impl CompoundDtypeScheme {
    /// A compound scheme whose size is defined: at least one inner type, none of them
    /// narrower than a byte, and a total size that fits a `usize`.
    pub open spec fn has_size(&self) -> bool {
        &&& self.inner_dtypes@.len() > 0
        &&& forall|i: int|
            0 <= i < self.inner_dtypes@.len() ==> primitive_size(#[trigger] self.inner_dtypes@[i])
                > 0
        &&& sum_sizes(self.inner_dtypes@) <= usize::MAX
    }

    /// Creates a new compound data type: at least one inner type, and, when interleaved,
    /// inner types that are not all the same.
    pub fn new(
        name: &'static str,
        inner_dtypes: &'static [PrimitiveDType],
        layout: CompoundLayout,
    ) -> (r: Self)
        requires
            inner_dtypes@.len() > 0,
            layout == CompoundLayout::InterLeaved ==> !all_same(inner_dtypes@),
        ensures
            r.name == name,
            r.inner_dtypes == inner_dtypes,
            r.layout == layout,
    {
        Self { name, inner_dtypes, layout }
    }

    /// Returns the data type name.
    pub fn name(&self) -> (r: &'static str)
        ensures
            r == self.name,
    {
        self.name
    }

    /// The size of the compound type in bytes: the sum of the sizes of its inner types.
    pub fn size(&self) -> (r: usize)
        requires
            self.has_size(),
        ensures
            r == sum_sizes(self.inner_dtypes@),
    {
        let length = self.inner_dtypes.len();
        let mut total_size: usize = 0;
        let mut i: usize = 0;
        while i < length
            invariant
                length == self.inner_dtypes@.len(),
                self.has_size(),
                0 <= i <= length,
                total_size == sum_sizes(self.inner_dtypes@.take(i as int)),
            decreases length - i,
        {
            proof {
                let s = self.inner_dtypes@;
                assert(s.take(i + 1).drop_last() =~= s.take(i as int));
                lemma_sum_sizes_prefix(s, i + 1);
            }
            total_size = total_size + self.inner_dtypes[i].size();
            i = i + 1;
        }
        proof {
            assert(self.inner_dtypes@.take(length as int) =~= self.inner_dtypes@);
        }
        total_size
    }
}

/// A prefix never sums to more than the whole sequence.
proof fn lemma_sum_sizes_prefix(s: Seq<PrimitiveDType>, n: int)
    requires
        0 <= n <= s.len(),
    ensures
        sum_sizes(s.take(n)) <= sum_sizes(s),
    decreases s.len(),
{
    if n < s.len() {
        assert(s.drop_last().take(n) =~= s.take(n));
        lemma_sum_sizes_prefix(s.drop_last(), n);
    } else {
        assert(s.take(n) =~= s);
    }
}

/// A data type: primitive, or compound.
#[derive(Debug, Clone, Copy)]
pub enum DType {
    Primitive(PrimitiveDType),
    Compound(CompoundDtypeScheme),
}

impl DType {
    /// A data type whose size is defined.
    pub open spec fn has_size(&self) -> bool {
        match self {
            DType::Primitive(_) => true,
            DType::Compound(c) => c.has_size(),
        }
    }

    /// Returns the layout of the data type if it is compound.
    pub fn layout(&self) -> (r: Option<CompoundLayout>)
        ensures
            r == match self {
                DType::Primitive(_) => None,
                DType::Compound(c) => Some(c.layout),
            },
    {
        match self {
            DType::Primitive(_) => None,
            DType::Compound(compound) => Some(compound.layout),
        }
    }

    /// Returns the size of a type in bytes.
    pub fn size(&self) -> (r: usize)
        requires
            self.has_size(),
        ensures
            r == match self {
                DType::Primitive(p) => primitive_size(*p),
                DType::Compound(c) => sum_sizes(c.inner_dtypes@),
            },
    {
        match self {
            DType::Primitive(p) => p.size(),
            DType::Compound(compound) => compound.size(),
        }
    }

    /// Returns true if the data type is a floating point type.
    pub fn is_float(&self) -> (r: bool)
        ensures
            r == match self {
                DType::Primitive(p) => p is F64 || p is F32 || p is Flex32 || p is F16
                    || p is BF16,
                DType::Compound(_) => false,
            },
    {
        match self {
            DType::Primitive(p) => p.is_float(),
            DType::Compound(_) => false,
        }
    }

    /// Returns true if the data type is a signed integer type.
    pub fn is_int(&self) -> (r: bool)
        ensures
            r == match self {
                DType::Primitive(p) => p is I64 || p is I32 || p is I16 || p is I8,
                DType::Compound(_) => false,
            },
    {
        match self {
            DType::Primitive(p) => p.is_int(),
            DType::Compound(_) => false,
        }
    }

    /// Returns true if the data type is an unsigned integer type.
    pub fn is_uint(&self) -> (r: bool)
        ensures
            r == match self {
                DType::Primitive(p) => p is U64 || p is U32 || p is U16 || p is U8,
                DType::Compound(_) => false,
            },
    {
        match self {
            DType::Primitive(p) => p.is_uint(),
            DType::Compound(_) => false,
        }
    }

    /// Returns true if the data type is a boolean type.
    pub fn is_bool(&self) -> (r: bool)
        ensures
            r == match self {
                DType::Primitive(p) => p is Bool,
                DType::Compound(_) => false,
            },
    {
        match self {
            DType::Primitive(p) => p.is_bool(),
            DType::Compound(_) => false,
        }
    }

    /// Returns the data type name.
    pub fn name(&self) -> (r: &'static str)
        ensures
            match self {
                DType::Primitive(p) => r@ == primitive_name(*p),
                DType::Compound(c) => r == c.name,
            },
    {
        match self {
            DType::Primitive(p) => p.name(),
            DType::Compound(compound) => compound.name(),
        }
    }
}

/// A floating point element type.
#[derive(Debug, Clone, Copy, PartialEq, Eq, Hash, PartialOrd, Ord, Structural)]
pub enum FloatDType {
    F64,
    F32,
    Flex32,
    F16,
    BF16,
}

/// An integer element type, signed or unsigned.
#[derive(Debug, Clone, Copy, PartialEq, Eq, Hash, PartialOrd, Ord, Structural)]
pub enum IntDType {
    I64,
    I32,
    I16,
    I8,
    U64,
    U32,
    U16,
    U8,
}

impl FloatDType {
    /// The primitive type of the same name.
    pub open spec fn spec_primitive(self) -> PrimitiveDType {
        match self {
            FloatDType::F64 => PrimitiveDType::F64,
            FloatDType::F32 => PrimitiveDType::F32,
            FloatDType::Flex32 => PrimitiveDType::Flex32,
            FloatDType::F16 => PrimitiveDType::F16,
            FloatDType::BF16 => PrimitiveDType::BF16,
        }
    }

    /// The float type of a primitive type; the primitive type must be a float.
    pub fn from_primitive(value: PrimitiveDType) -> (r: Self)
        requires
            value is F64 || value is F32 || value is Flex32 || value is F16 || value is BF16,
        ensures
            r.spec_primitive() == value,
    {
        match value {
            PrimitiveDType::F64 => FloatDType::F64,
            PrimitiveDType::F32 => FloatDType::F32,
            PrimitiveDType::Flex32 => FloatDType::Flex32,
            PrimitiveDType::F16 => FloatDType::F16,
            _ => FloatDType::BF16,
        }
    }

    /// The primitive type of the same name.
    pub fn to_primitive(self) -> (r: PrimitiveDType)
        ensures
            r == self.spec_primitive(),
    {
        match self {
            FloatDType::F64 => PrimitiveDType::F64,
            FloatDType::F32 => PrimitiveDType::F32,
            FloatDType::Flex32 => PrimitiveDType::Flex32,
            FloatDType::F16 => PrimitiveDType::F16,
            FloatDType::BF16 => PrimitiveDType::BF16,
        }
    }
}

impl IntDType {
    /// The primitive type of the same name.
    pub open spec fn spec_primitive(self) -> PrimitiveDType {
        match self {
            IntDType::I64 => PrimitiveDType::I64,
            IntDType::I32 => PrimitiveDType::I32,
            IntDType::I16 => PrimitiveDType::I16,
            IntDType::I8 => PrimitiveDType::I8,
            IntDType::U64 => PrimitiveDType::U64,
            IntDType::U32 => PrimitiveDType::U32,
            IntDType::U16 => PrimitiveDType::U16,
            IntDType::U8 => PrimitiveDType::U8,
        }
    }

    /// The integer type of a primitive type; the primitive type must be an integer.
    pub fn from_primitive(value: PrimitiveDType) -> (r: Self)
        requires
            value is I64 || value is I32 || value is I16 || value is I8 || value is U64
                || value is U32 || value is U16 || value is U8,
        ensures
            r.spec_primitive() == value,
    {
        match value {
            PrimitiveDType::I64 => IntDType::I64,
            PrimitiveDType::I32 => IntDType::I32,
            PrimitiveDType::I16 => IntDType::I16,
            PrimitiveDType::I8 => IntDType::I8,
            PrimitiveDType::U64 => IntDType::U64,
            PrimitiveDType::U32 => IntDType::U32,
            PrimitiveDType::U16 => IntDType::U16,
            _ => IntDType::U8,
        }
    }

    /// The primitive type of the same name.
    pub fn to_primitive(self) -> (r: PrimitiveDType)
        ensures
            r == self.spec_primitive(),
    {
        match self {
            IntDType::I64 => PrimitiveDType::I64,
            IntDType::I32 => PrimitiveDType::I32,
            IntDType::I16 => PrimitiveDType::I16,
            IntDType::I8 => PrimitiveDType::I8,
            IntDType::U64 => PrimitiveDType::U64,
            IntDType::U32 => PrimitiveDType::U32,
            IntDType::U16 => PrimitiveDType::U16,
            IntDType::U8 => PrimitiveDType::U8,
        }
    }
}

impl From<FloatDType> for PrimitiveDType {
    fn from(value: FloatDType) -> (r: PrimitiveDType) {
        value.to_primitive()
    }
}

impl vstd::std_specs::convert::FromSpecImpl<FloatDType> for PrimitiveDType {
    open spec fn obeys_from_spec() -> bool {
        true
    }

    open spec fn from_spec(v: FloatDType) -> PrimitiveDType {
        v.spec_primitive()
    }
}

impl From<IntDType> for PrimitiveDType {
    fn from(value: IntDType) -> (r: PrimitiveDType) {
        value.to_primitive()
    }
}

impl vstd::std_specs::convert::FromSpecImpl<IntDType> for PrimitiveDType {
    open spec fn obeys_from_spec() -> bool {
        true
    }

    open spec fn from_spec(v: IntDType) -> PrimitiveDType {
        v.spec_primitive()
    }
}

} // verus!
