//! Element types of tensors: their data type tags, precision and ordering.

use vstd::prelude::*;
use crate::dtype::QuantStore;

verus! {

/// The value kind of a quantized element type: 8-bit signed integers.
#[derive(Debug, Clone, Copy, Hash, PartialEq, Eq, Structural)]
pub enum QuantValue {
    QInt8,
}

/// How a quantized element type stores its values.
#[derive(Debug, Clone, Copy, Hash, PartialEq, Eq, Structural)]
pub struct QuantScheme {
    pub store: QuantStore,
    pub value: QuantValue,
}

/// Size in bytes of one stored quantized value.
pub open spec fn quant_size(q: QuantScheme) -> nat {
    match q.store {
        QuantStore::Native => 1,
        QuantStore::U32 => 4,
    }
}

impl QuantScheme {
    /// Size in bytes of one stored value.
    pub fn size(&self) -> (r: usize)
        ensures
            r == quant_size(*self),
            r > 0,
    {
        match self.store {
            QuantStore::Native => match self.value {
                QuantValue::QInt8 => 1,
            },
            QuantStore::U32 => 4,
        }
    }
}

/// The data type of a tensor's elements, complex numbers included.
#[derive(Debug, Clone, Copy, Hash, PartialEq, Eq, Structural)]
pub enum DType {
    F64,
    F32,
    Flex32,
    F16,
    BF16,
    I64,
    I32,
    I16,
    I8,
    U64,
    U32,
    U16,
    U8,
    Bool,
    Complex64,
    Complex32,
    QFloat(QuantScheme),
}

/// Size in bytes of one element of a data type.
pub open spec fn dtype_size(d: DType) -> nat {
    match d {
        DType::F64 | DType::I64 | DType::U64 => 8,
        DType::F32 | DType::Flex32 | DType::I32 | DType::U32 => 4,
        DType::F16 | DType::BF16 | DType::I16 | DType::U16 => 2,
        DType::I8 | DType::U8 | DType::Bool => 1,
        DType::Complex64 => 16,
        DType::Complex32 => 8,
        DType::QFloat(q) => quant_size(q),
    }
}

/// The name of a data type.
pub open spec fn dtype_name(d: DType) -> Seq<char> {
    match d {
        DType::F64 => "f64"@,
        DType::F32 => "f32"@,
        DType::Flex32 => "flex32"@,
        DType::F16 => "f16"@,
        DType::BF16 => "bf16"@,
        DType::I64 => "i64"@,
        DType::I32 => "i32"@,
        DType::I16 => "i16"@,
        DType::I8 => "i8"@,
        DType::U64 => "u64"@,
        DType::U32 => "u32"@,
        DType::U16 => "u16"@,
        DType::U8 => "u8"@,
        DType::Bool => "bool"@,
        DType::Complex64 => "complex64"@,
        DType::Complex32 => "complex32"@,
        DType::QFloat(_) => "qfloat"@,
    }
}

impl DType {
    /// Returns the size of a type in bytes.
    pub fn size(&self) -> (r: usize)
        ensures
            r == dtype_size(*self),
            r > 0,
    {
        match self {
            DType::F64 => 8,
            DType::F32 => 4,
            DType::Flex32 => 4,
            DType::F16 => 2,
            DType::BF16 => 2,
            DType::I64 => 8,
            DType::I32 => 4,
            DType::I16 => 2,
            DType::I8 => 1,
            DType::U64 => 8,
            DType::U32 => 4,
            DType::U16 => 2,
            DType::U8 => 1,
            DType::Bool => 1,
            DType::Complex64 => 16,
            DType::Complex32 => 8,
            DType::QFloat(scheme) => scheme.size(),
        }
    }

    /// Returns true if the data type is a floating point type.
    pub fn is_float(&self) -> (r: bool)
        ensures
            r == (*self is F64 || *self is F32 || *self is Flex32 || *self is F16
                || *self is BF16),
    {
        match self {
            DType::F64 | DType::F32 | DType::Flex32 | DType::F16 | DType::BF16 => true,
            _ => false,
        }
    }

    /// Returns true if the data type is a signed integer type.
    pub fn is_int(&self) -> (r: bool)
        ensures
            r == (*self is I64 || *self is I32 || *self is I16 || *self is I8),
    {
        match self {
            DType::I64 | DType::I32 | DType::I16 | DType::I8 => true,
            _ => false,
        }
    }

    /// Returns true if the data type is a boolean type.
    pub fn is_bool(&self) -> (r: bool)
        ensures
            r == (*self is Bool),
    {
        match self {
            DType::Bool => true,
            _ => false,
        }
    }

    /// Returns true if the data type is a complex type.
    pub fn is_complex(&self) -> (r: bool)
        ensures
            r == (*self is Complex64 || *self is Complex32),
    {
        match self {
            DType::Complex64 | DType::Complex32 => true,
            _ => false,
        }
    }

    /// Returns the data type name.
    pub fn name(&self) -> (r: &'static str)
        ensures
            r@ == dtype_name(*self),
    {
        match self {
            DType::F64 => "f64",
            DType::F32 => "f32",
            DType::Flex32 => "flex32",
            DType::F16 => "f16",
            DType::BF16 => "bf16",
            DType::I64 => "i64",
            DType::I32 => "i32",
            DType::I16 => "i16",
            DType::I8 => "i8",
            DType::U64 => "u64",
            DType::U32 => "u32",
            DType::U16 => "u16",
            DType::U8 => "u8",
            DType::Bool => "bool",
            DType::Complex64 => "complex64",
            DType::Complex32 => "complex32",
            DType::QFloat(_) => "qfloat",
        }
    }
}

/// A floating point element type.
#[derive(Debug, Clone, Copy, PartialEq, Eq, Structural)]
pub enum FloatDType {
    F64,
    F32,
    Flex32,
    F16,
    BF16,
}

impl FloatDType {
    /// The data type of the same name.
    pub open spec fn spec_dtype(self) -> DType {
        match self {
            FloatDType::F64 => DType::F64,
            FloatDType::F32 => DType::F32,
            FloatDType::Flex32 => DType::Flex32,
            FloatDType::F16 => DType::F16,
            FloatDType::BF16 => DType::BF16,
        }
    }

    /// The float type of a data type; the data type must be a float.
    pub fn from_dtype(value: DType) -> (r: Self)
        requires
            value is F64 || value is F32 || value is Flex32 || value is F16 || value is BF16,
        ensures
            r.spec_dtype() == value,
    {
        match value {
            DType::F64 => FloatDType::F64,
            DType::F32 => FloatDType::F32,
            DType::Flex32 => FloatDType::Flex32,
            DType::F16 => FloatDType::F16,
            _ => FloatDType::BF16,
        }
    }

    /// The data type of the same name.
    pub fn to_dtype(self) -> (r: DType)
        ensures
            r == self.spec_dtype(),
    {
        match self {
            FloatDType::F64 => DType::F64,
            FloatDType::F32 => DType::F32,
            FloatDType::Flex32 => DType::Flex32,
            FloatDType::F16 => DType::F16,
            FloatDType::BF16 => DType::BF16,
        }
    }
}

/// Precision class of an element type.
#[derive(Clone, PartialEq, Eq, Copy, Debug, Structural)]
pub enum Precision {
    /// Double precision, e.g. f64.
    Double,
    /// Full precision, e.g. f32.
    Full,
    /// Half precision, e.g. f16.
    Half,
    /// Other precision.
    Other,
}

/// Element precision of a tensor element type.
pub trait ElementPrecision {
    /// The precision of the element type.
    spec fn spec_precision() -> Precision;

    /// Returns the precision of the element.
    fn precision() -> (r: Precision)
        ensures
            r == Self::spec_precision(),
    ;
}

/// Total order on the elements of a tensor element type.
pub trait ElementComparison: Sized {
    /// The position of an element in the order.
    spec fn rank(&self) -> int;

    /// Returns the ordering between `self` and `other`.
    fn cmp(&self, other: &Self) -> (r: core::cmp::Ordering)
        ensures
            (r is Less) == (self.rank() < other.rank()),
            (r is Equal) == (self.rank() == other.rank()),
            (r is Greater) == (self.rank() > other.rank()),
    ;
}

/// A tensor element type with its data type tag.
pub trait Element: ElementPrecision + ElementComparison + Copy {
    /// The data type tag of the element type.
    spec fn spec_dtype() -> DType;

    /// The data type of the element.
    fn dtype() -> (r: DType)
        ensures
            r == Self::spec_dtype(),
    ;
}

impl ElementPrecision for i64 {
    open spec fn spec_precision() -> Precision {
        Precision::Double
    }

    fn precision() -> (r: Precision) {
        Precision::Double
    }
}

impl ElementPrecision for u64 {
    open spec fn spec_precision() -> Precision {
        Precision::Double
    }

    fn precision() -> (r: Precision) {
        Precision::Double
    }
}

impl ElementPrecision for i32 {
    open spec fn spec_precision() -> Precision {
        Precision::Full
    }

    fn precision() -> (r: Precision) {
        Precision::Full
    }
}

impl ElementPrecision for u32 {
    open spec fn spec_precision() -> Precision {
        Precision::Full
    }

    fn precision() -> (r: Precision) {
        Precision::Full
    }
}

impl ElementPrecision for i16 {
    open spec fn spec_precision() -> Precision {
        Precision::Half
    }

    fn precision() -> (r: Precision) {
        Precision::Half
    }
}

impl ElementPrecision for u16 {
    open spec fn spec_precision() -> Precision {
        Precision::Half
    }

    fn precision() -> (r: Precision) {
        Precision::Half
    }
}

impl ElementPrecision for i8 {
    open spec fn spec_precision() -> Precision {
        Precision::Other
    }

    fn precision() -> (r: Precision) {
        Precision::Other
    }
}

impl ElementPrecision for u8 {
    open spec fn spec_precision() -> Precision {
        Precision::Other
    }

    fn precision() -> (r: Precision) {
        Precision::Other
    }
}

impl ElementPrecision for bool {
    open spec fn spec_precision() -> Precision {
        Precision::Other
    }

    fn precision() -> (r: Precision) {
        Precision::Other
    }
}

impl ElementComparison for i64 {
    open spec fn rank(&self) -> int {
        *self as int
    }

    fn cmp(&self, other: &Self) -> (r: core::cmp::Ordering) {
        if *self < *other {
            core::cmp::Ordering::Less
        } else if *self == *other {
            core::cmp::Ordering::Equal
        } else {
            core::cmp::Ordering::Greater
        }
    }
}

impl ElementComparison for u64 {
    open spec fn rank(&self) -> int {
        *self as int
    }

    fn cmp(&self, other: &Self) -> (r: core::cmp::Ordering) {
        if *self < *other {
            core::cmp::Ordering::Less
        } else if *self == *other {
            core::cmp::Ordering::Equal
        } else {
            core::cmp::Ordering::Greater
        }
    }
}

impl ElementComparison for i32 {
    open spec fn rank(&self) -> int {
        *self as int
    }

    fn cmp(&self, other: &Self) -> (r: core::cmp::Ordering) {
        if *self < *other {
            core::cmp::Ordering::Less
        } else if *self == *other {
            core::cmp::Ordering::Equal
        } else {
            core::cmp::Ordering::Greater
        }
    }
}

impl ElementComparison for u32 {
    open spec fn rank(&self) -> int {
        *self as int
    }

    fn cmp(&self, other: &Self) -> (r: core::cmp::Ordering) {
        if *self < *other {
            core::cmp::Ordering::Less
        } else if *self == *other {
            core::cmp::Ordering::Equal
        } else {
            core::cmp::Ordering::Greater
        }
    }
}

impl ElementComparison for i16 {
    open spec fn rank(&self) -> int {
        *self as int
    }

    fn cmp(&self, other: &Self) -> (r: core::cmp::Ordering) {
        if *self < *other {
            core::cmp::Ordering::Less
        } else if *self == *other {
            core::cmp::Ordering::Equal
        } else {
            core::cmp::Ordering::Greater
        }
    }
}

impl ElementComparison for u16 {
    open spec fn rank(&self) -> int {
        *self as int
    }

    fn cmp(&self, other: &Self) -> (r: core::cmp::Ordering) {
        if *self < *other {
            core::cmp::Ordering::Less
        } else if *self == *other {
            core::cmp::Ordering::Equal
        } else {
            core::cmp::Ordering::Greater
        }
    }
}

impl ElementComparison for i8 {
    open spec fn rank(&self) -> int {
        *self as int
    }

    fn cmp(&self, other: &Self) -> (r: core::cmp::Ordering) {
        if *self < *other {
            core::cmp::Ordering::Less
        } else if *self == *other {
            core::cmp::Ordering::Equal
        } else {
            core::cmp::Ordering::Greater
        }
    }
}

impl ElementComparison for u8 {
    open spec fn rank(&self) -> int {
        *self as int
    }

    fn cmp(&self, other: &Self) -> (r: core::cmp::Ordering) {
        if *self < *other {
            core::cmp::Ordering::Less
        } else if *self == *other {
            core::cmp::Ordering::Equal
        } else {
            core::cmp::Ordering::Greater
        }
    }
}

impl ElementComparison for bool {
    open spec fn rank(&self) -> int {
        if *self {
            1
        } else {
            0
        }
    }

    fn cmp(&self, other: &Self) -> (r: core::cmp::Ordering) {
        if !*self && *other {
            core::cmp::Ordering::Less
        } else if *self == *other {
            core::cmp::Ordering::Equal
        } else {
            core::cmp::Ordering::Greater
        }
    }
}

impl Element for i64 {
    open spec fn spec_dtype() -> DType {
        DType::I64
    }

    fn dtype() -> (r: DType) {
        DType::I64
    }
}

impl Element for u64 {
    open spec fn spec_dtype() -> DType {
        DType::U64
    }

    fn dtype() -> (r: DType) {
        DType::U64
    }
}

impl Element for i32 {
    open spec fn spec_dtype() -> DType {
        DType::I32
    }

    fn dtype() -> (r: DType) {
        DType::I32
    }
}

impl Element for u32 {
    open spec fn spec_dtype() -> DType {
        DType::U32
    }

    fn dtype() -> (r: DType) {
        DType::U32
    }
}

impl Element for i16 {
    open spec fn spec_dtype() -> DType {
        DType::I16
    }

    fn dtype() -> (r: DType) {
        DType::I16
    }
}

impl Element for u16 {
    open spec fn spec_dtype() -> DType {
        DType::U16
    }

    fn dtype() -> (r: DType) {
        DType::U16
    }
}

impl Element for i8 {
    open spec fn spec_dtype() -> DType {
        DType::I8
    }

    fn dtype() -> (r: DType) {
        DType::I8
    }
}

impl Element for u8 {
    open spec fn spec_dtype() -> DType {
        DType::U8
    }

    fn dtype() -> (r: DType) {
        DType::U8
    }
}

impl Element for bool {
    open spec fn spec_dtype() -> DType {
        DType::Bool
    }

    fn dtype() -> (r: DType) {
        DType::Bool
    }
}

impl From<FloatDType> for DType {
    fn from(value: FloatDType) -> (r: DType) {
        value.to_dtype()
    }
}

impl vstd::std_specs::convert::FromSpecImpl<FloatDType> for DType {
    open spec fn obeys_from_spec() -> bool {
        true
    }

    open spec fn from_spec(v: FloatDType) -> DType {
        v.spec_dtype()
    }
}

/// The smallest and largest values of an element type.
pub trait ElementLimits: ElementComparison {
    /// The minimum representable value.
    fn min_value() -> (r: Self)
        ensures
            forall|x: Self| r.rank() <= #[trigger] x.rank(),
    ;

    /// The maximum representable value.
    fn max_value() -> (r: Self)
        ensures
            forall|x: Self| #[trigger] x.rank() <= r.rank(),
    ;
}

impl ElementLimits for i64 {
    fn min_value() -> (r: Self) {
        i64::MIN
    }

    fn max_value() -> (r: Self) {
        i64::MAX
    }
}

impl ElementLimits for u64 {
    fn min_value() -> (r: Self) {
        u64::MIN
    }

    fn max_value() -> (r: Self) {
        u64::MAX
    }
}

impl ElementLimits for i32 {
    fn min_value() -> (r: Self) {
        i32::MIN
    }

    fn max_value() -> (r: Self) {
        i32::MAX
    }
}

impl ElementLimits for u32 {
    fn min_value() -> (r: Self) {
        u32::MIN
    }

    fn max_value() -> (r: Self) {
        u32::MAX
    }
}

impl ElementLimits for i16 {
    fn min_value() -> (r: Self) {
        i16::MIN
    }

    fn max_value() -> (r: Self) {
        i16::MAX
    }
}

impl ElementLimits for u16 {
    fn min_value() -> (r: Self) {
        u16::MIN
    }

    fn max_value() -> (r: Self) {
        u16::MAX
    }
}

impl ElementLimits for i8 {
    fn min_value() -> (r: Self) {
        i8::MIN
    }

    fn max_value() -> (r: Self) {
        i8::MAX
    }
}

impl ElementLimits for u8 {
    fn min_value() -> (r: Self) {
        u8::MIN
    }

    fn max_value() -> (r: Self) {
        u8::MAX
    }
}

impl ElementLimits for bool {
    fn min_value() -> (r: Self) {
        false
    }

    fn max_value() -> (r: Self) {
        true
    }
}

} // verus!
