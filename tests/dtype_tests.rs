use burn_import::element::{QuantScheme as ElemQuant, QuantValue as ElemQuantValue};
use burn_import::dtype::{
    CompoundDtypeScheme, CompoundLayout, DType, FloatDType, IntDType, PrimitiveDType, QuantScheme,
    QuantStore, QuantValue,
};
use burn_import::element::{
    DType as ElemDType, Element, ElementComparison, ElementLimits, ElementPrecision,
    FloatDType as ElemFloatDType, Precision,
};

#[test]
fn primitive_sizes() {
    assert_eq!(PrimitiveDType::F64.size(), 8);
    assert_eq!(PrimitiveDType::F32.size(), 4);
    assert_eq!(PrimitiveDType::Flex32.size(), 4);
    assert_eq!(PrimitiveDType::F16.size(), 2);
    assert_eq!(PrimitiveDType::BF16.size(), 2);
    assert_eq!(PrimitiveDType::I16.size(), 2);
    assert_eq!(PrimitiveDType::U8.size(), 1);
    assert_eq!(PrimitiveDType::Bool.size(), 1);
}

#[test]
fn quantized_sizes() {
    let q8 = QuantScheme { store: QuantStore::Native, value: QuantValue::Q8S };
    let q4 = QuantScheme { store: QuantStore::Native, value: QuantValue::Q4F };
    let e2m1 = QuantScheme { store: QuantStore::Native, value: QuantValue::E2M1 };
    let packed = QuantScheme { store: QuantStore::U32, value: QuantValue::Q4S };
    assert_eq!(PrimitiveDType::QFloat(q8).size(), 1);
    assert_eq!(PrimitiveDType::QFloat(q4).size(), 0);
    assert_eq!(PrimitiveDType::QFloat(e2m1).size(), 1);
    assert_eq!(PrimitiveDType::QFloat(packed).size(), 4);
}

#[test]
fn primitive_predicates_and_names() {
    assert!(PrimitiveDType::BF16.is_float());
    assert!(!PrimitiveDType::I8.is_float());
    assert!(PrimitiveDType::I64.is_int());
    assert!(!PrimitiveDType::U64.is_int());
    assert!(PrimitiveDType::U16.is_uint());
    assert!(PrimitiveDType::Bool.is_bool());
    assert_eq!(PrimitiveDType::Flex32.name(), "flex32");
    assert_eq!(PrimitiveDType::U32.name(), "u32");
    let q = QuantScheme { store: QuantStore::U32, value: QuantValue::Q8F };
    assert_eq!(PrimitiveDType::QFloat(q).name(), "qfloat");
}

#[test]
fn compound_size_is_sum_of_parts() {
    let c = CompoundDtypeScheme::new("mixed", &[PrimitiveDType::F32, PrimitiveDType::I8], CompoundLayout::InterLeaved);
    assert_eq!(c.size(), 5);
    assert_eq!(c.name(), "mixed");
    let d = CompoundDtypeScheme::new("complex64", &[PrimitiveDType::F64, PrimitiveDType::F64], CompoundLayout::Split);
    assert_eq!(d.size(), 16);
}

#[test]
fn dtype_dispatch() {
    let c = CompoundDtypeScheme::new("mixed", &[PrimitiveDType::F32, PrimitiveDType::I8], CompoundLayout::Split);
    let compound = DType::Compound(c);
    let prim = DType::Primitive(PrimitiveDType::F32);
    assert_eq!(compound.layout(), Some(CompoundLayout::Split));
    assert_eq!(prim.layout(), None);
    assert_eq!(compound.size(), 5);
    assert_eq!(prim.size(), 4);
    assert!(prim.is_float());
    assert!(!compound.is_float());
    assert!(!compound.is_int());
    assert!(DType::Primitive(PrimitiveDType::I32).is_int());
    assert!(DType::Primitive(PrimitiveDType::U8).is_uint());
    assert!(!compound.is_uint());
    assert!(DType::Primitive(PrimitiveDType::Bool).is_bool());
    assert!(!compound.is_bool());
    assert_eq!(compound.name(), "mixed");
    assert_eq!(prim.name(), "f32");
}

#[test]
fn float_and_int_conversions() {
    assert_eq!(FloatDType::from_primitive(PrimitiveDType::BF16), FloatDType::BF16);
    assert_eq!(FloatDType::F16.to_primitive(), PrimitiveDType::F16);
    assert_eq!(IntDType::from_primitive(PrimitiveDType::U32), IntDType::U32);
    assert_eq!(IntDType::I8.to_primitive(), PrimitiveDType::I8);
}

#[test]
fn element_dtype_properties() {
    assert_eq!(ElemDType::Complex64.size(), 16);
    assert_eq!(ElemDType::Complex32.size(), 8);
    assert_eq!(ElemDType::F16.size(), 2);
    assert!(ElemDType::Complex32.is_complex());
    assert!(!ElemDType::F32.is_complex());
    assert!(ElemDType::Flex32.is_float());
    assert!(ElemDType::I16.is_int());
    assert!(!ElemDType::U16.is_int());
    assert!(ElemDType::Bool.is_bool());
    assert_eq!(ElemDType::Complex64.name(), "complex64");
    assert_eq!(ElemDType::BF16.name(), "bf16");
    assert_eq!(ElemFloatDType::from_dtype(ElemDType::F64).to_dtype(), ElemDType::F64);
}

#[test]
fn element_traits() {
    assert_eq!(<i64 as ElementPrecision>::precision(), Precision::Double);
    assert_eq!(<u32 as ElementPrecision>::precision(), Precision::Full);
    assert_eq!(<i16 as ElementPrecision>::precision(), Precision::Half);
    assert_eq!(<bool as ElementPrecision>::precision(), Precision::Other);
    assert_eq!(<i32 as Element>::dtype(), ElemDType::I32);
    assert_eq!(<bool as Element>::dtype(), ElemDType::Bool);
    assert_eq!(ElementComparison::cmp(&3i64, &5i64), std::cmp::Ordering::Less);
    assert_eq!(ElementComparison::cmp(&7u8, &7u8), std::cmp::Ordering::Equal);
    assert_eq!(ElementComparison::cmp(&true, &false), std::cmp::Ordering::Greater);
}

#[test]
fn from_conversions() {
    assert_eq!(PrimitiveDType::from(FloatDType::Flex32), PrimitiveDType::Flex32);
    assert_eq!(PrimitiveDType::from(IntDType::U16), PrimitiveDType::U16);
    assert_eq!(ElemDType::from(ElemFloatDType::F32), ElemDType::F32);
}

#[test]
fn element_limits() {
    assert_eq!(<i8 as ElementLimits>::min_value(), -128);
    assert_eq!(<i8 as ElementLimits>::max_value(), 127);
    assert_eq!(<u16 as ElementLimits>::max_value(), 65535);
    assert_eq!(<u32 as ElementLimits>::min_value(), 0);
    assert_eq!(<i64 as ElementLimits>::min_value(), i64::MIN);
    assert!(!<bool as ElementLimits>::min_value());
    assert!(<bool as ElementLimits>::max_value());
}

#[test]
fn quantized_element_sizes() {
    let native = ElemQuant { store: QuantStore::Native, value: ElemQuantValue::QInt8 };
    let packed = ElemQuant { store: QuantStore::U32, value: ElemQuantValue::QInt8 };
    assert_eq!(ElemDType::QFloat(native).size(), 1);
    assert_eq!(ElemDType::QFloat(packed).size(), 4);
    assert_eq!(ElemDType::QFloat(native).name(), "qfloat");
}
