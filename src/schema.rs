//! The descriptor grammar: every type maps its wire shape onto these values.
use vstd::prelude::*;

verus! {

/// A type, identified by its name and described by its structural shape.
#[derive(Debug, PartialEq)]
pub struct NamedType {
    pub name: &'static str,
    pub ty: DataModelType,
}

/// A named field of a struct or of a struct-like enum variant.
#[derive(Debug, PartialEq)]
pub struct NamedValue {
    pub name: &'static str,
    pub ty: NamedType,
}

/// A named variant of an enum.
#[derive(Debug, PartialEq)]
pub struct NamedVariant {
    pub name: &'static str,
    pub ty: DataModelVariant,
}

/// The payload that an enum variant carries.
#[derive(Debug, PartialEq)]
pub enum DataModelVariant {
    /// No payload.
    UnitVariant,
    /// A single wrapped value.
    NewtypeVariant(Box<NamedType>),
    /// An ordered list of values.
    TupleVariant(Vec<NamedType>),
    /// An ordered list of named fields.
    StructVariant(Vec<NamedValue>),
}

/// The shape of a type on the wire.
#[derive(Debug, PartialEq)]
pub enum DataModelType {
    Bool,
    I8,
    U8,
    I16,
    I32,
    I64,
    I128,
    U16,
    U32,
    U64,
    U128,
    /// Platform-width unsigned integer: no static bound.
    Usize,
    /// Platform-width signed integer: no static bound.
    Isize,
    F32,
    F64,
    Char,
    /// UTF-8 text, with an optional maximum length in bytes.
    String { max_len: Option<usize> },
    /// Raw bytes, with an optional maximum length.
    ByteArray { max_len: Option<usize> },
    /// A presence flag and, when present, the inner value.
    Option(Box<NamedType>),
    Unit,
    UnitStruct,
    /// A single wrapped value.
    NewtypeStruct(Box<NamedType>),
    /// A length-prefixed homogeneous sequence.
    Sequence { element: Box<NamedType>, max_len: Option<usize> },
    Tuple(Vec<NamedType>),
    TupleStruct(Vec<NamedType>),
    /// A length-prefixed sequence of key/value entries.
    Mapping { key: Box<NamedType>, val: Box<NamedType>, max_len: Option<usize> },
    /// Named fields in declaration order; skipped fields are absent.
    Struct(Vec<NamedValue>),
    Enum(Vec<NamedVariant>),
    /// A descriptor of a descriptor: always opaque.
    Schema,
}

} // verus!
