//! Descriptors of the built-in types.
use vstd::prelude::*;
use crate::schema::{DataModelType, NamedType};
use crate::Schema;

verus! {

impl Schema for bool {
    open spec fn spec_schema() -> NamedType {
        NamedType { name: "bool", ty: DataModelType::Bool }
    }

    open spec fn spec_manual_max_size() -> Option<usize> {
        None
    }

    fn schema() -> (r: NamedType) {
        NamedType { name: "bool", ty: DataModelType::Bool }
    }

    fn manual_max_size() -> (r: Option<usize>) {
        None
    }
}

impl Schema for u8 {
    open spec fn spec_schema() -> NamedType {
        NamedType { name: "u8", ty: DataModelType::U8 }
    }

    open spec fn spec_manual_max_size() -> Option<usize> {
        None
    }

    fn schema() -> (r: NamedType) {
        NamedType { name: "u8", ty: DataModelType::U8 }
    }

    fn manual_max_size() -> (r: Option<usize>) {
        None
    }
}

impl Schema for u16 {
    open spec fn spec_schema() -> NamedType {
        NamedType { name: "u16", ty: DataModelType::U16 }
    }

    open spec fn spec_manual_max_size() -> Option<usize> {
        None
    }

    fn schema() -> (r: NamedType) {
        NamedType { name: "u16", ty: DataModelType::U16 }
    }

    fn manual_max_size() -> (r: Option<usize>) {
        None
    }
}

impl Schema for u32 {
    open spec fn spec_schema() -> NamedType {
        NamedType { name: "u32", ty: DataModelType::U32 }
    }

    open spec fn spec_manual_max_size() -> Option<usize> {
        None
    }

    fn schema() -> (r: NamedType) {
        NamedType { name: "u32", ty: DataModelType::U32 }
    }

    fn manual_max_size() -> (r: Option<usize>) {
        None
    }
}

impl Schema for u64 {
    open spec fn spec_schema() -> NamedType {
        NamedType { name: "u64", ty: DataModelType::U64 }
    }

    open spec fn spec_manual_max_size() -> Option<usize> {
        None
    }

    fn schema() -> (r: NamedType) {
        NamedType { name: "u64", ty: DataModelType::U64 }
    }

    fn manual_max_size() -> (r: Option<usize>) {
        None
    }
}

impl Schema for u128 {
    open spec fn spec_schema() -> NamedType {
        NamedType { name: "u128", ty: DataModelType::U128 }
    }

    open spec fn spec_manual_max_size() -> Option<usize> {
        None
    }

    fn schema() -> (r: NamedType) {
        NamedType { name: "u128", ty: DataModelType::U128 }
    }

    fn manual_max_size() -> (r: Option<usize>) {
        None
    }
}

impl Schema for i8 {
    open spec fn spec_schema() -> NamedType {
        NamedType { name: "i8", ty: DataModelType::I8 }
    }

    open spec fn spec_manual_max_size() -> Option<usize> {
        None
    }

    fn schema() -> (r: NamedType) {
        NamedType { name: "i8", ty: DataModelType::I8 }
    }

    fn manual_max_size() -> (r: Option<usize>) {
        None
    }
}

impl Schema for i16 {
    open spec fn spec_schema() -> NamedType {
        NamedType { name: "i16", ty: DataModelType::I16 }
    }

    open spec fn spec_manual_max_size() -> Option<usize> {
        None
    }

    fn schema() -> (r: NamedType) {
        NamedType { name: "i16", ty: DataModelType::I16 }
    }

    fn manual_max_size() -> (r: Option<usize>) {
        None
    }
}

impl Schema for i32 {
    open spec fn spec_schema() -> NamedType {
        NamedType { name: "i32", ty: DataModelType::I32 }
    }

    open spec fn spec_manual_max_size() -> Option<usize> {
        None
    }

    fn schema() -> (r: NamedType) {
        NamedType { name: "i32", ty: DataModelType::I32 }
    }

    fn manual_max_size() -> (r: Option<usize>) {
        None
    }
}

impl Schema for i64 {
    open spec fn spec_schema() -> NamedType {
        NamedType { name: "i64", ty: DataModelType::I64 }
    }

    open spec fn spec_manual_max_size() -> Option<usize> {
        None
    }

    fn schema() -> (r: NamedType) {
        NamedType { name: "i64", ty: DataModelType::I64 }
    }

    fn manual_max_size() -> (r: Option<usize>) {
        None
    }
}

impl Schema for i128 {
    open spec fn spec_schema() -> NamedType {
        NamedType { name: "i128", ty: DataModelType::I128 }
    }

    open spec fn spec_manual_max_size() -> Option<usize> {
        None
    }

    fn schema() -> (r: NamedType) {
        NamedType { name: "i128", ty: DataModelType::I128 }
    }

    fn manual_max_size() -> (r: Option<usize>) {
        None
    }
}

impl Schema for char {
    open spec fn spec_schema() -> NamedType {
        NamedType { name: "char", ty: DataModelType::Char }
    }

    open spec fn spec_manual_max_size() -> Option<usize> {
        None
    }

    fn schema() -> (r: NamedType) {
        NamedType { name: "char", ty: DataModelType::Char }
    }

    fn manual_max_size() -> (r: Option<usize>) {
        None
    }
}

impl Schema for () {
    open spec fn spec_schema() -> NamedType {
        NamedType { name: "()", ty: DataModelType::Unit }
    }

    open spec fn spec_manual_max_size() -> Option<usize> {
        None
    }

    fn schema() -> (r: NamedType) {
        NamedType { name: "()", ty: DataModelType::Unit }
    }

    fn manual_max_size() -> (r: Option<usize>) {
        None
    }
}

impl Schema for String {
    open spec fn spec_schema() -> NamedType {
        NamedType { name: "String", ty: DataModelType::String { max_len: None } }
    }

    open spec fn spec_manual_max_size() -> Option<usize> {
        None
    }

    fn schema() -> (r: NamedType) {
        NamedType { name: "String", ty: DataModelType::String { max_len: None } }
    }

    fn manual_max_size() -> (r: Option<usize>) {
        None
    }
}

impl<T: Schema> Schema for Option<T> {
    open spec fn spec_schema() -> NamedType {
        NamedType { name: "Option<T>", ty: DataModelType::Option(Box::new(T::spec_schema())) }
    }

    open spec fn spec_manual_max_size() -> Option<usize> {
        None
    }

    fn schema() -> (r: NamedType) {
        NamedType { name: "Option<T>", ty: DataModelType::Option(Box::new(T::schema())) }
    }

    fn manual_max_size() -> (r: Option<usize>) {
        None
    }
}

impl<T: Schema> Schema for Vec<T> {
    open spec fn spec_schema() -> NamedType {
        NamedType { name: "Vec<T>", ty: DataModelType::Sequence { element: Box::new(T::spec_schema()), max_len: None } }
    }

    open spec fn spec_manual_max_size() -> Option<usize> {
        None
    }

    fn schema() -> (r: NamedType) {
        NamedType { name: "Vec<T>", ty: DataModelType::Sequence { element: Box::new(T::schema()), max_len: None } }
    }

    fn manual_max_size() -> (r: Option<usize>) {
        None
    }
}

} // verus!
