use postcard_schema::max_size::{
    bounded_map_max, bounded_seq_max, bounded_string_max, max_size, max_size_dmt, max_size_nt,
    size_as_varint_usize,
};
use postcard_schema::schema::{
    DataModelType, DataModelVariant, NamedType, NamedValue, NamedVariant,
};

fn nt(name: &'static str, ty: DataModelType) -> NamedType {
    NamedType { name, ty }
}

fn unbounded_vec_of_u8() -> NamedType {
    nt(
        "Vec<T>",
        DataModelType::Sequence { element: Box::new(nt("u8", DataModelType::U8)), max_len: None },
    )
}

#[test]
fn scalar_costs() {
    let cases: [(DataModelType, Option<usize>); 18] = [
        (DataModelType::Bool, Some(1)),
        (DataModelType::I8, Some(1)),
        (DataModelType::U8, Some(1)),
        (DataModelType::I16, Some(3)),
        (DataModelType::U16, Some(3)),
        (DataModelType::I32, Some(5)),
        (DataModelType::U32, Some(5)),
        (DataModelType::I64, Some(10)),
        (DataModelType::U64, Some(10)),
        (DataModelType::I128, Some(19)),
        (DataModelType::U128, Some(19)),
        (DataModelType::F32, Some(4)),
        (DataModelType::F64, Some(8)),
        (DataModelType::Char, Some(5)),
        (DataModelType::Usize, None),
        (DataModelType::Isize, None),
        (DataModelType::Unit, Some(0)),
        (DataModelType::UnitStruct, Some(0)),
    ];
    for (ty, expected) in cases.iter() {
        assert_eq!(max_size_dmt(ty), *expected, "{:?}", ty);
    }
    assert_eq!(max_size_dmt(&DataModelType::Schema), None);
}

#[test]
fn struct_of_u8_and_u16() {
    let both = nt(
        "S",
        DataModelType::Struct(vec![
            NamedValue { name: "a", ty: nt("u8", DataModelType::U8) },
            NamedValue { name: "b", ty: nt("u16", DataModelType::U16) },
        ]),
    );
    assert_eq!(max_size_nt(&both), Some(4));
    let b_only = nt(
        "S",
        DataModelType::Struct(vec![NamedValue { name: "b", ty: nt("u16", DataModelType::U16) }]),
    );
    assert_eq!(max_size_nt(&b_only), Some(3));
}

#[test]
fn enum_of_three_unit_variants() {
    let e = nt(
        "E",
        DataModelType::Enum(vec![
            NamedVariant { name: "A", ty: DataModelVariant::UnitVariant },
            NamedVariant { name: "B", ty: DataModelVariant::UnitVariant },
            NamedVariant { name: "C", ty: DataModelVariant::UnitVariant },
        ]),
    );
    assert_eq!(max_size_nt(&e), Some(1));
}

#[test]
fn enum_discriminant_sizes() {
    assert_eq!(max_size_dmt(&DataModelType::Enum(vec![])), Some(1));
    let many: Vec<NamedVariant> =
        (0..129).map(|_| NamedVariant { name: "V", ty: DataModelVariant::UnitVariant }).collect();
    // 129 variants: the last ordinal, 128, takes two bytes
    assert_eq!(max_size_dmt(&DataModelType::Enum(many)), Some(2));
    let mixed = DataModelType::Enum(vec![
        NamedVariant { name: "A", ty: DataModelVariant::UnitVariant },
        NamedVariant { name: "B", ty: DataModelVariant::NewtypeVariant(Box::new(nt("u64", DataModelType::U64))) },
        NamedVariant {
            name: "C",
            ty: DataModelVariant::TupleVariant(vec![nt("u8", DataModelType::U8), nt("u32", DataModelType::U32)]),
        },
    ]);
    assert_eq!(max_size_dmt(&mixed), Some(1 + 10));
}

#[test]
fn unknown_variant_poisons_enum() {
    let e = DataModelType::Enum(vec![
        NamedVariant { name: "A", ty: DataModelVariant::UnitVariant },
        NamedVariant { name: "B", ty: DataModelVariant::NewtypeVariant(Box::new(unbounded_vec_of_u8())) },
    ]);
    assert_eq!(max_size_dmt(&e), None);
}

#[test]
fn fixed_capacity_byte_vector() {
    assert_eq!(bounded_seq_max(&nt("u8", DataModelType::U8), Some(128)), Some(130));
}

#[test]
fn sequence_law_values() {
    // 200 elements of 5 bytes: two-byte count, then 1000 bytes
    assert_eq!(bounded_seq_max(&nt("u32", DataModelType::U32), Some(200)), Some(2 + 1000));
    assert_eq!(bounded_seq_max(&nt("u32", DataModelType::U32), Some(0)), Some(1));
    assert_eq!(bounded_seq_max(&nt("u32", DataModelType::U32), None), None);
    assert_eq!(bounded_seq_max(&unbounded_vec_of_u8(), Some(3)), None);
}

#[test]
fn map_law_values() {
    let k = nt("u16", DataModelType::U16);
    let v = nt("u64", DataModelType::U64);
    assert_eq!(bounded_map_max(&k, &v, Some(10)), Some(1 + 10 * (3 + 10)));
    assert_eq!(bounded_map_max(&k, &v, Some(300)), Some(2 + 300 * 13));
    assert_eq!(bounded_map_max(&k, &v, None), None);
    assert_eq!(bounded_map_max(&k, &unbounded_vec_of_u8(), Some(1)), None);
    let m = DataModelType::Mapping { key: Box::new(k), val: Box::new(v), max_len: Some(10) };
    assert_eq!(max_size_dmt(&m), Some(131));
}

#[test]
fn string_and_bytes() {
    assert_eq!(bounded_string_max(Some(0)), Some(1));
    assert_eq!(bounded_string_max(Some(127)), Some(128));
    assert_eq!(bounded_string_max(None), None);
    assert_eq!(max_size_dmt(&DataModelType::ByteArray { max_len: Some(16384) }), Some(3 + 16384));
    assert_eq!(max_size_dmt(&DataModelType::String { max_len: None }), None);
}

#[test]
fn unknown_part_propagates_upward() {
    let inner = nt("T", DataModelType::Tuple(vec![nt("u8", DataModelType::U8), unbounded_vec_of_u8()]));
    let middle = nt("N", DataModelType::NewtypeStruct(Box::new(inner)));
    let outer = nt(
        "S",
        DataModelType::Struct(vec![
            NamedValue { name: "x", ty: nt("u8", DataModelType::U8) },
            NamedValue { name: "y", ty: middle },
        ]),
    );
    assert_eq!(max_size_nt(&outer), None);
    let opt = DataModelType::Option(Box::new(unbounded_vec_of_u8()));
    assert_eq!(max_size_dmt(&opt), None);
}

#[test]
fn wrappers_take_inner_bound() {
    assert_eq!(max_size_dmt(&DataModelType::Option(Box::new(nt("u32", DataModelType::U32)))), Some(5));
    assert_eq!(max_size_dmt(&DataModelType::NewtypeStruct(Box::new(nt("u16", DataModelType::U16)))), Some(3));
    let t = DataModelType::Tuple(vec![nt("bool", DataModelType::Bool), nt("char", DataModelType::Char)]);
    assert_eq!(max_size_dmt(&t), Some(6));
    assert_eq!(max_size_dmt(&DataModelType::Tuple(vec![])), Some(0));
}

#[test]
fn overflow_is_unbounded() {
    let huge = DataModelType::Sequence {
        element: Box::new(nt("u128", DataModelType::U128)),
        max_len: Some(usize::MAX),
    };
    assert_eq!(max_size_dmt(&huge), None);
    assert_eq!(bounded_string_max(Some(usize::MAX)), None);
    let nested = DataModelType::Sequence { element: Box::new(nt("S", huge)), max_len: Some(0) };
    assert_eq!(max_size_dmt(&nested), None);
    assert_eq!(size_as_varint_usize(usize::MAX), 10);
}

#[test]
fn generic_max_size() {
    assert_eq!(max_size::<u16>(), Some(3));
    assert_eq!(max_size::<bool>(), Some(1));
    assert_eq!(max_size::<Option<i64>>(), Some(10));
    assert_eq!(max_size::<()>(), Some(0));
    assert_eq!(max_size::<char>(), Some(5));
    assert_eq!(max_size::<Vec<u8>>(), None);
    assert_eq!(max_size::<String>(), None);
}
