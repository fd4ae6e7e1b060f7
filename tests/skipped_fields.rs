use postcard_schema::max_size::max_size_nt;
use postcard_schema::schema::{
    DataModelType, DataModelVariant, NamedType, NamedValue, NamedVariant,
};
use postcard_schema::Schema;

// Descriptors as a deriving tool emits them: skipped members are left out.
fn newtype() -> NamedType {
    NamedType { name: "Newtype", ty: DataModelType::NewtypeStruct(Box::new(u8::schema())) }
}

fn tuple() -> NamedType {
    NamedType { name: "Tuple", ty: DataModelType::TupleStruct(vec![u16::schema()]) }
}

fn strukt() -> NamedType {
    NamedType {
        name: "Struct",
        ty: DataModelType::Struct(vec![NamedValue { name: "b", ty: u16::schema() }]),
    }
}

fn enumeration() -> NamedType {
    NamedType {
        name: "Enum",
        ty: DataModelType::Enum(vec![
            NamedVariant { name: "A", ty: DataModelVariant::UnitVariant },
            NamedVariant { name: "B", ty: DataModelVariant::TupleVariant(vec![u16::schema()]) },
            NamedVariant {
                name: "C",
                ty: DataModelVariant::StructVariant(vec![NamedValue { name: "b", ty: u16::schema() }]),
            },
        ]),
    }
}

#[test]
fn skipped_fields_skipped_fields() {
    assert_eq!(
        newtype(),
        NamedType {
            name: "Newtype",
            ty: DataModelType::NewtypeStruct(Box::new(NamedType { name: "u8", ty: DataModelType::U8 }))
        }
    );
    assert_eq!(
        enumeration(),
        NamedType {
            name: "Enum",
            ty: DataModelType::Enum(vec![
                NamedVariant { name: "A", ty: DataModelVariant::UnitVariant },
                NamedVariant {
                    name: "B",
                    ty: DataModelVariant::TupleVariant(vec![NamedType { name: "u16", ty: DataModelType::U16 }])
                },
                NamedVariant {
                    name: "C",
                    ty: DataModelVariant::StructVariant(vec![NamedValue {
                        name: "b",
                        ty: NamedType { name: "u16", ty: DataModelType::U16 }
                    }])
                },
            ])
        }
    );
    assert_eq!(
        tuple(),
        NamedType {
            name: "Tuple",
            ty: DataModelType::TupleStruct(vec![NamedType { name: "u16", ty: DataModelType::U16 }])
        }
    );
    assert_eq!(
        strukt(),
        NamedType {
            name: "Struct",
            ty: DataModelType::Struct(vec![NamedValue {
                name: "b",
                ty: NamedType { name: "u16", ty: DataModelType::U16 }
            }])
        }
    );
}

#[test]
fn skipped_members_do_not_count() {
    assert_eq!(max_size_nt(&newtype()), Some(1));
    assert_eq!(max_size_nt(&tuple()), Some(3));
    assert_eq!(max_size_nt(&strukt()), Some(3));
    // discriminant of three variants, then the largest payload, a u16
    assert_eq!(max_size_nt(&enumeration()), Some(1 + 3));
}

#[test]
fn crate_path() {
    let point = NamedType {
        name: "Point",
        ty: DataModelType::Struct(vec![
            NamedValue { name: "x", ty: i32::schema() },
            NamedValue { name: "y", ty: i32::schema() },
        ]),
    };
    assert_eq!(
        point,
        NamedType {
            name: "Point",
            ty: DataModelType::Struct(vec![
                NamedValue { name: "x", ty: NamedType { name: "i32", ty: DataModelType::I32 } },
                NamedValue { name: "y", ty: NamedType { name: "i32", ty: DataModelType::I32 } },
            ])
        }
    );
    assert_eq!(max_size_nt(&point), Some(10));
}
