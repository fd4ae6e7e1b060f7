use postcard_schema::max_size::max_size_nt;
use postcard_schema::schema::{DataModelType, NamedType};

fn bytes_vec(cap: usize) -> NamedType {
    NamedType {
        name: "heapless::Vec<T, N>",
        ty: DataModelType::Sequence {
            element: Box::new(NamedType { name: "u8", ty: DataModelType::U8 }),
            max_len: Some(cap),
        },
    }
}

fn text(cap: usize) -> NamedType {
    NamedType { name: "heapless::String<N>", ty: DataModelType::String { max_len: Some(cap) } }
}

#[test]
fn heapless_v0_7_smoke() {
    assert_eq!(max_size_nt(&bytes_vec(128)), Some(130));
    assert_eq!(max_size_nt(&text(128)), Some(130));
}

#[test]
fn heapless_v0_8_smoke() {
    assert_eq!(max_size_nt(&bytes_vec(128)), Some(130));
    assert_eq!(max_size_nt(&text(128)), Some(130));
}
