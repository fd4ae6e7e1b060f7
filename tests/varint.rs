use postcard_schema::max_size::size_as_varint_usize;

#[test]
fn savu() {
    assert_eq!(1, size_as_varint_usize(0x00));
    assert_eq!(1, size_as_varint_usize(0x7F));
    assert_eq!(2, size_as_varint_usize(0x80));
    assert_eq!(2, size_as_varint_usize(0x3FFF));
    assert_eq!(3, size_as_varint_usize(0x4000));
    assert_eq!(3, size_as_varint_usize(0xFFFF));
    assert_eq!(3, size_as_varint_usize(0x1FFFFF));
    assert_eq!(4, size_as_varint_usize(0x200000));
    assert_eq!(4, size_as_varint_usize(0xFFFFFFF));
    assert_eq!(5, size_as_varint_usize(0x10000000));
    assert_eq!(5, size_as_varint_usize(0xFFFFFFFF));
    assert_eq!(5, size_as_varint_usize(0x7FFFFFFFF));
    assert_eq!(6, size_as_varint_usize(0x800000000));
    assert_eq!(10, size_as_varint_usize(usize::MAX));
}

#[test]
fn varint_sizes_at_seven_bit_boundaries() {
    let cases: [(usize, usize); 12] = [
        (0, 1),
        (127, 1),
        (128, 2),
        (16383, 2),
        (16384, 3),
        ((1 << 21) - 1, 3),
        (1 << 21, 4),
        ((1 << 28) - 1, 4),
        (1 << 28, 5),
        ((1 << 35) - 1, 5),
        (1 << 35, 6),
        (usize::MAX, 10),
    ];
    for (n, expected) in cases {
        assert_eq!(size_as_varint_usize(n), expected, "varint size of {}", n);
    }
}
