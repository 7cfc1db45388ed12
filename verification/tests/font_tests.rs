use tinyfont::index;
use tinyfont::make_char;
use tinyfont::make_char_bool_array;
use tinyfont::BitmapChar;

#[test]
fn bitwise_works_right() {
    assert_eq!(0b0011_0000u8, 0b1100_0000u8 >> 2);
    assert_eq!(0b0000_0011u8, 0b11);
    assert_eq!(0b1u8, 1u8);
}

#[test]
fn bitmap_char_to_array() {
    assert_eq!(
        BitmapChar(0b0001_0011_0111_1111).to_array(),
        [
            [false, false, false, true],
            [false, false, true, true],
            [false, true, true, true],
            [true, true, true, true],
        ]
    )
}

#[test]
fn index_works() {
    for (i, c) in "0123456789abcdefghijklmnopqrstuvwxyz ~`!@#%^&*_=+-(){}[]|\\:;\"'<>?/,."
        .chars()
        .enumerate()
    {
        assert_eq!(Some(i), index(c))
    }
}

#[test]
fn test_make_char() {
    assert_eq!(
        make_char(0b1100, 0b1111, 0b1101, 0b1111),
        Some(BitmapChar(0b1100_1111_1101_1111))
    )
}

#[test]
fn test_make_char_bool_array() {
    let a = make_char_bool_array([
        [true, true, false, false],
        [true, true, true, true],
        [true, true, false, true],
        [true, true, true, true],
    ]);
    println!("{:#0b}", a.unwrap().0);
    assert_eq!(a, Some(BitmapChar(0b1100_1111_1101_1111)))
}

#[test]
fn pack_grid_scenario() {
    assert_eq!(
        make_char_bool_array([
            [false, false, false, true],
            [false, false, true, true],
            [false, true, true, true],
            [true, true, true, true],
        ]),
        Some(BitmapChar(0x137F))
    );
}

#[test]
fn roundtrip_all_values() {
    for v in 0..=u16::MAX {
        let grid = BitmapChar(v).to_array();
        let packed = make_char_bool_array(grid).unwrap();
        assert_eq!(packed.0, v);
        assert_eq!(packed.to_array(), grid);
    }
}

#[test]
fn to_bitmap_returns_packed_value() {
    assert_eq!(BitmapChar(0x137F).to_bitmap(), 0x137F);
    assert_eq!(BitmapChar(0).to_bitmap(), 0);
    assert_eq!(BitmapChar(u16::MAX).to_bitmap(), u16::MAX);
}

#[test]
fn index_case_insensitive() {
    assert_eq!(index('a'), Some(10));
    assert_eq!(index('A'), Some(10));
    assert_eq!(index('0'), Some(0));
    for (lower, upper) in ('a'..='z').zip('A'..='Z') {
        assert_eq!(index(lower), index(upper));
    }
}

#[test]
fn index_unsupported_characters() {
    assert_eq!(index('€'), None);
    assert_eq!(index('$'), None);
    assert_eq!(index('\n'), None);
    assert_eq!(index('ß'), None);
}

#[test]
fn make_char_masks_high_bits() {
    assert_eq!(
        make_char(0xFFFC, 0xFFFF, 0xFFFD, 0xFFFF),
        Some(BitmapChar(0b1100_1111_1101_1111))
    );
}
