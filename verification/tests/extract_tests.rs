use tinyfont::extract_font;
use tinyfont::index;
use tinyfont::lookup;
use tinyfont::BitmapChar;
use tinyfont::ExtractError;
use tinyfont::GlyphSheet;

const ON: u8 = 255;
const OFF: u8 = 0;
const WIDTH: usize = 8;
const HEIGHT: usize = 6;
const H_OFFSET: usize = 2;
const V_OFFSET: usize = 1;

/// The glyph drawn into the test image, as four row nibbles.
const GLYPH_ROWS: [[bool; 4]; 4] = [
    [true, true, false, false],
    [true, true, true, true],
    [true, true, false, true],
    [true, true, true, true],
];
const GLYPH_PACKED: u16 = 0b1100_1111_1101_1111;

/// An 8x6 all-off image with the test glyph drawn at the first cell.
fn test_pixels() -> Vec<u8> {
    let mut pixels = vec![OFF; WIDTH * HEIGHT];
    for (dy, row) in GLYPH_ROWS.iter().enumerate() {
        for (dx, &bit) in row.iter().enumerate() {
            if bit {
                pixels[(V_OFFSET + dy) * WIDTH + (H_OFFSET + dx)] = ON;
            }
        }
    }
    pixels
}

fn test_sheet() -> GlyphSheet {
    GlyphSheet::new(WIDTH, HEIGHT, test_pixels()).unwrap()
}

#[test]
fn sheet_new_checks_dimensions() {
    assert!(GlyphSheet::new(8, 6, vec![0; 48]).is_some());
    assert!(GlyphSheet::new(8, 6, vec![0; 47]).is_none());
    assert!(GlyphSheet::new(8, 6, vec![0; 49]).is_none());
    assert!(GlyphSheet::new(0, 0, vec![]).is_some());
}

#[test]
fn extracts_single_glyph_cell() {
    let sheet = test_sheet();
    let layout = vec![vec!['a']];
    let font = extract_font(&sheet, H_OFFSET, V_OFFSET, ON, OFF, &layout).unwrap();
    let data = font.as_data();
    assert_eq!(data.len(), 68);
    assert_eq!(data[index('a').unwrap()], Some(BitmapChar(GLYPH_PACKED)));
    for (i, slot) in data.iter().enumerate() {
        if i != index('a').unwrap() {
            assert_eq!(*slot, None);
        }
    }
}

#[test]
fn extraction_aborts_on_third_color() {
    let mut pixels = test_pixels();
    // the sample for bit (1, 2) of the glyph cell
    pixels[(V_OFFSET + 1) * WIDTH + (H_OFFSET + 2)] = 128;
    let sheet = GlyphSheet::new(WIDTH, HEIGHT, pixels).unwrap();
    let layout = vec![vec!['a']];
    assert!(matches!(
        extract_font(&sheet, H_OFFSET, V_OFFSET, ON, OFF, &layout),
        Err(ExtractError::ColorMismatch)
    ));
}

#[test]
fn extraction_aborts_when_layout_exceeds_image() {
    let sheet = test_sheet();
    let layout = vec![vec!['a', 'b']];
    assert!(matches!(
        extract_font(&sheet, H_OFFSET, V_OFFSET, ON, OFF, &layout),
        Err(ExtractError::OutOfBounds)
    ));
}

#[test]
fn extraction_aborts_on_unsupported_character() {
    let sheet = test_sheet();
    let layout = vec![vec!['$']];
    assert!(matches!(
        extract_font(&sheet, H_OFFSET, V_OFFSET, ON, OFF, &layout),
        Err(ExtractError::UnsupportedChar)
    ));
}

#[test]
fn sentinel_cells_are_skipped() {
    let sheet = test_sheet();
    let layout = vec![vec!['X']];
    let font = extract_font(&sheet, H_OFFSET, V_OFFSET, ON, OFF, &layout).unwrap();
    for slot in font.as_data().iter() {
        assert_eq!(*slot, None);
    }
}

#[test]
fn lowercase_x_is_a_glyph_not_the_sentinel() {
    let sheet = test_sheet();
    let layout = vec![vec!['x']];
    let font = extract_font(&sheet, H_OFFSET, V_OFFSET, ON, OFF, &layout).unwrap();
    assert_eq!(
        font.as_data()[index('x').unwrap()],
        Some(BitmapChar(GLYPH_PACKED))
    );
}

#[test]
fn lookup_finds_extracted_glyph() {
    let sheet = test_sheet();
    let layout = vec![vec!['a']];
    let font = extract_font(&sheet, H_OFFSET, V_OFFSET, ON, OFF, &layout).unwrap();
    assert_eq!(lookup('a', &font), Some(BitmapChar(GLYPH_PACKED)));
    assert_eq!(lookup('A', &font), Some(BitmapChar(GLYPH_PACKED)));
    assert_eq!(lookup('b', &font), None);
    assert_eq!(lookup('€', &font), None);
    assert_eq!(lookup('\u{0}', &font), None);
}

#[test]
fn font_table_length_matches_character_set() {
    let sheet = test_sheet();
    let layout = vec![vec!['a']];
    let font = extract_font(&sheet, H_OFFSET, V_OFFSET, ON, OFF, &layout).unwrap();
    assert_eq!(font.as_data().len(), 68);
    let empty_layout: Vec<Vec<char>> = vec![];
    let empty_font = extract_font(&sheet, 0, 0, ON, OFF, &empty_layout).unwrap();
    assert_eq!(empty_font.as_data().len(), 68);
}

#[test]
fn later_duplicate_wins() {
    // two cells naming the same character: the glyph of the second cell,
    // all-off, replaces the first
    let mut pixels = vec![OFF; 16 * HEIGHT];
    for (dy, row) in GLYPH_ROWS.iter().enumerate() {
        for (dx, &bit) in row.iter().enumerate() {
            if bit {
                pixels[(V_OFFSET + dy) * 16 + (H_OFFSET + dx)] = ON;
            }
        }
    }
    let sheet = GlyphSheet::new(16, HEIGHT, pixels).unwrap();
    let layout = vec![vec!['a', 'a']];
    let font = extract_font(&sheet, H_OFFSET, V_OFFSET, ON, OFF, &layout).unwrap();
    assert_eq!(font.as_data()[index('a').unwrap()], Some(BitmapChar(0)));
}
