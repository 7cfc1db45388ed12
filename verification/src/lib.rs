//! A very small bitmap font: a fixed 68-character set, each character
//! rendered as a 4x4 pixel glyph packed into a `u16`.
//!
//! Use [`index`] to find the slot of a character in the character set, and
//! [`lookup`] to fetch the packed glyph for a character from a [`Font`].
//! A [`Font`] is produced by [`extract_font`], which scans a two-color
//! glyph-sheet image against a layout map.

mod charset;
mod extract;
mod font;
mod glyph;

pub use extract::blank_table;
pub use extract::cell_bits_from;
pub use extract::cell_err_from;
pub use extract::cell_first_err;
pub use extract::cell_glyph;
pub use extract::cell_ok;
pub use extract::extract_font;
pub use extract::extract_spec;
pub use extract::layout_ok;
pub use extract::row_cell_fine;
pub use extract::sample_bit;
pub use extract::sample_in_bounds;
pub use extract::sample_ok;
pub use extract::sample_x;
pub use extract::sample_y;
pub use extract::scan_row;
pub use extract::scan_rows;
pub use extract::ExtractError;
pub use extract::GlyphSheet;
pub use extract::CELL_STRIDE;
pub use extract::NO_CHAR;

pub use font::lemma_lookup_not_found;
pub use font::lookup;
pub use font::lookup_spec;
pub use font::Font;

pub use charset::char_at;
pub use charset::char_set;
pub use charset::fold_char;
pub use charset::index;
pub use charset::index_spec;
pub use charset::lemma_fold_idempotent;
pub use charset::lemma_index_case_insensitive;
pub use charset::lemma_index_in_set;
pub use charset::lemma_index_of_member;
pub use charset::slot_of;
pub use charset::LENGTH;
pub use glyph::lemma_pack_of_unpack;
pub use glyph::lemma_packed_bits_unique;
pub use glyph::lemma_unpack_of_pack;
pub use glyph::make_char;
pub use glyph::make_char_bool_array;
pub use glyph::packed_bit;
pub use glyph::packs_to;
pub use glyph::unpacks_to;
pub use glyph::BitmapChar;
