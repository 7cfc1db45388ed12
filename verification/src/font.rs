//! The font table: an immutable array of optional packed glyphs, one slot
//! per character-set member, and the character lookup over it.

use crate::charset::char_at;
use crate::charset::fold_char;
use crate::charset::index;
use crate::charset::index_spec;
use crate::charset::lemma_index_in_set;
use crate::charset::LENGTH;
use crate::glyph::BitmapChar;
use vstd::prelude::*;

verus! {

/// The glyph data of one font: one optional packed glyph per slot of the
/// character set.
///
/// Not constructible outside this crate, so that every font in existence
/// has exactly one slot per character-set member, in character-set order.
pub struct Font {
    data: [Option<BitmapChar>; LENGTH],
}

impl View for Font {
    type V = Seq<Option<BitmapChar>>;

    closed spec fn view(&self) -> Seq<Option<BitmapChar>> {
        self.data@
    }
}

impl Font {
    /// Crate-internal constructor. Intentionally not available outside the
    /// crate, so that the table length invariant is enforced by the type.
    pub(crate) fn new(data: [Option<BitmapChar>; LENGTH]) -> (r: Font)
        ensures
            r@ == data@,
    {
        Font { data }
    }

    /// The font's glyph data, one optional packed glyph per character-set
    /// slot, in character-set order. The length always equals the size of
    /// the character set.
    pub fn as_data(&self) -> (r: &[Option<BitmapChar>; LENGTH])
        ensures
            r@ == self@,
            r@.len() == LENGTH,
    {
        &self.data
    }

    /// Every font's table has exactly one slot per character-set member.
    pub proof fn lemma_len(&self)
        ensures
            self@.len() == LENGTH,
    {
        assert(self.data@.len() == LENGTH);
    }
}

/// What `lookup` returns: the glyph stored at the character's slot, or
/// `None` for a character outside the character set.
pub open spec fn lookup_spec(c: char, f: Font) -> Option<BitmapChar> {
    match index_spec(c) {
        Some(i) => f@[i as int],
        None => None,
    }
}

/// Looks a character up in a font: the glyph stored at the character's slot
/// (after ASCII case folding), or `None` if the character set does not
/// contain the character. Total: no character input can make it fail.
pub fn lookup(c: char, f: &Font) -> (r: Option<BitmapChar>)
    ensures
        r == lookup_spec(c, *f),
{
    let i = match index(c) {
        Some(i) => i,
        None => {
            return None;
        },
    };
    proof {
        lemma_index_in_set(c);
    }
    f.data[i]
}

/// Lookup totality: a character that no slot of the character set carries is
/// not found, in every font; and `lookup` is verified never to panic, for
/// any character input.
pub proof fn lemma_lookup_not_found(c: char, f: Font)
    requires
        forall|i: int| 0 <= i < LENGTH ==> char_at(i) != fold_char(c),
    ensures
        lookup_spec(c, f) == None::<BitmapChar>,
{
    lemma_index_in_set(c);
}

} // verus!
