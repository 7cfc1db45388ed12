//! The packed glyph representation: a 4x4 boolean pixel grid encoded in a
//! `u16`, most significant bit first, row-major (bit 15 is cell (0,0), bit 0
//! is cell (3,3); each row occupies one nibble).

use vstd::prelude::*;

verus! {

/// A single bitmap character: a 4x4 pixel grid packed into a `u16`.
///
/// Every `u16` value is a legal glyph; there are no invalid states.
#[derive(Debug, Clone, Copy, PartialEq, Eq, Hash, Structural)]
pub struct BitmapChar(pub u16);

/// Bit `k` of a packed glyph, counting from the most significant bit:
/// `k == 0` is grid cell (0,0), `k == 15` is grid cell (3,3).
pub open spec fn packed_bit(v: u16, k: int) -> bool {
    (v >> ((15 - k) as u16)) & 1 == 1
}

/// `arr` is the 4x4 grid encoded by the packed value `v`.
pub open spec fn unpacks_to(v: u16, arr: [[bool; 4]; 4]) -> bool {
    forall|row: int, col: int|
        0 <= row < 4 && 0 <= col < 4 ==> arr[row][col] == packed_bit(v, 4 * row + col)
}

/// `v` is the packed encoding of the 4x4 grid `arr`.
pub open spec fn packs_to(arr: [[bool; 4]; 4], v: u16) -> bool {
    forall|k: int| 0 <= k < 16 ==> packed_bit(v, k) == arr[k / 4][k % 4]
}

impl BitmapChar {
    /// The packed bitmap data: 16 bits, four rows of four bits each,
    /// most significant nibble first.
    pub fn to_bitmap(self) -> (r: u16)
        ensures
            r == self.0,
    {
        self.0
    }

    /// The glyph as a 4x4 grid of booleans, row-major, top row first.
    #[verifier::rlimit(30)]
    pub fn to_array(self) -> (r: [[bool; 4]; 4])
        ensures
            unpacks_to(self.0, r),
    {
        let v = self.0;
        let r = [
            [bit_at(v, 0), bit_at(v, 1), bit_at(v, 2), bit_at(v, 3)],
            [bit_at(v, 4), bit_at(v, 5), bit_at(v, 6), bit_at(v, 7)],
            [bit_at(v, 8), bit_at(v, 9), bit_at(v, 10), bit_at(v, 11)],
            [bit_at(v, 12), bit_at(v, 13), bit_at(v, 14), bit_at(v, 15)],
        ];
        proof {
            assert forall|row: int, col: int|
                0 <= row < 4 && 0 <= col < 4 implies r[row][col] == packed_bit(
                self.0,
                4 * row + col,
            ) by {
                if row == 0 {
                    assert(r[0] == r@[0]);
                } else if row == 1 {
                    assert(r[1] == r@[1]);
                } else if row == 2 {
                    assert(r[2] == r@[2]);
                } else {
                    assert(r[3] == r@[3]);
                }
            }
        }
        r
    }
}

/// Bit `k` (most-significant first) of the packed value `v`.
fn bit_at(v: u16, k: u16) -> (b: bool)
    requires
        k < 16,
    ensures
        b == packed_bit(v, k as int),
{
    (v >> (15 - k)) & 1 == 1
}

/// Builds a character from its four row nibbles, top row first; only the low
/// four bits of each argument are used. Always returns `Some`, for
/// convenience when building font tables.
pub fn make_char(a: u16, b: u16, c: u16, d: u16) -> (r: Option<BitmapChar>)
    ensures
        r == Some(BitmapChar(((a & 15) << 12u16) | ((b & 15) << 8u16) | ((c & 15) << 4u16) | (
        d & 15))),
{
    let m = 0b1111u16;
    let (a, b, c, d) = (a & m, b & m, c & m, d & m);
    let raw = (a << 12u16) | (b << 8u16) | (c << 4u16) | d;
    Some(BitmapChar(raw))
}

/// Builds a character from a 4x4 grid of booleans. Always returns `Some`,
/// for convenience when building font tables.
pub fn make_char_bool_array(arr: [[bool; 4]; 4]) -> (r: Option<BitmapChar>)
    ensures
        r matches Some(g) && packs_to(arr, g.0),
{
    let mut raw = 0u16;
    proof {
        lemma_shr_zero();
    }
    let mut i: usize = 0;
    while i < 16
        invariant
            i <= 16,
            forall|k: int| 0 <= k < i ==> packed_bit(raw, k) == arr[k / 4][k % 4],
            forall|k: int| i <= k < 16 ==> !packed_bit(raw, k),
        decreases 16 - i,
    {
        let v = arr[i / 4][i % 4];
        if v {
            let s = (15 - i) as u16;
            let prev = raw;
            raw = raw | (1u16 << s);
            proof {
                lemma_set_bit(prev, s);
                assert(raw == prev | (1u16 << s));
                assert forall|k: int| 0 <= k <= i implies packed_bit(raw, k) == arr[k / 4][k
                    % 4] by {
                    let t = (15 - k) as u16;
                    assert(t < 16);
                    assert((raw >> t) & 1 == (if t == s {
                        1u16
                    } else {
                        (prev >> t) & 1
                    }));
                    if k == i {
                        assert(t == s);
                        assert((raw >> t) & 1 == 1);
                        assert(packed_bit(raw, k));
                        assert(arr[k / 4][k % 4] == v);
                    } else {
                        assert(t != s);
                        assert(packed_bit(raw, k) == packed_bit(prev, k));
                    }
                }
                assert forall|k: int| i < k < 16 implies !packed_bit(raw, k) by {
                    let t = (15 - k) as u16;
                    assert(t < 16);
                    assert((raw >> t) & 1 == (if t == s {
                        1u16
                    } else {
                        (prev >> t) & 1
                    }));
                    assert(t != s);
                    assert(packed_bit(raw, k) == packed_bit(prev, k));
                }
            }
        }
        i += 1;
    }
    Some(BitmapChar(raw))
}

/// Shifting zero right leaves every bit clear.
pub(crate) proof fn lemma_shr_zero()
    by (bit_vector)
    ensures
        forall|t: u16| #[trigger] (0u16 >> t) & 1 == 0,
{
}

/// A bit of a bitwise or is set exactly when it is set on either side.
pub(crate) proof fn lemma_or_bits()
    by (bit_vector)
    ensures
        forall|a: u16, b: u16, t: u16|
            t < 16 ==> (((#[trigger] ((a | b) >> t)) & 1 == 1) <==> ((a >> t) & 1 == 1 || (b >> t)
                & 1 == 1)),
{
}

/// A single set bit at position `s` (from the least significant end) shows
/// up at exactly that position.
pub(crate) proof fn lemma_one_shl()
    by (bit_vector)
    ensures
        forall|s: u16, t: u16|
            s < 16 && t < 16 ==> (((#[trigger] ((1u16 << s) >> t)) & 1 == 1) <==> s == t),
{
}

/// Setting bit `s` (counting from the least significant end) leaves every
/// other bit of `raw` unchanged.
pub(crate) proof fn lemma_set_bit(raw: u16, s: u16)
    by (bit_vector)
    requires
        s < 16,
    ensures
        forall|t: u16|
            t < 16 ==> (#[trigger] ((raw | (1u16 << s)) >> t)) & 1 == (if t == s {
                1u16
            } else {
                (raw >> t) & 1
            }),
{
}

/// Two packed values with the same 16 bits are the same value.
pub proof fn lemma_packed_bits_unique(a: u16, b: u16)
    requires
        forall|k: int| 0 <= k < 16 ==> packed_bit(a, k) == packed_bit(b, k),
    ensures
        a == b,
{
    assert(packed_bit(a, 0) == packed_bit(b, 0));
    assert(packed_bit(a, 1) == packed_bit(b, 1));
    assert(packed_bit(a, 2) == packed_bit(b, 2));
    assert(packed_bit(a, 3) == packed_bit(b, 3));
    assert(packed_bit(a, 4) == packed_bit(b, 4));
    assert(packed_bit(a, 5) == packed_bit(b, 5));
    assert(packed_bit(a, 6) == packed_bit(b, 6));
    assert(packed_bit(a, 7) == packed_bit(b, 7));
    assert(packed_bit(a, 8) == packed_bit(b, 8));
    assert(packed_bit(a, 9) == packed_bit(b, 9));
    assert(packed_bit(a, 10) == packed_bit(b, 10));
    assert(packed_bit(a, 11) == packed_bit(b, 11));
    assert(packed_bit(a, 12) == packed_bit(b, 12));
    assert(packed_bit(a, 13) == packed_bit(b, 13));
    assert(packed_bit(a, 14) == packed_bit(b, 14));
    assert(packed_bit(a, 15) == packed_bit(b, 15));
    assert(a == b) by (bit_vector)
        requires
            ((a >> 15u16) & 1 == 1) == ((b >> 15u16) & 1 == 1),
            ((a >> 14u16) & 1 == 1) == ((b >> 14u16) & 1 == 1),
            ((a >> 13u16) & 1 == 1) == ((b >> 13u16) & 1 == 1),
            ((a >> 12u16) & 1 == 1) == ((b >> 12u16) & 1 == 1),
            ((a >> 11u16) & 1 == 1) == ((b >> 11u16) & 1 == 1),
            ((a >> 10u16) & 1 == 1) == ((b >> 10u16) & 1 == 1),
            ((a >> 9u16) & 1 == 1) == ((b >> 9u16) & 1 == 1),
            ((a >> 8u16) & 1 == 1) == ((b >> 8u16) & 1 == 1),
            ((a >> 7u16) & 1 == 1) == ((b >> 7u16) & 1 == 1),
            ((a >> 6u16) & 1 == 1) == ((b >> 6u16) & 1 == 1),
            ((a >> 5u16) & 1 == 1) == ((b >> 5u16) & 1 == 1),
            ((a >> 4u16) & 1 == 1) == ((b >> 4u16) & 1 == 1),
            ((a >> 3u16) & 1 == 1) == ((b >> 3u16) & 1 == 1),
            ((a >> 2u16) & 1 == 1) == ((b >> 2u16) & 1 == 1),
            ((a >> 1u16) & 1 == 1) == ((b >> 1u16) & 1 == 1),
            ((a >> 0u16) & 1 == 1) == ((b >> 0u16) & 1 == 1),
    ;
}

/// Round trip, value first: packing the grid unpacked from `v` gives back
/// exactly `v`, for every 16-bit value.
pub proof fn lemma_pack_of_unpack(v: u16, arr: [[bool; 4]; 4], w: u16)
    requires
        unpacks_to(v, arr),
        packs_to(arr, w),
    ensures
        w == v,
{
    assert forall|k: int| 0 <= k < 16 implies packed_bit(w, k) == packed_bit(v, k) by {
        let row = k / 4;
        let col = k % 4;
        assert(0 <= row < 4 && 0 <= col < 4 && 4 * row + col == k) by (nonlinear_arith)
            requires
                0 <= k < 16 && row == k / 4 && col == k % 4,
        ;
        assert(arr[row][col] == packed_bit(v, 4 * row + col));
    }
    lemma_packed_bits_unique(w, v);
}

/// Round trip, grid first: unpacking the value packed from `arr` gives back
/// exactly `arr`, for every 4x4 boolean grid.
pub proof fn lemma_unpack_of_pack(arr: [[bool; 4]; 4], v: u16, arr2: [[bool; 4]; 4])
    requires
        packs_to(arr, v),
        unpacks_to(v, arr2),
    ensures
        arr2 == arr,
{
    assert forall|row: int, col: int|
        0 <= row < 4 && 0 <= col < 4 implies arr2[row][col] == arr[row][col] by {
        let k = 4 * row + col;
        assert(0 <= k < 16 && k / 4 == row && k % 4 == col) by (nonlinear_arith)
            requires
                0 <= row < 4 && 0 <= col < 4 && k == 4 * row + col,
        ;
        assert(packed_bit(v, k) == arr[k / 4][k % 4]);
    }
    assert forall|row: int| 0 <= row < 4 implies arr2[row] == arr[row] by {
        assert(arr2[row] =~= arr[row]);
    }
    assert(arr2 =~= arr);
}

} // verus!
