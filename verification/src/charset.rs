//! The character set: the fixed, ordered list of 68 supported characters
//! (digits, lowercase letters, space, and a fixed set of punctuation), and
//! the case-insensitive mapping from a character to its slot in that order.

use vstd::prelude::*;

verus! {

/// The number of characters in the character set.
pub const LENGTH: usize = 68;

/// ASCII case folding: uppercase letters map to their lowercase form;
/// every other character is left unchanged.
pub open spec fn fold_char(c: char) -> char {
    match c {
        'A' => 'a',
        'B' => 'b',
        'C' => 'c',
        'D' => 'd',
        'E' => 'e',
        'F' => 'f',
        'G' => 'g',
        'H' => 'h',
        'I' => 'i',
        'J' => 'j',
        'K' => 'k',
        'L' => 'l',
        'M' => 'm',
        'N' => 'n',
        'O' => 'o',
        'P' => 'p',
        'Q' => 'q',
        'R' => 'r',
        'S' => 's',
        'T' => 't',
        'U' => 'u',
        'V' => 'v',
        'W' => 'w',
        'X' => 'x',
        'Y' => 'y',
        'Z' => 'z',
        _ => c,
    }
}

/// The slot of an already-folded character in the character set, or `None`
/// if the character set does not contain it. The order of the character set
/// is part of the font format and is fixed.
pub open spec fn slot_of(c: char) -> Option<usize> {
    match c {
        '0' => Some(0usize),
        '1' => Some(1usize),
        '2' => Some(2usize),
        '3' => Some(3usize),
        '4' => Some(4usize),
        '5' => Some(5usize),
        '6' => Some(6usize),
        '7' => Some(7usize),
        '8' => Some(8usize),
        '9' => Some(9usize),
        'a' => Some(10usize),
        'b' => Some(11usize),
        'c' => Some(12usize),
        'd' => Some(13usize),
        'e' => Some(14usize),
        'f' => Some(15usize),
        'g' => Some(16usize),
        'h' => Some(17usize),
        'i' => Some(18usize),
        'j' => Some(19usize),
        'k' => Some(20usize),
        'l' => Some(21usize),
        'm' => Some(22usize),
        'n' => Some(23usize),
        'o' => Some(24usize),
        'p' => Some(25usize),
        'q' => Some(26usize),
        'r' => Some(27usize),
        's' => Some(28usize),
        't' => Some(29usize),
        'u' => Some(30usize),
        'v' => Some(31usize),
        'w' => Some(32usize),
        'x' => Some(33usize),
        'y' => Some(34usize),
        'z' => Some(35usize),
        ' ' => Some(36usize),
        '~' => Some(37usize),
        '`' => Some(38usize),
        '!' => Some(39usize),
        '@' => Some(40usize),
        '#' => Some(41usize),
        '%' => Some(42usize),
        '^' => Some(43usize),
        '&' => Some(44usize),
        '*' => Some(45usize),
        '_' => Some(46usize),
        '=' => Some(47usize),
        '+' => Some(48usize),
        '-' => Some(49usize),
        '(' => Some(50usize),
        ')' => Some(51usize),
        '{' => Some(52usize),
        '}' => Some(53usize),
        '[' => Some(54usize),
        ']' => Some(55usize),
        '|' => Some(56usize),
        '\\' => Some(57usize),
        ':' => Some(58usize),
        ';' => Some(59usize),
        '"' => Some(60usize),
        '\'' => Some(61usize),
        '<' => Some(62usize),
        '>' => Some(63usize),
        '?' => Some(64usize),
        '/' => Some(65usize),
        ',' => Some(66usize),
        '.' => Some(67usize),
        _ => None,
    }
}

/// The slot of a character in the character set after case folding, or
/// `None` if the character set does not contain it.
pub open spec fn index_spec(c: char) -> Option<usize> {
    slot_of(fold_char(c))
}

/// The character occupying slot `i` of the character set.
pub open spec fn char_at(i: int) -> char {
    if i == 0 {
        '0'
    } else if i == 1 {
        '1'
    } else if i == 2 {
        '2'
    } else if i == 3 {
        '3'
    } else if i == 4 {
        '4'
    } else if i == 5 {
        '5'
    } else if i == 6 {
        '6'
    } else if i == 7 {
        '7'
    } else if i == 8 {
        '8'
    } else if i == 9 {
        '9'
    } else if i == 10 {
        'a'
    } else if i == 11 {
        'b'
    } else if i == 12 {
        'c'
    } else if i == 13 {
        'd'
    } else if i == 14 {
        'e'
    } else if i == 15 {
        'f'
    } else if i == 16 {
        'g'
    } else if i == 17 {
        'h'
    } else if i == 18 {
        'i'
    } else if i == 19 {
        'j'
    } else if i == 20 {
        'k'
    } else if i == 21 {
        'l'
    } else if i == 22 {
        'm'
    } else if i == 23 {
        'n'
    } else if i == 24 {
        'o'
    } else if i == 25 {
        'p'
    } else if i == 26 {
        'q'
    } else if i == 27 {
        'r'
    } else if i == 28 {
        's'
    } else if i == 29 {
        't'
    } else if i == 30 {
        'u'
    } else if i == 31 {
        'v'
    } else if i == 32 {
        'w'
    } else if i == 33 {
        'x'
    } else if i == 34 {
        'y'
    } else if i == 35 {
        'z'
    } else if i == 36 {
        ' '
    } else if i == 37 {
        '~'
    } else if i == 38 {
        '`'
    } else if i == 39 {
        '!'
    } else if i == 40 {
        '@'
    } else if i == 41 {
        '#'
    } else if i == 42 {
        '%'
    } else if i == 43 {
        '^'
    } else if i == 44 {
        '&'
    } else if i == 45 {
        '*'
    } else if i == 46 {
        '_'
    } else if i == 47 {
        '='
    } else if i == 48 {
        '+'
    } else if i == 49 {
        '-'
    } else if i == 50 {
        '('
    } else if i == 51 {
        ')'
    } else if i == 52 {
        '{'
    } else if i == 53 {
        '}'
    } else if i == 54 {
        '['
    } else if i == 55 {
        ']'
    } else if i == 56 {
        '|'
    } else if i == 57 {
        '\\'
    } else if i == 58 {
        ':'
    } else if i == 59 {
        ';'
    } else if i == 60 {
        '"'
    } else if i == 61 {
        '\''
    } else if i == 62 {
        '<'
    } else if i == 63 {
        '>'
    } else if i == 64 {
        '?'
    } else if i == 65 {
        '/'
    } else if i == 66 {
        ','
    } else {
        '.'
    }
}

/// The character set as a sequence, in slot order.
pub open spec fn char_set() -> Seq<char> {
    Seq::new(LENGTH as nat, |i: int| char_at(i))
}

/// ASCII case folding, executable form.
fn fold(c: char) -> (r: char)
    ensures
        r == fold_char(c),
{
    match c {
        'A' => 'a',
        'B' => 'b',
        'C' => 'c',
        'D' => 'd',
        'E' => 'e',
        'F' => 'f',
        'G' => 'g',
        'H' => 'h',
        'I' => 'i',
        'J' => 'j',
        'K' => 'k',
        'L' => 'l',
        'M' => 'm',
        'N' => 'n',
        'O' => 'o',
        'P' => 'p',
        'Q' => 'q',
        'R' => 'r',
        'S' => 's',
        'T' => 't',
        'U' => 'u',
        'V' => 'v',
        'W' => 'w',
        'X' => 'x',
        'Y' => 'y',
        'Z' => 'z',
        _ => c,
    }
}

/// The slot of a character in every font table, after ASCII case folding
/// (the fonts carry a single glyph per letter, shared by both cases), or
/// `None` if the character set does not support the character.
#[verifier::rlimit(30)]
pub fn index(c: char) -> (r: Option<usize>)
    ensures
        r == index_spec(c),
{
    let lc = fold(c);
    match lc {
        '0' => Some(0),
        '1' => Some(1),
        '2' => Some(2),
        '3' => Some(3),
        '4' => Some(4),
        '5' => Some(5),
        '6' => Some(6),
        '7' => Some(7),
        '8' => Some(8),
        '9' => Some(9),
        'a' => Some(10),
        'b' => Some(11),
        'c' => Some(12),
        'd' => Some(13),
        'e' => Some(14),
        'f' => Some(15),
        'g' => Some(16),
        'h' => Some(17),
        'i' => Some(18),
        'j' => Some(19),
        'k' => Some(20),
        'l' => Some(21),
        'm' => Some(22),
        'n' => Some(23),
        'o' => Some(24),
        'p' => Some(25),
        'q' => Some(26),
        'r' => Some(27),
        's' => Some(28),
        't' => Some(29),
        'u' => Some(30),
        'v' => Some(31),
        'w' => Some(32),
        'x' => Some(33),
        'y' => Some(34),
        'z' => Some(35),
        ' ' => Some(36),
        '~' => Some(37),
        '`' => Some(38),
        '!' => Some(39),
        '@' => Some(40),
        '#' => Some(41),
        '%' => Some(42),
        '^' => Some(43),
        '&' => Some(44),
        '*' => Some(45),
        '_' => Some(46),
        '=' => Some(47),
        '+' => Some(48),
        '-' => Some(49),
        '(' => Some(50),
        ')' => Some(51),
        '{' => Some(52),
        '}' => Some(53),
        '[' => Some(54),
        ']' => Some(55),
        '|' => Some(56),
        '\\' => Some(57),
        ':' => Some(58),
        ';' => Some(59),
        '"' => Some(60),
        '\'' => Some(61),
        '<' => Some(62),
        '>' => Some(63),
        '?' => Some(64),
        '/' => Some(65),
        ',' => Some(66),
        '.' => Some(67),
        _ => None,
    }
}

/// Case folding is idempotent: folding an already folded character
/// changes nothing.
pub proof fn lemma_fold_idempotent(c: char)
    ensures
        fold_char(fold_char(c)) == fold_char(c),
{
}

/// The index is insensitive to case: a character and its folded form map
/// to the same slot. In particular an uppercase letter shares its slot
/// with its lowercase form.
pub proof fn lemma_index_case_insensitive(c: char)
    ensures
        index_spec(fold_char(c)) == index_spec(c),
{
    lemma_fold_idempotent(c);
}

/// Every member of the character set maps to its own slot: the index is
/// a bijection from the character set onto the slots `0` to `67`.
#[verifier::rlimit(50)]
pub proof fn lemma_index_of_member(i: int)
    requires
        0 <= i < 68,
    ensures
        index_spec(char_at(i)) == Some(i as usize),
{
}

/// A character with a slot is, after folding, the character-set member
/// occupying that slot; a character that folds to no member has none.
#[verifier::rlimit(50)]
pub proof fn lemma_index_in_set(c: char)
    ensures
        index_spec(c) matches Some(i) ==> 0 <= i < 68 && char_at(i as int) == fold_char(c),
{
}

} // verus!
