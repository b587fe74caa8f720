//! The physical key correspondence between the two layouts.

use vstd::prelude::*;

verus! {

/// Which way a text is carried across the layouts.
#[derive(Clone, Copy, Debug, PartialEq, Eq, Structural)]
pub enum Direction {
    /// Pick the direction from the text itself.
    Auto,
    /// Text typed on the English layout that was meant as Russian.
    EnToRu,
    /// Text typed on the Russian layout that was meant as English.
    RuToEn,
}

/// Unshifted keys of the English layout, row by row.
pub open spec fn en_lower() -> Seq<char> {
    seq!['`', 'q', 'w', 'e', 'r', 't', 'y', 'u', 'i', 'o', 'p', '[', ']',
         'a', 's', 'd', 'f', 'g', 'h', 'j', 'k', 'l', ';', '\'',
         'z', 'x', 'c', 'v', 'b', 'n', 'm', ',', '.', '/']
}

/// Shifted letter and punctuation keys of the English layout.
pub open spec fn en_upper() -> Seq<char> {
    seq!['~', 'Q', 'W', 'E', 'R', 'T', 'Y', 'U', 'I', 'O', 'P', '{', '}',
         'A', 'S', 'D', 'F', 'G', 'H', 'J', 'K', 'L', ':', '"',
         'Z', 'X', 'C', 'V', 'B', 'N', 'M', '<', '>', '?']
}

/// Shifted digit-row keys of the English layout.
pub open spec fn en_shift() -> Seq<char> {
    seq!['!', '@', '#', '$', '%', '^', '&', '*', '(', ')', '_', '+']
}

/// Unshifted keys of the Russian layout, on the same physical keys as `en_lower`.
pub open spec fn ru_lower() -> Seq<char> {
    seq!['ё', 'й', 'ц', 'у', 'к', 'е', 'н', 'г', 'ш', 'щ', 'з', 'х', 'ъ',
         'ф', 'ы', 'в', 'а', 'п', 'р', 'о', 'л', 'д', 'ж', 'э',
         'я', 'ч', 'с', 'м', 'и', 'т', 'ь', 'б', 'ю', '.']
}

/// Shifted keys of the Russian layout, on the same physical keys as `en_upper`.
pub open spec fn ru_upper() -> Seq<char> {
    seq!['Ё', 'Й', 'Ц', 'У', 'К', 'Е', 'Н', 'Г', 'Ш', 'Щ', 'З', 'Х', 'Ъ',
         'Ф', 'Ы', 'В', 'А', 'П', 'Р', 'О', 'Л', 'Д', 'Ж', 'Э',
         'Я', 'Ч', 'С', 'М', 'И', 'Т', 'Ь', 'Б', 'Ю', ',']
}

/// Shifted digit-row keys of the Russian layout, on the same keys as `en_shift`.
pub open spec fn ru_shift() -> Seq<char> {
    seq!['!', '"', '№', ';', '%', ':', '?', '*', '(', ')', '_', '+']
}

pub(crate) fn en_lower_keys() -> (r: [char; 34])
    ensures
        r@ == en_lower(),
{
    let r = ['`', 'q', 'w', 'e', 'r', 't', 'y', 'u', 'i', 'o', 'p', '[', ']', 'a', 's', 'd', 'f', 'g', 'h', 'j', 'k', 'l', ';', '\'', 'z', 'x', 'c', 'v', 'b', 'n', 'm', ',', '.', '/'];
    assert(r@ =~= en_lower());
    r
}

pub(crate) fn en_upper_keys() -> (r: [char; 34])
    ensures
        r@ == en_upper(),
{
    let r = ['~', 'Q', 'W', 'E', 'R', 'T', 'Y', 'U', 'I', 'O', 'P', '{', '}', 'A', 'S', 'D', 'F', 'G', 'H', 'J', 'K', 'L', ':', '"', 'Z', 'X', 'C', 'V', 'B', 'N', 'M', '<', '>', '?'];
    assert(r@ =~= en_upper());
    r
}

pub(crate) fn en_shift_keys() -> (r: [char; 12])
    ensures
        r@ == en_shift(),
{
    let r = ['!', '@', '#', '$', '%', '^', '&', '*', '(', ')', '_', '+'];
    assert(r@ =~= en_shift());
    r
}

pub(crate) fn ru_lower_keys() -> (r: [char; 34])
    ensures
        r@ == ru_lower(),
{
    let r = ['ё', 'й', 'ц', 'у', 'к', 'е', 'н', 'г', 'ш', 'щ', 'з', 'х', 'ъ', 'ф', 'ы', 'в', 'а', 'п', 'р', 'о', 'л', 'д', 'ж', 'э', 'я', 'ч', 'с', 'м', 'и', 'т', 'ь', 'б', 'ю', '.'];
    assert(r@ =~= ru_lower());
    r
}

pub(crate) fn ru_upper_keys() -> (r: [char; 34])
    ensures
        r@ == ru_upper(),
{
    let r = ['Ё', 'Й', 'Ц', 'У', 'К', 'Е', 'Н', 'Г', 'Ш', 'Щ', 'З', 'Х', 'Ъ', 'Ф', 'Ы', 'В', 'А', 'П', 'Р', 'О', 'Л', 'Д', 'Ж', 'Э', 'Я', 'Ч', 'С', 'М', 'И', 'Т', 'Ь', 'Б', 'Ю', ','];
    assert(r@ =~= ru_upper());
    r
}

pub(crate) fn ru_shift_keys() -> (r: [char; 12])
    ensures
        r@ == ru_shift(),
{
    let r = ['!', '"', '№', ';', '%', ':', '?', '*', '(', ')', '_', '+'];
    assert(r@ =~= ru_shift());
    r
}

/// What the key that types `c` in the row `from` types in the row `to`:
/// the character of `to` at the first position where `c` stands in `from`.
pub open spec fn row_lookup(from: Seq<char>, to: Seq<char>, c: char) -> Option<char> {
    match from.index_of_first(c) {
        Some(i) => if i < to.len() { Some(to[i]) } else { None },
        None => None,
    }
}

/// The character that the same physical key gives in the other layout, if
/// `c` is on a key of the source layout: the rows are tried in the order
/// unshifted, shifted, shifted digit row.
pub open spec fn key_lookup(c: char, direction: Direction) -> Option<char> {
    let (a, b, d) = match direction {
        Direction::EnToRu => (
            row_lookup(en_lower(), ru_lower(), c),
            row_lookup(en_upper(), ru_upper(), c),
            row_lookup(en_shift(), ru_shift(), c),
        ),
        Direction::RuToEn => (
            row_lookup(ru_lower(), en_lower(), c),
            row_lookup(ru_upper(), en_upper(), c),
            row_lookup(ru_shift(), en_shift(), c),
        ),
        Direction::Auto => (None, None, None),
    };
    if a is Some { a } else if b is Some { b } else { d }
}

/// `c` carried across the layouts; a character on no key of the source
/// layout stays as it is.
pub open spec fn map_char(c: char, direction: Direction) -> char {
    match key_lookup(c, direction) {
        Some(t) => t,
        None => c,
    }
}

/// A character that only the Russian layout types: a Cyrillic letter of
/// the block U+0400..U+04FF, or the numero sign.
pub open spec fn is_russian_marker(c: char) -> bool {
    ('\u{0400}' <= c && c <= '\u{04ff}') || c == '№'
}

/// The direction that `Auto` stands for on the text `s`: Russian to English
/// when `s` holds a Russian marker, English to Russian otherwise.
pub open spec fn resolve_direction(s: Seq<char>, direction: Direction) -> Direction {
    match direction {
        Direction::Auto => if exists|i: int| 0 <= i < s.len() && is_russian_marker(#[trigger] s[i]) {
            Direction::RuToEn
        } else {
            Direction::EnToRu
        },
        other => other,
    }
}

fn row_lookup_exec(from: &[char], to: &[char], c: char) -> (r: Option<char>)
    ensures
        r == row_lookup(from@, to@, c),
{
    proof {
        from@.index_of_first_ensures(c);
    }
    let n = from.len();
    let mut i: usize = 0;
    while i < n
        invariant
            n == from@.len(),
            i <= n,
            forall|j: int| 0 <= j < i ==> from@[j] != c,
        decreases n - i,
    {
        if from[i] == c {
            assert(from@.contains(c));
            proof {
                from@.index_of_first_ensures(c);
                let k = from@.index_of_first(c)->0;
                assert(from@[k] == c);
                assert(from@[i as int] == c);
                assert(k == i);
            }
            return if i < to.len() { Some(to[i]) } else { None };
        }
        i = i + 1;
    }
    assert(!from@.contains(c));
    None
}

/// Returns `Some` of the character that the key typing `c` gives in the
/// other layout, or `None` where `c` is on no key of the source layout.
pub fn lookup_key(c: char, direction: Direction) -> (r: Option<char>)
    ensures
        r == key_lookup(c, direction),
{
    match direction {
        Direction::EnToRu => {
            let a = row_lookup_exec(&en_lower_keys(), &ru_lower_keys(), c);
            if a.is_some() {
                return a;
            }
            let b = row_lookup_exec(&en_upper_keys(), &ru_upper_keys(), c);
            if b.is_some() {
                return b;
            }
            row_lookup_exec(&en_shift_keys(), &ru_shift_keys(), c)
        },
        Direction::RuToEn => {
            let a = row_lookup_exec(&ru_lower_keys(), &en_lower_keys(), c);
            if a.is_some() {
                return a;
            }
            let b = row_lookup_exec(&ru_upper_keys(), &en_upper_keys(), c);
            if b.is_some() {
                return b;
            }
            row_lookup_exec(&ru_shift_keys(), &en_shift_keys(), c)
        },
        Direction::Auto => None,
    }
}

/// `c` carried across the layouts in the given direction.
pub fn map_key(c: char, direction: Direction) -> (r: char)
    ensures
        r == map_char(c, direction),
{
    match lookup_key(c, direction) {
        Some(t) => t,
        None => c,
    }
}

/// Whether `c` is a character that only the Russian layout types.
pub fn is_russian_char(c: char) -> (r: bool)
    ensures
        r == is_russian_marker(c),
{
    ('\u{0400}' <= c && c <= '\u{04ff}') || c == '№'
}

} // verus!
