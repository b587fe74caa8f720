//! Conversion of a whole text between the layouts.

use vstd::prelude::*;

use crate::case::{MappedChar, restore_case, restore_word_case};
use crate::layout::{
    Direction, is_russian_char, is_russian_marker, map_char, map_key, resolve_direction,
};
use crate::unicode::{
    is_alphabetic, is_lowercase, is_uppercase, lowercase_text, push_char, to_lowercase,
    to_uppercase, unicode_alphabetic, unicode_lowercase, unicode_uppercase, uppercase_mapping,
};

verus! {

/// The first character of `s`, or `d` when `s` is empty.
pub open spec fn first_or(s: Seq<char>, d: char) -> char {
    if s.len() > 0 { s[0] } else { d }
}

/// The character `c` of a text, with what it becomes in `direction` and the
/// Unicode facts about both.
pub open spec fn mapped_char_of(c: char, direction: Direction) -> MappedChar {
    let t = map_char(c, direction);
    MappedChar {
        source: c,
        target: t,
        source_alphabetic: unicode_alphabetic(c),
        target_alphabetic: unicode_alphabetic(t),
        source_uppercase: unicode_uppercase(c),
        source_lowercase: unicode_lowercase(c),
        target_upper: first_or(uppercase_mapping(t), t),
    }
}

/// Every character of `s` carried across the layouts in `direction`.
pub open spec fn mapped_chars(s: Seq<char>, direction: Direction) -> Seq<char> {
    s.map_values(|c: char| map_char(c, direction))
}

/// The text `s` converted: the direction resolved, every character mapped,
/// then either the whole text lowercased, or the case of words in capitals
/// given to letters that came from punctuation keys.
pub open spec fn converted(s: Seq<char>, direction: Direction, lowercase: bool) -> Seq<char> {
    let d = resolve_direction(s, direction);
    if lowercase {
        lowercase_text(mapped_chars(s, d))
    } else {
        restore_case(s.map_values(|c: char| mapped_char_of(c, d)))
    }
}

pub(crate) fn chars_of(input: &str) -> (v: Vec<char>)
    ensures
        v@ == input@,
{
    let mut v: Vec<char> = Vec::new();
    for c in iter: input.chars()
        invariant
            v@ == iter.seq().take(iter.index() as int),
    {
        v.push(c);
    }
    assert(v@ =~= input@);
    v
}

/// The direction that `direction` stands for on the text `chars`.
pub fn resolve(chars: &Vec<char>, direction: Direction) -> (d: Direction)
    ensures
        d == resolve_direction(chars@, direction),
{
    match direction {
        Direction::Auto => {
            let n = chars.len();
            let mut i: usize = 0;
            while i < n
                invariant
                    n == chars@.len(),
                    i <= n,
                    direction == Direction::Auto,
                    forall|j: int| 0 <= j < i ==> !is_russian_marker(#[trigger] chars@[j]),
                decreases n - i,
            {
                if is_russian_char(chars[i]) {
                    assert(is_russian_marker(chars@[i as int]));
                    return Direction::RuToEn;
                }
                i = i + 1;
            }
            Direction::EnToRu
        },
        other => other,
    }
}

fn string_of(v: &Vec<char>) -> (s: String)
    ensures
        s@ == v@,
{
    let mut s = String::new();
    let n = v.len();
    let mut i: usize = 0;
    while i < n
        invariant
            n == v@.len(),
            i <= n,
            s@ == v@.take(i as int),
        decreases n - i,
    {
        push_char(&mut s, v[i]);
        assert(v@.take(i + 1) =~= v@.take(i as int).push(v@[i as int]));
        i = i + 1;
    }
    assert(v@.take(n as int) =~= v@);
    s
}

/// Converts `input`, typed in one layout, to what the same keys give in the
/// other one. `Direction::Auto` converts from Russian when the text holds a
/// Cyrillic letter or `№`, and from English otherwise. With `lowercase` the
/// result is lowercased; without it, letters produced by punctuation keys
/// inside a word written in capitals are uppercased.
pub fn convert(input: &str, direction: Direction, lowercase: bool) -> (out: String)
    ensures
        out@ == converted(input@, direction, lowercase),
{
    let chars = chars_of(input);
    let d = resolve(&chars, direction);
    let n = chars.len();
    if lowercase {
        let mut targets: Vec<char> = Vec::new();
        let mut i: usize = 0;
        while i < n
            invariant
                n == chars@.len(),
                i <= n,
                targets@ == mapped_chars(chars@, d).take(i as int),
            decreases n - i,
        {
            targets.push(map_key(chars[i], d));
            assert(mapped_chars(chars@, d).take(i + 1) =~= mapped_chars(chars@, d).take(
                i as int,
            ).push(map_char(chars@[i as int], d)));
            i = i + 1;
        }
        assert(mapped_chars(chars@, d).take(n as int) =~= mapped_chars(chars@, d));
        let joined = string_of(&targets);
        return to_lowercase(joined.as_str());
    }
    let ghost spec_mapped = chars@.map_values(|c: char| mapped_char_of(c, d));
    let mut mapped: Vec<MappedChar> = Vec::new();
    let mut i: usize = 0;
    while i < n
        invariant
            n == chars@.len(),
            i <= n,
            spec_mapped == chars@.map_values(|c: char| mapped_char_of(c, d)),
            mapped@.len() == i,
            forall|k: int| 0 <= k < i ==> #[trigger] mapped@[k] == spec_mapped[k],
        decreases n - i,
    {
        let c = chars[i];
        let t = map_key(c, d);
        let upper = to_uppercase(t);
        let target_upper = if upper.len() > 0 { upper[0] } else { t };
        let source_alphabetic = is_alphabetic(c);
        let target_alphabetic = is_alphabetic(t);
        let source_uppercase = is_uppercase(c);
        let source_lowercase = is_lowercase(c);
        let m = MappedChar {
            source: c,
            target: t,
            source_alphabetic,
            target_alphabetic,
            source_uppercase,
            source_lowercase,
            target_upper,
        };
        assert(m == mapped_char_of(chars@[i as int], d));
        mapped.push(m);
        assert(mapped@[i as int] == spec_mapped[i as int]);
        i = i + 1;
    }
    assert(mapped@ =~= spec_mapped);
    let restored = restore_word_case(&mapped);
    string_of(&restored)
}

} // verus!
