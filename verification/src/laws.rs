//! Properties of the conversion, proved for every input.
//!
//! Some of them also depend on what std's Unicode functions give, which this
//! crate names but does not restate; those take the needed fact as a named
//! hypothesis:
//! - the round trips of whole texts need `unshifted_keys_not_uppercase`, and
//!   splitting at a space needs a space not to be alphabetic; both facts are
//!   tested through std by `text_round_trips_hold` and `space_splits_conversion`;
//! - the law of the lowercase flag (`lemma_lowercase_flag`) and the lowercase
//!   case of splitting at a space rest on `lowercasing_ignores_key_uppercase`
//!   and `lowercasing_splits_at_space`, facts about `str::to_lowercase` on all
//!   texts that are neither proved nor tested here. What does not depend on
//!   std, that the case rule only uppercases characters on keys, is proved
//!   without them (`lemma_case_rule_only_uppercases_keys`).

use vstd::prelude::*;

use crate::cli::{Command, Hotkey, command_for};
use crate::case::{MappedChar, caps_word, in_word, restore_case, restored_char, same_word};
use crate::convert::{converted, first_or, mapped_char_of, mapped_chars};
use crate::layout::{
    Direction, en_lower, en_lower_keys, en_shift, en_shift_keys, en_upper, is_russian_marker,
    key_lookup, map_char, resolve_direction, row_lookup, ru_lower, ru_lower_keys, ru_shift,
    ru_shift_keys, ru_upper,
};
use crate::unicode::{
    is_alphabetic, is_uppercase, lowercase_text, unicode_alphabetic, unicode_lowercase,
    unicode_uppercase,
    uppercase_mapping,
};
use crate::typing::{KeyEvent, normalized_breaks, typing_events_for};
use crate::utf16::{lemma_decode_encode, utf16_decode, utf16_encode};

verus! {

proof fn lemma_row_lookup_at(from: Seq<char>, to: Seq<char>, i: int)
    requires
        0 <= i < from.len(),
        from.len() == to.len(),
        forall|j: int| 0 <= j < i ==> from[j] != from[i],
    ensures
        row_lookup(from, to, from[i]) == Some(to[i]),
{
    from.index_of_first_ensures(from[i]);
    let k = from.index_of_first(from[i])->0;
    assert(k == i);
}

proof fn lemma_row_lookup_absent(from: Seq<char>, to: Seq<char>, c: char)
    requires
        forall|j: int| 0 <= j < from.len() ==> from[j] != c,
    ensures
        row_lookup(from, to, c) is None,
{
    from.index_of_first_ensures(c);
}

proof fn lemma_rows_distinct()
    ensures
        forall|i: int, j: int| 0 <= j < i < 34 ==> en_lower()[j] != en_lower()[i],
        forall|i: int, j: int| 0 <= j < i < 34 ==> en_upper()[j] != en_upper()[i],
        forall|i: int, j: int| 0 <= j < i < 12 ==> en_shift()[j] != en_shift()[i],
        forall|i: int, j: int| 0 <= j < i < 34 ==> ru_lower()[j] != ru_lower()[i],
        forall|i: int, j: int| 0 <= j < i < 34 ==> ru_upper()[j] != ru_upper()[i],
        forall|i: int, j: int| 0 <= j < i < 12 ==> ru_shift()[j] != ru_shift()[i],
        forall|i: int, j: int| 0 <= i < 34 && 0 <= j < 34 ==> en_lower()[j] != en_upper()[i],
        forall|i: int, j: int| 0 <= i < 12 && 0 <= j < 34 ==> en_lower()[j] != en_shift()[i],
        forall|i: int, j: int| 0 <= i < 12 && 0 <= j < 34 ==> en_upper()[j] != en_shift()[i],
        forall|i: int, j: int| 0 <= i < 34 && 0 <= j < 34 ==> ru_lower()[j] != ru_upper()[i],
        forall|i: int, j: int| 0 <= i < 12 && 0 <= j < 34 ==> ru_lower()[j] != ru_shift()[i],
        forall|i: int, j: int| 0 <= i < 12 && 0 <= j < 34 ==> ru_upper()[j] != ru_shift()[i],
{
}

/// Each key of the three rows types, in the English and in the Russian
/// layout, the characters at the same position of the two rows: the
/// conversion carries each character of a row to its partner in the other
/// layout, in both directions.
pub proof fn lemma_same_key(i: int)
    requires
        0 <= i < 34,
    ensures
        map_char(en_lower()[i], Direction::EnToRu) == ru_lower()[i],
        map_char(ru_lower()[i], Direction::RuToEn) == en_lower()[i],
        map_char(en_upper()[i], Direction::EnToRu) == ru_upper()[i],
        map_char(ru_upper()[i], Direction::RuToEn) == en_upper()[i],
        i < 12 ==> map_char(en_shift()[i], Direction::EnToRu) == ru_shift()[i],
        i < 12 ==> map_char(ru_shift()[i], Direction::RuToEn) == en_shift()[i],
{
    lemma_rows_distinct();
    lemma_row_lookup_at(en_lower(), ru_lower(), i);
    lemma_row_lookup_at(ru_lower(), en_lower(), i);
    lemma_row_lookup_at(en_upper(), ru_upper(), i);
    lemma_row_lookup_at(ru_upper(), en_upper(), i);
    lemma_row_lookup_absent(en_lower(), ru_lower(), en_upper()[i]);
    lemma_row_lookup_absent(ru_lower(), en_lower(), ru_upper()[i]);
    if i < 12 {
        lemma_row_lookup_at(en_shift(), ru_shift(), i);
        lemma_row_lookup_at(ru_shift(), en_shift(), i);
        lemma_row_lookup_absent(en_lower(), ru_lower(), en_shift()[i]);
        lemma_row_lookup_absent(en_upper(), ru_upper(), en_shift()[i]);
        lemma_row_lookup_absent(ru_lower(), en_lower(), ru_shift()[i]);
        lemma_row_lookup_absent(ru_upper(), en_upper(), ru_shift()[i]);
    }
}

/// A character on a key of the English layout, carried to Russian and back,
/// is the character itself.
pub proof fn lemma_round_trip_from_english(c: char)
    requires
        en_lower().contains(c) || en_upper().contains(c) || en_shift().contains(c),
    ensures
        map_char(map_char(c, Direction::EnToRu), Direction::RuToEn) == c,
{
    if en_lower().contains(c) {
        let i = choose|i: int| 0 <= i < en_lower().len() && en_lower()[i] == c;
        lemma_same_key(i);
    } else if en_upper().contains(c) {
        let i = choose|i: int| 0 <= i < en_upper().len() && en_upper()[i] == c;
        lemma_same_key(i);
    } else {
        let i = choose|i: int| 0 <= i < en_shift().len() && en_shift()[i] == c;
        lemma_same_key(i);
    }
}

/// A character on a key of the Russian layout, carried to English and back,
/// is the character itself.
pub proof fn lemma_round_trip_from_russian(c: char)
    requires
        ru_lower().contains(c) || ru_upper().contains(c) || ru_shift().contains(c),
    ensures
        map_char(map_char(c, Direction::RuToEn), Direction::EnToRu) == c,
{
    if ru_lower().contains(c) {
        let i = choose|i: int| 0 <= i < ru_lower().len() && ru_lower()[i] == c;
        lemma_same_key(i);
    } else if ru_upper().contains(c) {
        let i = choose|i: int| 0 <= i < ru_upper().len() && ru_upper()[i] == c;
        lemma_same_key(i);
    } else {
        let i = choose|i: int| 0 <= i < ru_shift().len() && ru_shift()[i] == c;
        lemma_same_key(i);
    }
}

/// `Auto` converts a text exactly as the direction it resolves to does, and
/// resolves to Russian-to-English exactly when the text holds a Cyrillic
/// letter or `№`.
pub proof fn lemma_auto_is_resolved(s: Seq<char>, lowercase: bool)
    ensures
        converted(s, Direction::Auto, lowercase) == converted(
            s,
            resolve_direction(s, Direction::Auto),
            lowercase,
        ),
        resolve_direction(s, Direction::Auto) == Direction::RuToEn <==> exists|i: int|
            0 <= i < s.len() && is_russian_marker(#[trigger] s[i]),
        resolve_direction(s, Direction::Auto) != Direction::Auto,
{
}

/// Without lowercasing, the conversion keeps the text's length; each output
/// character is the mapped input character at that position, or the
/// uppercase of it where a punctuation key typed a letter; a character on no
/// key of the source layout, and one that is a letter, comes out as mapped.
pub proof fn lemma_case_preserving_shape(s: Seq<char>, direction: Direction, i: int)
    requires
        0 <= i < s.len(),
    ensures
        converted(s, direction, false).len() == s.len(),
        ({
            let d = resolve_direction(s, direction);
            let m = mapped_char_of(s[i], d);
            let out = converted(s, direction, false)[i];
            &&& out == map_char(s[i], d) || out == m.target_upper
            &&& key_lookup(s[i], d) is None ==> out == s[i]
            &&& m.source_alphabetic ==> out == map_char(s[i], d)
            &&& !m.target_alphabetic ==> out == map_char(s[i], d)
        }),
{
    let d = resolve_direction(s, direction);
    let ms = s.map_values(|c: char| mapped_char_of(c, d));
    assert(ms[i] == mapped_char_of(s[i], d));
    assert(restore_case(ms)[i] == restored_char(ms, i));
}

/// Normalized text holds no carriage return.
pub proof fn lemma_normalized_has_no_cr(s: Seq<char>)
    ensures
        forall|i: int|
            0 <= i < normalized_breaks(s).len() ==> #[trigger] normalized_breaks(s)[i] != '\r',
    decreases s.len(),
{
    if s.len() > 0 {
        let rest = if s[0] == '\r' && s.len() >= 2 && s[1] == '\n' {
            s.skip(2)
        } else {
            s.skip(1)
        };
        lemma_normalized_has_no_cr(rest);
        let n = normalized_breaks(s);
        assert(n == seq![n[0]] + normalized_breaks(rest));
        assert(n[0] != '\r');
        assert forall|i: int| 0 <= i < n.len() implies #[trigger] n[i] != '\r' by {
            if i > 0 {
                assert(n[i] == normalized_breaks(rest)[i - 1]);
            }
        }
    }
}

proof fn lemma_normalize_without_cr(t: Seq<char>)
    requires
        forall|i: int| 0 <= i < t.len() ==> #[trigger] t[i] != '\r',
    ensures
        normalized_breaks(t) == t,
    decreases t.len(),
{
    if t.len() > 0 {
        assert(t[0] != '\r');
        let rest = t.skip(1);
        assert forall|i: int| 0 <= i < rest.len() implies #[trigger] rest[i] != '\r' by {
            assert(rest[i] == t[i + 1]);
        }
        lemma_normalize_without_cr(rest);
        assert(seq![t[0]] + rest =~= t);
    }
}

/// Normalizing line breaks twice is normalizing them once.
pub proof fn lemma_normalize_idempotent(s: Seq<char>)
    ensures
        normalized_breaks(normalized_breaks(s)) == normalized_breaks(s),
{
    lemma_normalized_has_no_cr(s);
    lemma_normalize_without_cr(normalized_breaks(s));
}

/// The code units of the key presses, in order.
pub open spec fn pressed_units(events: Seq<KeyEvent>) -> Seq<u16> {
    Seq::new(events.len() / 2, |k: int| events[2 * k].unit)
}

/// The keystrokes that type a text press each key once and release it right
/// after, and the units pressed decode, as UTF-16, to the text with its line
/// breaks normalized: what is typed is the text itself.
pub proof fn lemma_typed_text(s: Seq<char>)
    ensures
        typing_events_for(s).len() % 2 == 0,
        forall|k: int|
            0 <= k < typing_events_for(s).len() ==> (#[trigger] typing_events_for(s)[k]).key_up
                == (k % 2 == 1),
        forall|k: int|
            0 <= k < typing_events_for(s).len() / 2 ==> typing_events_for(s)[2 * k + 1].unit
                == #[trigger] typing_events_for(s)[2 * k].unit,
        utf16_decode(pressed_units(typing_events_for(s))) == Some(normalized_breaks(s)),
{
    let units = utf16_encode(normalized_breaks(s));
    let ev = typing_events_for(s);
    assert forall|k: int| 0 <= k < ev.len() / 2 implies ev[2 * k + 1].unit == #[trigger] ev[2
        * k].unit by {
        assert((2 * k + 1) / 2 == k);
        assert((2 * k) / 2 == k);
    }
    assert(pressed_units(ev) =~= units) by {
        assert forall|k: int| 0 <= k < units.len() implies pressed_units(ev)[k] == units[k] by {
            assert((2 * k) / 2 == k);
        }
    }
    lemma_decode_encode(normalized_breaks(s));
}

/// `c` is on some key of one of the two layouts.
pub open spec fn on_some_key(c: char) -> bool {
    ||| en_lower().contains(c)
    ||| en_upper().contains(c)
    ||| en_shift().contains(c)
    ||| ru_lower().contains(c)
    ||| ru_upper().contains(c)
    ||| ru_shift().contains(c)
}

proof fn lemma_absent_from(row: Seq<char>, c: char)
    requires
        !row.contains(c),
    ensures
        forall|j: int| 0 <= j < row.len() ==> row[j] != c,
{
    assert forall|j: int| 0 <= j < row.len() implies row[j] != c by {
        if row[j] == c {
            assert(row.contains(c));
        }
    }
}

/// A character on no key is carried across the layouts as itself.
proof fn lemma_off_keys_unchanged(c: char, d: Direction)
    requires
        !on_some_key(c),
    ensures
        key_lookup(c, d) is None,
        map_char(c, d) == c,
{
    lemma_absent_from(en_lower(), c);
    lemma_absent_from(en_upper(), c);
    lemma_absent_from(en_shift(), c);
    lemma_absent_from(ru_lower(), c);
    lemma_absent_from(ru_upper(), c);
    lemma_absent_from(ru_shift(), c);
    lemma_row_lookup_absent(en_lower(), ru_lower(), c);
    lemma_row_lookup_absent(en_upper(), ru_upper(), c);
    lemma_row_lookup_absent(en_shift(), ru_shift(), c);
    lemma_row_lookup_absent(ru_lower(), en_lower(), c);
    lemma_row_lookup_absent(ru_upper(), en_upper(), c);
    lemma_row_lookup_absent(ru_shift(), en_shift(), c);
}

proof fn lemma_row_lookup_in_row(from: Seq<char>, to: Seq<char>, c: char)
    ensures
        row_lookup(from, to, c) matches Some(t) ==> to.contains(t),
{
    if let Some(i) = from.index_of_first(c) {
        if i < to.len() {
            from.index_of_first_ensures(c);
            assert(to[i] == to[i]);
        }
    }
}

/// What a key gives in the other layout is on a key of that layout.
proof fn lemma_lookup_lands_on_key(c: char, d: Direction)
    ensures
        key_lookup(c, d) matches Some(t) ==> on_some_key(t),
{
    lemma_row_lookup_in_row(en_lower(), ru_lower(), c);
    lemma_row_lookup_in_row(en_upper(), ru_upper(), c);
    lemma_row_lookup_in_row(en_shift(), ru_shift(), c);
    lemma_row_lookup_in_row(ru_lower(), en_lower(), c);
    lemma_row_lookup_in_row(ru_upper(), en_upper(), c);
    lemma_row_lookup_in_row(ru_shift(), en_shift(), c);
}

/// With no uppercase typed character, no word is in capitals and the
/// output is the mapped text.
proof fn lemma_restore_without_uppercase(ms: Seq<MappedChar>)
    requires
        forall|j: int| 0 <= j < ms.len() ==> !(#[trigger] ms[j]).source_uppercase,
    ensures
        restore_case(ms) == ms.map_values(|m: MappedChar| m.target),
{
    assert forall|k: int| 0 <= k < ms.len() implies restore_case(ms)[k] == ms[k].target by {
        assert(!caps_word(ms, k));
    }
    assert(restore_case(ms) =~= ms.map_values(|m: MappedChar| m.target));
}

/// The characters of the unshifted row and of the shifted digit row of both
/// layouts are not uppercase (a fact of std's `char::is_uppercase`).
pub open spec fn unshifted_keys_not_uppercase() -> bool {
    &&& forall|i: int| 0 <= i < 34 ==> !unicode_uppercase(#[trigger] en_lower()[i])
    &&& forall|i: int| 0 <= i < 34 ==> !unicode_uppercase(#[trigger] ru_lower()[i])
    &&& forall|i: int| 0 <= i < 12 ==> !unicode_uppercase(#[trigger] en_shift()[i])
    &&& forall|i: int| 0 <= i < 12 ==> !unicode_uppercase(#[trigger] ru_shift()[i])
}

/// Converting with case kept and no uppercase character typed is mapping
/// each character.
proof fn lemma_no_uppercase_is_mapping(s: Seq<char>, d: Direction)
    requires
        d != Direction::Auto,
        forall|i: int| 0 <= i < s.len() ==> !unicode_uppercase(#[trigger] s[i]),
    ensures
        converted(s, d, false) == mapped_chars(s, d),
{
    let ms = s.map_values(|c: char| mapped_char_of(c, d));
    assert forall|j: int| 0 <= j < ms.len() implies !(#[trigger] ms[j]).source_uppercase by {
        assert(ms[j] == mapped_char_of(s[j], d));
    }
    lemma_restore_without_uppercase(ms);
    assert(ms.map_values(|m: MappedChar| m.target) =~= mapped_chars(s, d));
}

/// Every character of `s` is on an unshifted key or a shifted digit key of
/// the English layout, or is on no key and is not uppercase.
pub open spec fn typed_on_english_keys(s: Seq<char>) -> bool {
    forall|i: int|
        0 <= i < s.len() ==> en_lower().contains(#[trigger] s[i]) || en_shift().contains(s[i]) || (
        !on_some_key(s[i]) && !unicode_uppercase(s[i]))
}

/// Every character of `s` is on an unshifted key or a shifted digit key of
/// the Russian layout, or is on no key and is not uppercase.
pub open spec fn typed_on_russian_keys(s: Seq<char>) -> bool {
    forall|i: int|
        0 <= i < s.len() ==> ru_lower().contains(#[trigger] s[i]) || ru_shift().contains(s[i]) || (
        !on_some_key(s[i]) && !unicode_uppercase(s[i]))
}

/// A text typed on unshifted keys and shifted digit keys of the English
/// layout, mixed with lowercase-or-uncased characters that are on no key,
/// comes back unchanged from Russian: converting it from English to Russian
/// and then from Russian to English with case kept gives the text itself.
pub proof fn lemma_text_round_trip_from_english(s: Seq<char>)
    requires
        unshifted_keys_not_uppercase(),
        typed_on_english_keys(s),
    ensures
        converted(converted(s, Direction::EnToRu, false), Direction::RuToEn, false) == s,
{
    assert forall|i: int| 0 <= i < s.len() implies !unicode_uppercase(#[trigger] s[i]) by {
        if en_lower().contains(s[i]) {
            let k = choose|k: int| 0 <= k < en_lower().len() && en_lower()[k] == s[i];
            assert(!unicode_uppercase(en_lower()[k]));
        } else if en_shift().contains(s[i]) {
            let k = choose|k: int| 0 <= k < en_shift().len() && en_shift()[k] == s[i];
            assert(!unicode_uppercase(en_shift()[k]));
        }
    }
    lemma_no_uppercase_is_mapping(s, Direction::EnToRu);
    let t = mapped_chars(s, Direction::EnToRu);
    assert forall|i: int| 0 <= i < t.len() implies !unicode_uppercase(#[trigger] t[i]) && map_char(
        t[i],
        Direction::RuToEn,
    ) == s[i] by {
        assert(t[i] == map_char(s[i], Direction::EnToRu));
        if en_lower().contains(s[i]) {
            let k = choose|k: int| 0 <= k < en_lower().len() && en_lower()[k] == s[i];
            lemma_same_key(k);
            assert(!unicode_uppercase(ru_lower()[k]));
        } else if en_shift().contains(s[i]) {
            let k = choose|k: int| 0 <= k < en_shift().len() && en_shift()[k] == s[i];
            lemma_same_key(k);
            assert(!unicode_uppercase(ru_shift()[k]));
        } else {
            lemma_off_keys_unchanged(s[i], Direction::EnToRu);
            lemma_off_keys_unchanged(s[i], Direction::RuToEn);
        }
    }
    lemma_no_uppercase_is_mapping(t, Direction::RuToEn);
    assert(mapped_chars(t, Direction::RuToEn) =~= s);
}

/// A text typed on unshifted keys and shifted digit keys of the Russian
/// layout, mixed with lowercase-or-uncased characters that are on no key,
/// comes back unchanged from English.
pub proof fn lemma_text_round_trip_from_russian(s: Seq<char>)
    requires
        unshifted_keys_not_uppercase(),
        typed_on_russian_keys(s),
    ensures
        converted(converted(s, Direction::RuToEn, false), Direction::EnToRu, false) == s,
{
    assert forall|i: int| 0 <= i < s.len() implies !unicode_uppercase(#[trigger] s[i]) by {
        if ru_lower().contains(s[i]) {
            let k = choose|k: int| 0 <= k < ru_lower().len() && ru_lower()[k] == s[i];
            assert(!unicode_uppercase(ru_lower()[k]));
        } else if ru_shift().contains(s[i]) {
            let k = choose|k: int| 0 <= k < ru_shift().len() && ru_shift()[k] == s[i];
            assert(!unicode_uppercase(ru_shift()[k]));
        }
    }
    lemma_no_uppercase_is_mapping(s, Direction::RuToEn);
    let t = mapped_chars(s, Direction::RuToEn);
    assert forall|i: int| 0 <= i < t.len() implies !unicode_uppercase(#[trigger] t[i]) && map_char(
        t[i],
        Direction::EnToRu,
    ) == s[i] by {
        assert(t[i] == map_char(s[i], Direction::RuToEn));
        if ru_lower().contains(s[i]) {
            let k = choose|k: int| 0 <= k < ru_lower().len() && ru_lower()[k] == s[i];
            lemma_same_key(k);
            assert(!unicode_uppercase(en_lower()[k]));
        } else if ru_shift().contains(s[i]) {
            let k = choose|k: int| 0 <= k < ru_shift().len() && ru_shift()[k] == s[i];
            lemma_same_key(k);
            assert(!unicode_uppercase(en_shift()[k]));
        } else {
            lemma_off_keys_unchanged(s[i], Direction::EnToRu);
            lemma_off_keys_unchanged(s[i], Direction::RuToEn);
        }
    }
    lemma_no_uppercase_is_mapping(t, Direction::EnToRu);
    assert(mapped_chars(t, Direction::EnToRu) =~= s);
}

/// std's lowercasing does not tell a character on a key of either layout
/// from the first character of its uppercase mapping (a fact of
/// `str::to_lowercase` on the key rows, whose letters lowercase and
/// uppercase one to one and are all cased).
pub open spec fn lowercasing_ignores_key_uppercase() -> bool {
    forall|x: Seq<char>, i: int|
        0 <= i < x.len() && on_some_key(x[i]) ==> #[trigger] lowercase_text(
            x.update(i, first_or(uppercase_mapping(x[i]), x[i])),
        ) == lowercase_text(x)
}

/// The case rule changes nothing but letters from non-letter keys: each
/// output character is the mapped one, or the first character of the
/// uppercase mapping of a mapped letter whose typed character is no letter.
pub proof fn lemma_case_rule_changes(ms: Seq<MappedChar>, k: int)
    requires
        0 <= k < ms.len(),
    ensures
        restore_case(ms)[k] == ms[k].target || (restore_case(ms)[k] == ms[k].target_upper
            && !ms[k].source_alphabetic && ms[k].target_alphabetic),
{
    assert(restore_case(ms)[k] == restored_char(ms, k));
}

/// Each output character of the case-keeping conversion is the mapped one,
/// or the first character of the uppercase mapping of a mapped character
/// that is on a key: the case rule only uppercases key characters.
pub proof fn lemma_case_rule_only_uppercases_keys(s: Seq<char>, d: Direction, k: int)
    requires
        0 <= k < s.len(),
    ensures
        ({
            let m = mapped_chars(s, d)[k];
            let r = restore_case(s.map_values(|c: char| mapped_char_of(c, d)))[k];
            r == m || (r == first_or(uppercase_mapping(m), m) && on_some_key(m))
        }),
{
    let ms = s.map_values(|c: char| mapped_char_of(c, d));
    assert(ms[k] == mapped_char_of(s[k], d));
    assert(restore_case(ms)[k] == restored_char(ms, k));
    if restored_char(ms, k) != ms[k].target {
        assert(unicode_alphabetic(map_char(s[k], d)) != unicode_alphabetic(s[k]));
        lemma_lookup_lands_on_key(s[k], d);
    }
}

/// Lowercasing a text that differs from `x` only by uppercasing characters
/// on keys gives the lowercasing of `x`.
proof fn lemma_lowercase_prefix_updates(x: Seq<char>, y: Seq<char>, j: int)
    requires
        lowercasing_ignores_key_uppercase(),
        x.len() == y.len(),
        0 <= j <= x.len(),
        forall|k: int|
            0 <= k < x.len() ==> #[trigger] y[k] == x[k] || (y[k] == first_or(
                uppercase_mapping(x[k]),
                x[k],
            ) && on_some_key(x[k])),
    ensures
        lowercase_text(Seq::new(x.len(), |k: int| if k < j { y[k] } else { x[k] }))
            == lowercase_text(x),
    decreases j,
{
    let z = Seq::new(x.len(), |k: int| if k < j { y[k] } else { x[k] });
    if j == 0 {
        assert(z =~= x);
    } else {
        lemma_lowercase_prefix_updates(x, y, j - 1);
        let w = Seq::new(x.len(), |k: int| if k < j - 1 { y[k] } else { x[k] });
        if y[j - 1] == x[j - 1] {
            assert(z =~= w);
        } else {
            assert(w[j - 1] == x[j - 1]);
            assert(z =~= w.update(j - 1, first_or(uppercase_mapping(w[j - 1]), w[j - 1])));
        }
    }
}

/// With `lowercase`, the result is the case-keeping result lowercased: the
/// flag only lowercases the converted text and changes neither the direction
/// nor the mapping.
pub proof fn lemma_lowercase_flag(s: Seq<char>, d: Direction)
    requires
        lowercasing_ignores_key_uppercase(),
    ensures
        converted(s, d, true) == lowercase_text(converted(s, d, false)),
{
    let dd = resolve_direction(s, d);
    let m = mapped_chars(s, dd);
    let r = converted(s, d, false);
    assert(r == restore_case(s.map_values(|c: char| mapped_char_of(c, dd))));
    assert forall|k: int|
        0 <= k < m.len() implies #[trigger] r[k] == m[k] || (r[k] == first_or(
            uppercase_mapping(m[k]),
            m[k],
        ) && on_some_key(m[k])) by {
        lemma_case_rule_only_uppercases_keys(s, dd, k);
    }
    lemma_lowercase_prefix_updates(m, r, m.len() as int);
    assert(Seq::new(m.len(), |k: int| if k < m.len() { r[k] } else { m[k] }) =~= r);
}

/// std's lowercasing of two texts joined by a space is their lowercasings
/// joined by a space (a space is neither cased nor case-ignorable, so no
/// context rule of `str::to_lowercase` reaches across it).
pub open spec fn lowercasing_splits_at_space() -> bool {
    forall|x: Seq<char>, y: Seq<char>|
        #[trigger] lowercase_text(x + seq![' '] + y) == lowercase_text(x) + seq![' ']
            + lowercase_text(y)
}

proof fn lemma_space_on_no_key()
    ensures
        !on_some_key(' '),
{
    assert(!en_lower().contains(' '));
    assert(!en_upper().contains(' '));
    assert(!en_shift().contains(' '));
    assert(!ru_lower().contains(' '));
    assert(!ru_upper().contains(' '));
    assert(!ru_shift().contains(' '));
}

/// The case rule, on two texts joined by a character that belongs to no
/// word, acts on each text alone.
pub proof fn lemma_restore_split(x: Seq<MappedChar>, sep: MappedChar, y: Seq<MappedChar>)
    requires
        !in_word(sep),
    ensures
        restore_case(x + seq![sep] + y) == restore_case(x) + seq![sep.target] + restore_case(y),
{
    let w = x + seq![sep] + y;
    let n = x.len() as int;
    assert(w[n] == sep);
    assert forall|k: int| 0 <= k < n implies caps_word(w, k) == caps_word(x, k) by {
        assert forall|j: int| #[trigger] same_word(w, j, k) <==> same_word(x, j, k) by {
            if same_word(w, j, k) {
                if j >= n {
                    assert(in_word(w[n]));
                }
                assert forall|m: int| #![trigger x[m]] (j <= m <= k || k <= m <= j) implies in_word(
                    x[m],
                ) by {
                    assert(in_word(w[m]));
                    assert(w[m] == x[m]);
                }
            }
            if same_word(x, j, k) {
                assert forall|m: int| #![trigger w[m]] (j <= m <= k || k <= m <= j) implies in_word(
                    w[m],
                ) by {
                    assert(in_word(x[m]));
                    assert(w[m] == x[m]);
                }
            }
        }
        if exists|j: int| #[trigger] same_word(w, j, k) && w[j].source_uppercase {
            let j = choose|j: int| #[trigger] same_word(w, j, k) && w[j].source_uppercase;
            assert(same_word(x, j, k) && x[j].source_uppercase);
        }
        if exists|j: int| #[trigger] same_word(x, j, k) && x[j].source_uppercase {
            let j = choose|j: int| #[trigger] same_word(x, j, k) && x[j].source_uppercase;
            assert(same_word(w, j, k) && w[j].source_uppercase);
        }
        if exists|j: int| #[trigger] same_word(w, j, k) && w[j].source_lowercase {
            let j = choose|j: int| #[trigger] same_word(w, j, k) && w[j].source_lowercase;
            assert(same_word(x, j, k) && x[j].source_lowercase);
        }
        if exists|j: int| #[trigger] same_word(x, j, k) && x[j].source_lowercase {
            let j = choose|j: int| #[trigger] same_word(x, j, k) && x[j].source_lowercase;
            assert(same_word(w, j, k) && w[j].source_lowercase);
        }
    }
    assert forall|k: int| 0 <= k < y.len() implies caps_word(w, k + n + 1) == caps_word(y, k) by {
        let kk = k + n + 1;
        assert forall|j: int| #[trigger] same_word(w, j, kk) <==> same_word(y, j - n - 1, k) by {
            if same_word(w, j, kk) {
                if j <= n {
                    assert(in_word(w[n]));
                }
                assert forall|m: int| #![trigger y[m]] (j - n - 1 <= m <= k || k <= m <= j - n - 1)
                    implies in_word(y[m]) by {
                    assert(in_word(w[m + n + 1]));
                    assert(w[m + n + 1] == y[m]);
                }
            }
            if same_word(y, j - n - 1, k) {
                assert forall|m: int| #![trigger w[m]] (j <= m <= kk || kk <= m <= j) implies in_word(
                    w[m],
                ) by {
                    assert(in_word(y[m - n - 1]));
                    assert(w[m] == y[m - n - 1]);
                }
            }
        }
        if exists|j: int| #[trigger] same_word(w, j, kk) && w[j].source_uppercase {
            let j = choose|j: int| #[trigger] same_word(w, j, kk) && w[j].source_uppercase;
            assert(same_word(y, j - n - 1, k) && y[j - n - 1].source_uppercase);
        }
        if exists|j: int| #[trigger] same_word(y, j, k) && y[j].source_uppercase {
            let j = choose|j: int| #[trigger] same_word(y, j, k) && y[j].source_uppercase;
            assert(same_word(w, j + n + 1, kk) && w[j + n + 1].source_uppercase);
        }
        if exists|j: int| #[trigger] same_word(w, j, kk) && w[j].source_lowercase {
            let j = choose|j: int| #[trigger] same_word(w, j, kk) && w[j].source_lowercase;
            assert(same_word(y, j - n - 1, k) && y[j - n - 1].source_lowercase);
        }
        if exists|j: int| #[trigger] same_word(y, j, k) && y[j].source_lowercase {
            let j = choose|j: int| #[trigger] same_word(y, j, k) && y[j].source_lowercase;
            assert(same_word(w, j + n + 1, kk) && w[j + n + 1].source_lowercase);
        }
    }
    let lhs = restore_case(w);
    let rhs = restore_case(x) + seq![sep.target] + restore_case(y);
    assert forall|k: int| 0 <= k < lhs.len() implies lhs[k] == rhs[k] by {
        assert(lhs[k] == restored_char(w, k));
        if k < n {
            assert(w[k] == x[k]);
            assert(restore_case(x)[k] == restored_char(x, k));
        } else if k == n {
        } else {
            assert(w[k] == y[k - n - 1]);
            assert(caps_word(w, (k - n - 1) + n + 1) == caps_word(y, k - n - 1));
            assert(restore_case(y)[k - n - 1] == restored_char(y, k - n - 1));
        }
    }
    assert(lhs =~= rhs);
}

/// In a fixed direction, converting two texts joined by a space gives their
/// conversions joined by a space: a space is on no key and, not being
/// alphabetic, ends a word, so the case of each word is decided within it.
/// With `lowercase`, the law also rests on lowercasing splitting at a space.
pub proof fn lemma_split_at_space(a: Seq<char>, b: Seq<char>, d: Direction, lowercase: bool)
    requires
        d == Direction::EnToRu || d == Direction::RuToEn,
        !unicode_alphabetic(' '),
        lowercase ==> lowercasing_splits_at_space(),
    ensures
        converted(a + seq![' '] + b, d, lowercase) == converted(a, d, lowercase) + seq![' ']
            + converted(b, d, lowercase),
{
    let s = a + seq![' '] + b;
    lemma_space_on_no_key();
    lemma_off_keys_unchanged(' ', d);
    assert(mapped_chars(s, d) =~= mapped_chars(a, d) + seq![' '] + mapped_chars(b, d));
    let f = |c: char| mapped_char_of(c, d);
    assert(s.map_values(f) =~= a.map_values(f) + seq![mapped_char_of(' ', d)] + b.map_values(f));
    assert(!in_word(mapped_char_of(' ', d)));
    lemma_restore_split(a.map_values(f), mapped_char_of(' ', d), b.map_values(f));
}

fn row_free_of_uppercase(row: &[char]) -> (r: bool)
    ensures
        r == forall|i: int| 0 <= i < row@.len() ==> !unicode_uppercase(#[trigger] row@[i]),
{
    let n = row.len();
    let mut i: usize = 0;
    while i < n
        invariant
            n == row@.len(),
            i <= n,
            forall|j: int| 0 <= j < i ==> !unicode_uppercase(#[trigger] row@[j]),
        decreases n - i,
    {
        if is_uppercase(row[i]) {
            assert(unicode_uppercase(row@[i as int]));
            return false;
        }
        i = i + 1;
    }
    true
}

/// Tests through std's `char::is_uppercase` that no character of the
/// unshifted rows and shifted digit rows is uppercase; when none is, every
/// text typed on those keys of one layout comes back unchanged from the
/// other with case kept.
pub fn text_round_trips_hold() -> (r: bool)
    ensures
        r == unshifted_keys_not_uppercase(),
        r ==> forall|s: Seq<char>|
            typed_on_english_keys(s) ==> #[trigger] converted(
                converted(s, Direction::EnToRu, false),
                Direction::RuToEn,
                false,
            ) == s,
        r ==> forall|s: Seq<char>|
            typed_on_russian_keys(s) ==> #[trigger] converted(
                converted(s, Direction::RuToEn, false),
                Direction::EnToRu,
                false,
            ) == s,
{
    let r = row_free_of_uppercase(&en_lower_keys()) && row_free_of_uppercase(&ru_lower_keys())
        && row_free_of_uppercase(&en_shift_keys()) && row_free_of_uppercase(&ru_shift_keys());
    if r {
        assert forall|s: Seq<char>| typed_on_english_keys(s) implies #[trigger] converted(
            converted(s, Direction::EnToRu, false),
            Direction::RuToEn,
            false,
        ) == s by {
            lemma_text_round_trip_from_english(s);
        }
        assert forall|s: Seq<char>| typed_on_russian_keys(s) implies #[trigger] converted(
            converted(s, Direction::RuToEn, false),
            Direction::EnToRu,
            false,
        ) == s by {
            lemma_text_round_trip_from_russian(s);
        }
    }
    r
}

/// Tests through std's `char::is_alphabetic` that a space is no letter;
/// when it is not, converting two texts joined by a space with case kept, in
/// a fixed direction, gives their conversions joined by a space.
pub fn space_splits_conversion() -> (r: bool)
    ensures
        r == !unicode_alphabetic(' '),
        r ==> forall|a: Seq<char>, b: Seq<char>, d: Direction|
            (d == Direction::EnToRu || d == Direction::RuToEn) ==> #[trigger] converted(
                a + seq![' '] + b,
                d,
                false,
            ) == converted(a, d, false) + seq![' '] + converted(b, d, false),
{
    let r = !is_alphabetic(' ');
    if r {
        assert forall|a: Seq<char>, b: Seq<char>, d: Direction|
            (d == Direction::EnToRu || d == Direction::RuToEn) implies #[trigger] converted(
            a + seq![' '] + b,
            d,
            false,
        ) == converted(a, d, false) + seq![' '] + converted(b, d, false) by {
            lemma_split_at_space(a, b, d, false);
        }
    }
    r
}

/// Position `m` of `s` belongs to a word when converted in direction `d`:
/// the typed character or the character it becomes is a letter.
pub open spec fn word_position(s: Seq<char>, d: Direction, m: int) -> bool {
    unicode_alphabetic(s[m]) || unicode_alphabetic(map_char(s[m], d))
}

/// Positions `j` and `k` of `s` lie in one word: every position from the
/// lower to the higher of them belongs to a word.
pub open spec fn same_text_word(s: Seq<char>, d: Direction, j: int, k: int) -> bool {
    &&& 0 <= j < s.len()
    &&& 0 <= k < s.len()
    &&& forall|m: int| (j <= m <= k || k <= m <= j) ==> #[trigger] word_position(s, d, m)
}

/// With case kept, a character typed on a key that types no letter, which
/// becomes a letter in the other layout, comes out as the first character of
/// that letter's uppercase mapping exactly when its word holds an uppercase
/// typed character and no lowercase one; wherever it stands in the word,
/// the first position included. Every other character comes out as mapped.
pub proof fn lemma_caps_word_case(s: Seq<char>, d: Direction, k: int)
    requires
        0 <= k < s.len(),
    ensures
        ({
            let dd = resolve_direction(s, d);
            let t = map_char(s[k], dd);
            converted(s, d, false)[k] == if !unicode_alphabetic(s[k]) && unicode_alphabetic(t)
                && (exists|j: int| #[trigger] same_text_word(s, dd, j, k) && unicode_uppercase(s[j]))
                && !(exists|j: int| #[trigger] same_text_word(s, dd, j, k) && unicode_lowercase(s[j])) {
                first_or(uppercase_mapping(t), t)
            } else {
                t
            }
        }),
{
    let dd = resolve_direction(s, d);
    let ms = s.map_values(|c: char| mapped_char_of(c, dd));
    assert(converted(s, d, false) == restore_case(ms));
    assert(restore_case(ms)[k] == restored_char(ms, k));
    assert forall|m: int| 0 <= m < s.len() implies #[trigger] ms[m] == mapped_char_of(s[m], dd)
        && (in_word(ms[m]) == word_position(s, dd, m)) by {}
    assert forall|j: int| #[trigger] same_word(ms, j, k) <==> same_text_word(s, dd, j, k) by {
        if same_word(ms, j, k) {
            assert forall|m: int| (j <= m <= k || k <= m <= j) implies #[trigger] word_position(
                s,
                dd,
                m,
            ) by {
                assert(in_word(ms[m]));
            }
        }
        if same_text_word(s, dd, j, k) {
            assert forall|m: int| #![trigger ms[m]] (j <= m <= k || k <= m <= j) implies in_word(
                ms[m],
            ) by {
                assert(word_position(s, dd, m));
            }
        }
    }
    if exists|j: int| #[trigger] same_word(ms, j, k) && ms[j].source_uppercase {
        let j = choose|j: int| #[trigger] same_word(ms, j, k) && ms[j].source_uppercase;
        assert(same_text_word(s, dd, j, k) && unicode_uppercase(s[j]));
    }
    if exists|j: int| #[trigger] same_text_word(s, dd, j, k) && unicode_uppercase(s[j]) {
        let j = choose|j: int| #[trigger] same_text_word(s, dd, j, k) && unicode_uppercase(s[j]);
        assert(same_word(ms, j, k) && ms[j].source_uppercase);
    }
    if exists|j: int| #[trigger] same_word(ms, j, k) && ms[j].source_lowercase {
        let j = choose|j: int| #[trigger] same_word(ms, j, k) && ms[j].source_lowercase;
        assert(same_text_word(s, dd, j, k) && unicode_lowercase(s[j]));
    }
    if exists|j: int| #[trigger] same_text_word(s, dd, j, k) && unicode_lowercase(s[j]) {
        let j = choose|j: int| #[trigger] same_text_word(s, dd, j, k) && unicode_lowercase(s[j]);
        assert(same_word(ms, j, k) && ms[j].source_lowercase);
    }
}

/// `Auto` converts from Russian exactly when the text holds a character of
/// the Cyrillic block U+0400..U+04FF or the numero sign, and from English
/// otherwise; so every text without such a character, every ASCII text
/// among them, is converted from English.
pub proof fn lemma_auto_direction(s: Seq<char>)
    ensures
        resolve_direction(s, Direction::Auto) == (if exists|i: int|
            0 <= i < s.len() && (('\u{0400}' <= #[trigger] s[i] && s[i] <= '\u{04ff}') || s[i]
                == '№') {
            Direction::RuToEn
        } else {
            Direction::EnToRu
        }),
        (forall|i: int| 0 <= i < s.len() ==> (#[trigger] s[i] as u32) < 0x80) ==> resolve_direction(
            s,
            Direction::Auto,
        ) == Direction::EnToRu,
{
    if exists|i: int| 0 <= i < s.len() && is_russian_marker(#[trigger] s[i]) {
        let i = choose|i: int| 0 <= i < s.len() && is_russian_marker(#[trigger] s[i]);
        assert(('\u{0400}' <= s[i] && s[i] <= '\u{04ff}') || s[i] == '№');
    }
    if exists|i: int|
        0 <= i < s.len() && (('\u{0400}' <= #[trigger] s[i] && s[i] <= '\u{04ff}') || s[i]
            == '№') {
        let i = choose|i: int|
            0 <= i < s.len() && (('\u{0400}' <= #[trigger] s[i] && s[i] <= '\u{04ff}') || s[i]
                == '№');
        assert(is_russian_marker(s[i]));
    }
    if forall|i: int| 0 <= i < s.len() ==> (#[trigger] s[i] as u32) < 0x80 {
        assert forall|i: int| 0 <= i < s.len() implies !is_russian_marker(#[trigger] s[i]) by {
            assert((s[i] as u32) < 0x80);
        }
    }
}

/// From English to Russian, a character on no key of the English layout
/// stays as it is; from Russian to English, a character on no key of the
/// Russian layout stays as it is.
pub proof fn lemma_off_source_layout_kept(c: char)
    ensures
        !(en_lower().contains(c) || en_upper().contains(c) || en_shift().contains(c)) ==> map_char(
            c,
            Direction::EnToRu,
        ) == c,
        !(ru_lower().contains(c) || ru_upper().contains(c) || ru_shift().contains(c)) ==> map_char(
            c,
            Direction::RuToEn,
        ) == c,
{
    if !(en_lower().contains(c) || en_upper().contains(c) || en_shift().contains(c)) {
        lemma_absent_from(en_lower(), c);
        lemma_absent_from(en_upper(), c);
        lemma_absent_from(en_shift(), c);
        lemma_row_lookup_absent(en_lower(), ru_lower(), c);
        lemma_row_lookup_absent(en_upper(), ru_upper(), c);
        lemma_row_lookup_absent(en_shift(), ru_shift(), c);
    }
    if !(ru_lower().contains(c) || ru_upper().contains(c) || ru_shift().contains(c)) {
        lemma_absent_from(ru_lower(), c);
        lemma_absent_from(ru_upper(), c);
        lemma_absent_from(ru_shift(), c);
        lemma_row_lookup_absent(ru_lower(), en_lower(), c);
        lemma_row_lookup_absent(ru_upper(), en_upper(), c);
        lemma_row_lookup_absent(ru_shift(), en_shift(), c);
    }
}

/// In a text converted with case kept, a character on no key of the layout
/// it is converted from comes out unchanged: from English to Russian a
/// Cyrillic letter stays, from Russian to English a Latin letter stays.
pub proof fn lemma_off_layout_chars_kept_in_text(s: Seq<char>, d: Direction, k: int)
    requires
        0 <= k < s.len(),
        d == Direction::EnToRu || d == Direction::RuToEn,
    ensures
        d == Direction::EnToRu && !(en_lower().contains(s[k]) || en_upper().contains(s[k])
            || en_shift().contains(s[k])) ==> converted(s, d, false)[k] == s[k],
        d == Direction::RuToEn && !(ru_lower().contains(s[k]) || ru_upper().contains(s[k])
            || ru_shift().contains(s[k])) ==> converted(s, d, false)[k] == s[k],
{
    lemma_off_source_layout_kept(s[k]);
    lemma_caps_word_case(s, d, k);
}

/// The command line: help is asked for exactly when some argument is
/// `--help` or `-h`; otherwise an error is reported exactly when some
/// argument is neither `--test-hotkey` nor `--lowercase`; otherwise the
/// program runs, on Ctrl+Alt+F12 exactly when some argument, wherever it
/// stands, is `--test-hotkey`, and lowercasing exactly when some argument,
/// wherever it stands, is `--lowercase`.
pub proof fn lemma_command_line(args: Seq<Seq<char>>)
    ensures
        (command_for(args) == Command::Help) <==> exists|i: int|
            0 <= i < args.len() && (#[trigger] args[i] == "--help"@ || args[i] == "-h"@),
        (command_for(args) == Command::UnknownArgument) <==> (!(exists|i: int|
            0 <= i < args.len() && (#[trigger] args[i] == "--help"@ || args[i] == "-h"@))
            && exists|i: int|
            0 <= i < args.len() && #[trigger] args[i] != "--test-hotkey"@ && args[i]
                != "--lowercase"@),
        command_for(args) matches Command::Run(o) ==> {
            &&& o.lowercase <==> exists|i: int| 0 <= i < args.len() && #[trigger] args[i]
                == "--lowercase"@
            &&& (o.hotkey == Hotkey::CtrlAltF12) <==> exists|i: int|
                0 <= i < args.len() && #[trigger] args[i] == "--test-hotkey"@
            &&& (o.hotkey == Hotkey::CtrlAltL) <==> !exists|i: int|
                0 <= i < args.len() && #[trigger] args[i] == "--test-hotkey"@
        },
{
    if exists|i: int| 0 <= i < args.len() && (#[trigger] args[i] == "--help"@ || args[i] == "-h"@) {
        let i = choose|i: int|
            0 <= i < args.len() && (#[trigger] args[i] == "--help"@ || args[i] == "-h"@);
        if args[i] == "--help"@ {
            assert(crate::cli::has_arg(args, "--help"@));
        } else {
            assert(crate::cli::has_arg(args, "-h"@));
        }
    }
}

/// With `lowercase`, the result is std's lowercasing of the text in which
/// every character is carried across the layouts, with no case rule applied.
pub proof fn lemma_lowercase_mode(s: Seq<char>, d: Direction)
    ensures
        converted(s, d, true) == lowercase_text(
            Seq::new(s.len(), |i: int| map_char(s[i], resolve_direction(s, d))),
        ),
{
    let dd = resolve_direction(s, d);
    assert(mapped_chars(s, dd) =~= Seq::new(s.len(), |i: int| map_char(s[i], dd)));
}

} // verus!
