use layout_fixer::{convert, Direction};

#[test]
fn converts_both_directions() {
    assert_eq!(convert("ghbdtn", Direction::Auto, false), "привет");
    assert_eq!(convert("руддщ", Direction::Auto, false), "hello");
    assert_eq!(
        convert("Ghbdtn? vbh!", Direction::Auto, false),
        "Привет, мир!"
    );
    assert_eq!(
        convert("РУДДЩ, ЦЩКДВ!", Direction::Auto, false),
        "HELLO? WORLD!"
    );
}

#[test]
fn preserves_case_through_punctuation_keys() {
    assert_eq!(convert("Ghbdtn", Direction::Auto, false), "Привет");
    assert_eq!(convert("GHBDTN", Direction::Auto, false), "ПРИВЕТ");
    assert_eq!(convert("HF,JNFTN", Direction::Auto, false), "РАБОТАЕТ");
    assert_eq!(convert("CGFCB,J", Direction::Auto, false), "СПАСИБО");
    assert_eq!(convert("Ghbdtn", Direction::Auto, true), "привет");
    assert_eq!(convert("HF,JNFTN", Direction::Auto, true), "работает");
    assert_eq!(convert("Привет", Direction::Auto, false), "Ghbdtn");
    assert_eq!(convert("ПРИВЕТ", Direction::Auto, false), "GHBDTN");
    assert_eq!(convert("Ghbdtn, Vbh", Direction::Auto, false), "Приветб Мир");
    assert_eq!(convert("Hf,Jnftn", Direction::Auto, false), "РабОтает");
}

#[test]
fn symbols_and_unmapped_text() {
    assert_eq!(convert("123 ! №", Direction::EnToRu, false), "123 ! №");
    assert_eq!(
        convert("abc\r\ndef", Direction::EnToRu, false),
        "фис\r\nвуа"
    );
}

#[test]
fn readme_examples() {
    assert_eq!(convert("руддщ", Direction::Auto, false), "hello");
    assert_eq!(convert("HF,JNFTN", Direction::Auto, false), "РАБОТАЕТ");
    assert_eq!(convert("GHBDTN", Direction::Auto, true), "привет");
}

#[test]
fn empty_text_converts_to_empty_text() {
    assert_eq!(convert("", Direction::Auto, false), "");
    assert_eq!(convert("", Direction::RuToEn, true), "");
}

#[test]
fn auto_picks_russian_on_cyrillic_or_numero() {
    // A numero sign alone makes the text Russian: '№' is typed by Shift+3.
    assert_eq!(convert("№", Direction::Auto, false), "#");
    assert_eq!(convert("№", Direction::EnToRu, false), "№");
    // Without a Cyrillic letter or '№' the text is read as English.
    assert_eq!(convert("@", Direction::Auto, false), "\"");
    // 'ѣ' (U+0463) lies in the Cyrillic block and is on no key: it stays.
    assert_eq!(convert("ѣq", Direction::Auto, false), "ѣq");
}

#[test]
fn auto_equals_the_direction_it_resolves_to() {
    for text in ["ghbdtn", "руддщ", "Hf,Jnftn", "123", "z№", "HF,JNFTN vbh"] {
        let resolved = if text.chars().any(|c| ('\u{0400}'..='\u{04ff}').contains(&c) || c == '№') {
            Direction::RuToEn
        } else {
            Direction::EnToRu
        };
        for lowercase in [false, true] {
            assert_eq!(
                convert(text, Direction::Auto, lowercase),
                convert(text, resolved, lowercase)
            );
        }
    }
}

#[test]
fn every_key_round_trips() {
    let english = "`qwertyuiop[]asdfghjkl;'zxcvbnm,./~QWERTYUIOP{}ASDFGHJKL:\"ZXCVBNM<>?!@#$%^&*()_+";
    let russian = "ёйцукенгшщзхъфывапролджэячсмитьбю.ЁЙЦУКЕНГШЩЗХЪФЫВАПРОЛДЖЭЯЧСМИТЬБЮ,!\"№;%:?*()_+";
    for (e, r) in english.chars().zip(russian.chars()) {
        let e_text = e.to_string();
        let r_text = r.to_string();
        assert_eq!(convert(&e_text, Direction::EnToRu, false), r_text);
        assert_eq!(convert(&r_text, Direction::RuToEn, false), e_text);
    }
}

#[test]
fn case_preserving_conversion_keeps_length() {
    for text in ["HF,JNFTN", "Straße", "ǅ x", "ﬁ,", "a😀b"] {
        for direction in [Direction::EnToRu, Direction::RuToEn, Direction::Auto] {
            let out = convert(text, direction, false);
            assert_eq!(out.chars().count(), text.chars().count());
        }
    }
}

#[test]
fn lowercase_mode_lowercases_the_whole_result() {
    assert_eq!(convert("ПРИВЕТ", Direction::Auto, true), "ghbdtn");
    // A final capital sigma lowercases by its context, as str::to_lowercase does.
    assert_eq!(convert("ΣΑΣ", Direction::EnToRu, true), "σας");
}

#[test]
fn caps_word_rule_reads_only_the_typed_case() {
    // ',' and '.' typed in a capitals word become capital letters.
    assert_eq!(convert("<F,.", Direction::EnToRu, false), "БАБЮ");
    // A word with a lowercase letter keeps the punctuation letters lowercase.
    assert_eq!(convert("Z,f", Direction::EnToRu, false), "Яба");
    // A word with no cased letter is left as mapped.
    assert_eq!(convert(",.", Direction::EnToRu, false), "бю");
    // Words are separated by non-letters: the second word is not in capitals.
    assert_eq!(convert("AB ,f", Direction::EnToRu, false), "ФИ ба");
}
