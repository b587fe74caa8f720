use layout_fixer::case::{restore_word_case, MappedChar};
use layout_fixer::cli::{parse_args, Command, Hotkey, Options};
use layout_fixer::layout::{is_russian_char, lookup_key, map_key, Direction};
use layout_fixer::selection::{
    check_text_length, edit_selection_in_bounds, is_edit_class, read_edit_selection,
    uia_selection_usable, EditReadError, MAX_SELECTION,
};
use layout_fixer::session::{replacement_for, tray_tip, SelectionMethod, TIP_CAPACITY};
use layout_fixer::typing::{normalize_line_breaks, typing_events, KeyEvent};
use layout_fixer::utf16::{decode_utf16, encode_char, encode_utf16};

fn mapped(source: char, target: char) -> MappedChar {
    MappedChar {
        source,
        target,
        source_alphabetic: source.is_alphabetic(),
        target_alphabetic: target.is_alphabetic(),
        source_uppercase: source.is_uppercase(),
        source_lowercase: source.is_lowercase(),
        target_upper: target.to_uppercase().next().unwrap_or(target),
    }
}

#[test]
fn key_lookup_rows_in_order() {
    assert_eq!(lookup_key('g', Direction::EnToRu), Some('п'));
    assert_eq!(lookup_key('?', Direction::EnToRu), Some(','));
    assert_eq!(lookup_key('#', Direction::EnToRu), Some('№'));
    assert_eq!(lookup_key('.', Direction::RuToEn), Some('/'));
    assert_eq!(lookup_key(',', Direction::RuToEn), Some('?'));
    assert_eq!(lookup_key('?', Direction::RuToEn), Some('&'));
    assert_eq!(lookup_key('1', Direction::EnToRu), None);
    assert_eq!(lookup_key('q', Direction::Auto), None);
    assert_eq!(map_key('1', Direction::RuToEn), '1');
    assert_eq!(map_key('Ж', Direction::RuToEn), ':');
}

#[test]
fn russian_markers() {
    assert!(is_russian_char('ж'));
    assert!(is_russian_char('\u{0400}'));
    assert!(is_russian_char('\u{04ff}'));
    assert!(is_russian_char('№'));
    assert!(!is_russian_char('\u{0500}'));
    assert!(!is_russian_char('#'));
}

#[test]
fn restore_case_in_capitals_word_only() {
    let word = vec![mapped('H', 'Р'), mapped(',', 'б'), mapped(' ', ' '), mapped(',', 'б')];
    assert_eq!(restore_word_case(&word), vec!['Р', 'Б', ' ', 'б']);
    let mixed = vec![mapped('H', 'Р'), mapped('f', 'а'), mapped(',', 'б')];
    assert_eq!(restore_word_case(&mixed), vec!['Р', 'а', 'б']);
    assert_eq!(restore_word_case(&vec![]), Vec::<char>::new());
}

#[test]
fn normalizes_line_breaks() {
    let text: Vec<char> = "a\r\nb\rc\n\r\r\n".chars().collect();
    let expected: Vec<char> = "a\nb\nc\n\n\n".chars().collect();
    assert_eq!(normalize_line_breaks(&text), expected);
}

#[test]
fn utf16_encoding_matches_std() {
    for text in ["", "abc", "привет", "a😀b", "\u{10FFFF}\u{FFFF}\u{E000}"] {
        let chars: Vec<char> = text.chars().collect();
        let expected: Vec<u16> = text.encode_utf16().collect();
        assert_eq!(encode_utf16(&chars), expected);
    }
    assert_eq!(encode_char('😀'), vec![0xD83D, 0xDE00]);
    assert_eq!(encode_char('a'), vec![0x61]);
}

#[test]
fn utf16_decoding() {
    let units: Vec<u16> = "a😀ж".encode_utf16().collect();
    assert_eq!(decode_utf16(&units), Some("a😀ж".to_string()));
    assert_eq!(decode_utf16(&[]), Some(String::new()));
    assert_eq!(decode_utf16(&[0xD800]), None);
    assert_eq!(decode_utf16(&[0xDC00, 0x61]), None);
    assert_eq!(decode_utf16(&[0xD800, 0x61]), None);
    for text in ["", "x", "\u{10000}\u{10FFFF}z"] {
        let chars: Vec<char> = text.chars().collect();
        assert_eq!(decode_utf16(&encode_utf16(&chars)), Some(text.to_string()));
    }
}

#[test]
fn typing_events_press_and_release_each_unit() {
    let events = typing_events("a\r\n😀");
    let expected = vec![
        KeyEvent { unit: 0x61, key_up: false },
        KeyEvent { unit: 0x61, key_up: true },
        KeyEvent { unit: 0x0A, key_up: false },
        KeyEvent { unit: 0x0A, key_up: true },
        KeyEvent { unit: 0xD83D, key_up: false },
        KeyEvent { unit: 0xD83D, key_up: true },
        KeyEvent { unit: 0xDE00, key_up: false },
        KeyEvent { unit: 0xDE00, key_up: true },
    ];
    assert_eq!(events, expected);
    assert!(typing_events("").is_empty());
}

#[test]
fn edit_selection_bounds() {
    assert!(edit_selection_in_bounds(0, 1));
    assert!(edit_selection_in_bounds(5, MAX_SELECTION));
    assert!(!edit_selection_in_bounds(3, 3));
    assert!(!edit_selection_in_bounds(4, 3));
    assert!(!edit_selection_in_bounds(0, MAX_SELECTION + 1));
    assert!(!edit_selection_in_bounds(MAX_SELECTION, MAX_SELECTION + 1));
    assert_eq!(check_text_length(4, 4), Ok(()));
    assert_eq!(check_text_length(5, 4), Err(EditReadError::SelectionChanged));
}

#[test]
fn reading_an_edit_selection() {
    let buffer: Vec<u16> = "xyпривет\0".encode_utf16().collect();
    assert_eq!(read_edit_selection(&buffer, 8, 2, 8, 2, 8), Ok("привет".to_string()));
    assert_eq!(
        read_edit_selection(&buffer, 7, 2, 8, 2, 8),
        Err(EditReadError::TruncatedText)
    );
    assert_eq!(
        read_edit_selection(&buffer, 8, 2, 8, 2, 7),
        Err(EditReadError::SelectionChanged)
    );
    let broken = vec![0x61, 0xD800, 0x62, 0];
    assert_eq!(
        read_edit_selection(&broken, 3, 0, 3, 0, 3),
        Err(EditReadError::InvalidUtf16)
    );
    assert_eq!(
        EditReadError::SelectionChanged.message(),
        "selection changed while reading editor"
    );
    assert_eq!(EditReadError::TruncatedText.message(), "editor returned truncated text");
    assert_eq!(
        EditReadError::InvalidUtf16.message(),
        "editor selection contains invalid UTF-16"
    );
}

#[test]
fn edit_class_names() {
    let units = |s: &str| s.encode_utf16().collect::<Vec<u16>>();
    assert!(is_edit_class(&units("Edit")));
    assert!(is_edit_class(&units("EDIT")));
    assert!(is_edit_class(&units("edit")));
    assert!(!is_edit_class(&units("Edit1")));
    assert!(!is_edit_class(&units("RichEdit")));
    assert!(!is_edit_class(&units("")));
    assert!(!is_edit_class(&units("Еdit")));
}

#[test]
fn uia_selection_limits() {
    assert!(!uia_selection_usable(""));
    assert!(uia_selection_usable("a"));
    let max = MAX_SELECTION as usize;
    assert!(uia_selection_usable(&"a".repeat(max)));
    assert!(!uia_selection_usable(&"a".repeat(max + 1)));
    assert!(uia_selection_usable(&"😀".repeat(max / 2)));
    assert!(!uia_selection_usable(&"😀".repeat(max / 2 + 1)));
}

fn args(list: &[&str]) -> Vec<String> {
    list.iter().map(|a| a.to_string()).collect()
}

#[test]
fn command_line() {
    let run = |hotkey, lowercase| Command::Run(Options { hotkey, lowercase });
    assert_eq!(parse_args(&args(&[])), run(Hotkey::CtrlAltL, false));
    assert_eq!(parse_args(&args(&["--lowercase"])), run(Hotkey::CtrlAltL, true));
    assert_eq!(
        parse_args(&args(&["--test-hotkey", "--lowercase"])),
        run(Hotkey::CtrlAltF12, true)
    );
    assert_eq!(parse_args(&args(&["-h"])), Command::Help);
    assert_eq!(parse_args(&args(&["--bogus", "--help"])), Command::Help);
    assert_eq!(parse_args(&args(&["--bogus"])), Command::UnknownArgument);
    assert_eq!(parse_args(&args(&["--lowercase", "-x"])), Command::UnknownArgument);
    assert_eq!(Hotkey::CtrlAltL.key_name(), "L");
    assert_eq!(Hotkey::CtrlAltF12.key_name(), "F12");
}

#[test]
fn replacement_only_when_text_changes() {
    assert_eq!(replacement_for(&"ghbdtn".to_string(), false), Some("привет".to_string()));
    assert_eq!(replacement_for(&"GHBDTN".to_string(), true), Some("привет".to_string()));
    assert_eq!(replacement_for(&"123 !".to_string(), false), None);
    assert_eq!(
        SelectionMethod::UiAutomation.success_message(),
        "converted via UI Automation; clipboard untouched"
    );
    assert_eq!(
        SelectionMethod::Win32Edit.success_message(),
        "converted via Win32 Edit; clipboard untouched"
    );
}

#[test]
fn tray_tooltip() {
    let expected: Vec<u16> = "Layout Fixer: Ctrl+Alt+L".encode_utf16().collect();
    assert_eq!(tray_tip(Hotkey::CtrlAltL), expected);
    let expected: Vec<u16> = "Layout Fixer: Ctrl+Alt+F12".encode_utf16().collect();
    assert_eq!(tray_tip(Hotkey::CtrlAltF12), expected);
    assert!(tray_tip(Hotkey::CtrlAltF12).len() <= TIP_CAPACITY);
}

#[test]
fn typed_units_spell_the_normalized_text() {
    for text in ["a\r\nb", "x\ry😀\r\n", ""] {
        let events = typing_events(text);
        assert_eq!(events.len() % 2, 0);
        let pressed: Vec<u16> = events
            .chunks(2)
            .map(|pair| {
                assert!(!pair[0].key_up && pair[1].key_up);
                assert_eq!(pair[0].unit, pair[1].unit);
                pair[0].unit
            })
            .collect();
        let expected = text.replace("\r\n", "\n").replace('\r', "\n");
        assert_eq!(decode_utf16(&pressed), Some(expected));
    }
}

#[test]
fn normalizing_twice_is_normalizing_once() {
    let text: Vec<char> = "\r\r\n\n\ra".chars().collect();
    let once = normalize_line_breaks(&text);
    assert_eq!(normalize_line_breaks(&once), once);
    assert!(!once.contains(&'\r'));
}
