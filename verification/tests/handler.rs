use layout_fixer::convert;
use layout_fixer::layout::Direction;
use layout_fixer::selection::{
    edit_style_readable, uia_element_readable, uia_range_count_usable, uia_step, UiaAction,
    UiaEvent, MAX_SELECTION,
};
use layout_fixer::session::{
    hotkey_step, modifier_wait_step, HotkeyAction, HotkeyEvent, HotkeyState, ModifierWait,
    SelectionMethod, MODIFIER_POLLS,
};

fn finish(action: HotkeyAction) -> Result<&'static str, String> {
    match action {
        HotkeyAction::Finish(result) => result,
        _ => panic!("expected the handler to finish"),
    }
}

fn start(lowercase: bool) -> HotkeyState {
    HotkeyState { lowercase, pending: None }
}

#[test]
fn held_modifiers_stop_the_handler() {
    let (_, action) = hotkey_step(start(false), HotkeyEvent::ModifiersReleased(false));
    assert_eq!(finish(action), Err("release Ctrl and Alt, then retry".to_string()));
    let (_, action) = hotkey_step(start(false), HotkeyEvent::ModifiersReleased(true));
    assert!(matches!(action, HotkeyAction::ReadSelection));
}

#[test]
fn selection_outcomes() {
    let (_, action) = hotkey_step(start(false), HotkeyEvent::SelectionRead(Err("boom".to_string())));
    assert_eq!(finish(action), Err("boom".to_string()));
    let (_, action) = hotkey_step(start(false), HotkeyEvent::SelectionRead(Ok(None)));
    assert_eq!(finish(action), Ok("no supported selection; unchanged"));
    let unchanged = HotkeyEvent::SelectionRead(Ok(Some(("123".to_string(), SelectionMethod::Win32Edit))));
    let (_, action) = hotkey_step(start(false), unchanged);
    assert_eq!(finish(action), Ok("selection unchanged by mapping"));
}

#[test]
fn full_run_types_the_conversion_after_the_foreground_check() {
    let read = HotkeyEvent::SelectionRead(Ok(Some(("HF,JNFTN".to_string(), SelectionMethod::UiAutomation))));
    let (state, action) = hotkey_step(start(false), read);
    assert!(matches!(action, HotkeyAction::CheckForeground));
    let (state, action) = hotkey_step(state, HotkeyEvent::ForegroundUnchanged(true));
    match action {
        HotkeyAction::SendText(text) => assert_eq!(text, "РАБОТАЕТ"),
        _ => panic!("expected text to be typed"),
    }
    let (_, action) = hotkey_step(state, HotkeyEvent::InputSent(Ok(())));
    assert_eq!(finish(action), Ok("converted via UI Automation; clipboard untouched"));
}

#[test]
fn changed_foreground_or_rejected_input_stop_the_handler() {
    let read = HotkeyEvent::SelectionRead(Ok(Some(("ghbdtn".to_string(), SelectionMethod::Win32Edit))));
    let (state, _) = hotkey_step(start(true), read);
    let (_, action) = hotkey_step(state, HotkeyEvent::ForegroundUnchanged(false));
    assert_eq!(finish(action), Err("foreground changed; selection left untouched".to_string()));
    let state = HotkeyState { lowercase: true, pending: Some(("привет".to_string(), SelectionMethod::Win32Edit)) };
    let (_, action) = hotkey_step(state, HotkeyEvent::InputSent(Err("input incomplete".to_string())));
    assert_eq!(finish(action), Err("input incomplete".to_string()));
    let state = HotkeyState { lowercase: true, pending: Some(("привет".to_string(), SelectionMethod::Win32Edit)) };
    let (_, action) = hotkey_step(state, HotkeyEvent::InputSent(Ok(())));
    assert_eq!(finish(action), Ok("converted via Win32 Edit; clipboard untouched"));
    let (_, action) = hotkey_step(start(false), HotkeyEvent::ForegroundUnchanged(true));
    assert_eq!(finish(action), Err("no converted selection is pending".to_string()));
}

#[test]
fn modifier_wait_gives_up_after_all_polls() {
    assert_eq!(modifier_wait_step(0, false), (1, ModifierWait::Released));
    assert_eq!(modifier_wait_step(0, true), (1, ModifierWait::SleepThenPoll));
    assert_eq!(modifier_wait_step(MODIFIER_POLLS - 2, true), (MODIFIER_POLLS - 1, ModifierWait::SleepThenPoll));
    assert_eq!(modifier_wait_step(MODIFIER_POLLS - 1, true), (MODIFIER_POLLS, ModifierWait::SleepThenGiveUp));
    assert_eq!(modifier_wait_step(MODIFIER_POLLS - 1, false), (MODIFIER_POLLS, ModifierWait::Released));
}

fn finished(action: UiaAction) -> Result<Option<String>, String> {
    match action {
        UiaAction::Finish(result) => result,
        _ => panic!("expected reading to finish"),
    }
}

#[test]
fn uia_reading_order() {
    assert!(matches!(uia_step(UiaEvent::PasswordChecked(Ok(false))), UiaAction::CheckControlType));
    assert_eq!(finished(uia_step(UiaEvent::PasswordChecked(Ok(true)))), Ok(None));
    assert_eq!(finished(uia_step(UiaEvent::PasswordChecked(Err("e".to_string())))), Err("e".to_string()));
    assert!(matches!(uia_step(UiaEvent::ControlTypeChecked(Ok(true))), UiaAction::CheckValuePattern));
    assert_eq!(finished(uia_step(UiaEvent::ControlTypeChecked(Ok(false)))), Ok(None));
    assert!(matches!(uia_step(UiaEvent::ValuePatternChecked(None)), UiaAction::CheckTextPattern));
    assert!(matches!(uia_step(UiaEvent::ValuePatternChecked(Some(Some(false)))), UiaAction::CheckTextPattern));
    assert_eq!(finished(uia_step(UiaEvent::ValuePatternChecked(Some(Some(true))))), Ok(None));
    assert_eq!(finished(uia_step(UiaEvent::ValuePatternChecked(Some(None)))), Ok(None));
    assert!(matches!(uia_step(UiaEvent::TextPatternChecked(true)), UiaAction::CountRanges));
    assert!(matches!(uia_step(UiaEvent::TextPatternChecked(false)), UiaAction::UseEditControl));
    assert!(matches!(uia_step(UiaEvent::RangesCounted(Ok(1))), UiaAction::ReadText));
    assert_eq!(finished(uia_step(UiaEvent::RangesCounted(Ok(0)))), Ok(None));
    assert_eq!(finished(uia_step(UiaEvent::RangesCounted(Ok(2)))), Ok(None));
    assert_eq!(finished(uia_step(UiaEvent::TextRead(Ok("ghbdtn".to_string())))), Ok(Some("ghbdtn".to_string())));
    assert_eq!(finished(uia_step(UiaEvent::TextRead(Ok(String::new())))), Ok(None));
    let too_long = "a".repeat(MAX_SELECTION as usize + 1);
    assert_eq!(finished(uia_step(UiaEvent::TextRead(Ok(too_long)))), Ok(None));
}

#[test]
fn element_and_style_checks() {
    assert!(uia_element_readable(false, true, None));
    assert!(uia_element_readable(false, true, Some(Some(false))));
    assert!(!uia_element_readable(false, true, Some(None)));
    assert!(!uia_element_readable(false, true, Some(Some(true))));
    assert!(!uia_element_readable(true, true, None));
    assert!(!uia_element_readable(false, false, None));
    assert!(uia_range_count_usable(1));
    assert!(!uia_range_count_usable(0));
    assert!(!uia_range_count_usable(3));
    assert!(edit_style_readable(0x5001_0004));
    assert!(!edit_style_readable(0x20));
    assert!(!edit_style_readable(0x800));
    assert!(!edit_style_readable(0x820 | 0x4));
}

#[test]
fn lowercase_flag_lowercases_the_case_kept_result() {
    for text in ["HF,JNFTN", "Hf,Jnftn", "ПРИВЕТ, МИР", "<F,. ab"] {
        for direction in [Direction::Auto, Direction::EnToRu, Direction::RuToEn] {
            assert_eq!(
                convert(text, direction, true),
                convert(text, direction, false).to_lowercase()
            );
        }
    }
}

#[test]
fn conversion_splits_at_a_space() {
    for (a, b) in [("HF,JNFTN", "vbh"), ("Ghbdtn", "<F,."), ("", "x"), ("ΑΣ", "b")] {
        for direction in [Direction::EnToRu, Direction::RuToEn] {
            for lowercase in [false, true] {
                assert_eq!(
                    convert(&format!("{a} {b}"), direction, lowercase),
                    format!("{} {}", convert(a, direction, lowercase), convert(b, direction, lowercase))
                );
            }
        }
    }
}

#[test]
fn texts_round_trip_through_the_other_layout() {
    for text in ["ghbdtn, vbh!", "[]\\;'./`", "1 + 2 = 3 é"] {
        let there = convert(text, Direction::EnToRu, false);
        assert_eq!(convert(&there, Direction::RuToEn, false), text);
    }
    for text in ["привет, мир.", "ёжик №5"] {
        let there = convert(text, Direction::RuToEn, false);
        assert_eq!(convert(&there, Direction::EnToRu, false), text);
    }
}

use layout_fixer::laws::{space_splits_conversion, text_round_trips_hold};
use layout_fixer::selection::{edit_step, EditAction, EditEvent, EditStage};

fn edit_finished(action: EditAction) -> Result<Option<String>, String> {
    match action {
        EditAction::Finish(result) => result,
        _ => panic!("expected reading to finish"),
    }
}

fn units(s: &str) -> Vec<u16> {
    s.encode_utf16().collect()
}

#[test]
fn edit_reading_in_order() {
    let (stage, action) = edit_step(EditStage::Foreground, EditEvent::ForegroundChecked(true));
    assert!(matches!(action, EditAction::ReadClass));
    let (stage, action) = edit_step(stage, EditEvent::ClassRead(units("EDIT")));
    assert!(matches!(action, EditAction::ReadStyle));
    let (stage, action) = edit_step(stage, EditEvent::StyleRead(0x5001_0004));
    assert!(matches!(action, EditAction::ReadSelection));
    let (stage, action) = edit_step(stage, EditEvent::SelectionRead(Ok((2, 8))));
    assert!(matches!(action, EditAction::ReadLength));
    let (stage, action) = edit_step(stage, EditEvent::LengthRead(Ok(10)));
    assert!(matches!(action, EditAction::CopyText(9)));
    let buffer = units("xyghbdtn\0");
    let (stage, action) = edit_step(stage, EditEvent::TextCopied(Ok((buffer, 8))));
    assert!(matches!(action, EditAction::RereadSelection));
    let (stage, action) = edit_step(stage, EditEvent::SelectionReread(Ok((2, 8))));
    assert!(matches!(stage, EditStage::Done));
    assert_eq!(edit_finished(action), Ok(Some("ghbdtn".to_string())));
}

#[test]
fn edit_reading_refusals() {
    let (_, a) = edit_step(EditStage::Foreground, EditEvent::ForegroundChecked(false));
    assert_eq!(edit_finished(a), Err("focused editor is not in foreground window".to_string()));
    let (_, a) = edit_step(EditStage::Class, EditEvent::ClassRead(units("RichEdit20W")));
    assert_eq!(
        edit_finished(a),
        Err("focused editor does not expose UIA TextPattern or standard Edit".to_string())
    );
    let (_, a) = edit_step(EditStage::Style, EditEvent::StyleRead(0x20));
    assert_eq!(edit_finished(a), Ok(None));
    let (_, a) = edit_step(EditStage::Style, EditEvent::StyleRead(0x800));
    assert_eq!(edit_finished(a), Ok(None));
    let (_, a) = edit_step(EditStage::Selection, EditEvent::SelectionRead(Ok((3, 3))));
    assert_eq!(edit_finished(a), Ok(None));
    let (_, a) = edit_step(EditStage::Selection, EditEvent::SelectionRead(Err("timeout".to_string())));
    assert_eq!(edit_finished(a), Err("timeout".to_string()));
    let (_, a) = edit_step(EditStage::Length { start: 0, end: 5 }, EditEvent::LengthRead(Ok(4)));
    assert_eq!(edit_finished(a), Err("selection changed while reading editor".to_string()));
    let (_, a) = edit_step(
        EditStage::Copy { start: 0, end: 5 },
        EditEvent::TextCopied(Ok((vec![0x61; 6], 4))),
    );
    assert_eq!(edit_finished(a), Err("editor returned truncated text".to_string()));
    let reread = EditStage::Reread { start: 0, end: 2, buffer: vec![0x61, 0x62, 0], copied: 2 };
    let (_, a) = edit_step(reread, EditEvent::SelectionReread(Ok((0, 1))));
    assert_eq!(edit_finished(a), Err("selection changed while reading editor".to_string()));
    let broken = EditStage::Reread { start: 0, end: 2, buffer: vec![0xD800, 0x62, 0], copied: 2 };
    let (_, a) = edit_step(broken, EditEvent::SelectionReread(Ok((0, 2))));
    assert_eq!(edit_finished(a), Err("editor selection contains invalid UTF-16".to_string()));
    let (_, a) = edit_step(EditStage::Foreground, EditEvent::StyleRead(0));
    assert_eq!(edit_finished(a), Err("editor answered out of order".to_string()));
    let (_, a) = edit_step(EditStage::Done, EditEvent::ForegroundChecked(true));
    assert_eq!(edit_finished(a), Err("editor answered out of order".to_string()));
}

#[test]
fn std_facts_behind_the_text_laws_hold() {
    assert!(text_round_trips_hold());
    assert!(space_splits_conversion());
}

use layout_fixer::session::{
    is_hotkey_press, tray_reaction, TrayReaction, EXIT_COMMAND_ID, HOTKEY_ID, TRAY_CALLBACK_MESSAGE,
};

#[test]
fn message_loop_and_tray_decisions() {
    assert!(is_hotkey_press(0x0312, HOTKEY_ID as usize));
    assert!(!is_hotkey_press(0x0312, 7));
    assert!(!is_hotkey_press(0x0111, HOTKEY_ID as usize));
    assert_eq!(tray_reaction(TRAY_CALLBACK_MESSAGE, 1, 0x0205), TrayReaction::ShowMenu);
    assert_eq!(tray_reaction(TRAY_CALLBACK_MESSAGE, 1, 0x0202), TrayReaction::Default);
    assert_eq!(tray_reaction(0x0111, EXIT_COMMAND_ID, 0), TrayReaction::DestroyWindow);
    assert_eq!(tray_reaction(0x0111, 0x1_0000 | EXIT_COMMAND_ID, 0), TrayReaction::DestroyWindow);
    assert_eq!(tray_reaction(0x0111, 2, 0), TrayReaction::Default);
    assert_eq!(tray_reaction(0x0002, 0, 0), TrayReaction::PostQuit);
    assert_eq!(tray_reaction(0x000F, 0, 0), TrayReaction::Default);
}

#[test]
fn edit_reading_stages_advance() {
    let (stage, _) = edit_step(EditStage::Foreground, EditEvent::ForegroundChecked(true));
    assert!(matches!(stage, EditStage::Class));
    let (stage, _) = edit_step(stage, EditEvent::ClassRead(units("Edit")));
    assert!(matches!(stage, EditStage::Style));
    let (stage, _) = edit_step(stage, EditEvent::StyleRead(0));
    assert!(matches!(stage, EditStage::Selection));
}
