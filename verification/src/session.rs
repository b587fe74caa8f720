//! What the program does with a selection when the shortcut is pressed.

use vstd::prelude::*;

use crate::cli::Hotkey;
use crate::convert::{chars_of, convert, converted};
use crate::layout::Direction;
use crate::utf16::{encode_utf16, utf16_encode};

verus! {

/// How the selected text was read from the editor.
#[derive(Clone, Copy, Debug, PartialEq, Eq, Structural)]
pub enum SelectionMethod {
    /// Through the UI Automation text pattern.
    UiAutomation,
    /// Through the messages of a standard Win32 Edit control.
    Win32Edit,
}

impl SelectionMethod {
    /// The status reported after the selection was replaced.
    pub fn success_message(&self) -> (m: &'static str)
        ensures
            *self == SelectionMethod::UiAutomation ==> m@
                == "converted via UI Automation; clipboard untouched"@,
            *self == SelectionMethod::Win32Edit ==> m@
                == "converted via Win32 Edit; clipboard untouched"@,
    {
        match self {
            SelectionMethod::UiAutomation => "converted via UI Automation; clipboard untouched",
            SelectionMethod::Win32Edit => "converted via Win32 Edit; clipboard untouched",
        }
    }
}

/// The text that replaces the selection `source`: its conversion with the
/// direction picked from the text, or `None` when the conversion leaves the
/// text as it is and nothing is to be typed.
pub fn replacement_for(source: &String, lowercase: bool) -> (r: Option<String>)
    ensures
        match r {
            Some(t) => t@ == converted(source@, Direction::Auto, lowercase) && t@ != source@,
            None => converted(source@, Direction::Auto, lowercase) == source@,
        },
{
    let replacement = convert(source.as_str(), Direction::Auto, lowercase);
    if replacement == *source {
        None
    } else {
        Some(replacement)
    }
}

/// What the shortcut handler has learnt so far.
pub struct HotkeyState {
    /// Whether converted text is lowercased.
    pub lowercase: bool,
    /// The converted text waiting to be typed, and how the selection was read.
    pub pending: Option<(String, SelectionMethod)>,
}

/// The outcome of the last action that the handler asked for.
pub enum HotkeyEvent {
    /// Whether Ctrl and Alt came up in time.
    ModifiersReleased(bool),
    /// The selection that was read: an error, nothing usable, or its text.
    SelectionRead(Result<Option<(String, SelectionMethod)>, String>),
    /// Whether the foreground window is still the one the shortcut was pressed in.
    ForegroundUnchanged(bool),
    /// Whether the synthetic keystrokes were all accepted.
    InputSent(Result<(), String>),
}

/// What the handler asks for next.
pub enum HotkeyAction {
    /// Read the selection of the focused editor.
    ReadSelection,
    /// Check that the foreground window has not changed.
    CheckForeground,
    /// Type this text over the selection.
    SendText(String),
    /// Stop, with the status to report or the reason for skipping.
    Finish(Result<&'static str, String>),
}

/// The first event of a shortcut press is `ModifiersReleased`; each later
/// event answers the action before it. Ctrl and Alt still held, an error in
/// reading, a changed foreground window or rejected input stop the handler
/// with an error; nothing to read and a conversion that changes nothing stop
/// it with a status; text is typed only after the foreground window was found
/// unchanged, and it is the pending conversion of the selection.
pub fn hotkey_step(state: HotkeyState, event: HotkeyEvent) -> (r: (HotkeyState, HotkeyAction))
    ensures
        r.0.lowercase == state.lowercase,
        (r.1 is SendText) ==> (event matches HotkeyEvent::ForegroundUnchanged(true)),
        (r.1 is CheckForeground) ==> (event is SelectionRead),
        (r.1 is ReadSelection) ==> (event matches HotkeyEvent::ModifiersReleased(true)),
        match event {
            HotkeyEvent::ModifiersReleased(released) => if released {
                r.1 is ReadSelection && r.0.pending == state.pending
            } else {
                r.1 matches HotkeyAction::Finish(Err(e)) && e@ == "release Ctrl and Alt, then retry"@
            },
            HotkeyEvent::SelectionRead(Err(e)) => r.1 == HotkeyAction::Finish(Err(e)),
            HotkeyEvent::SelectionRead(Ok(None)) => r.1 matches HotkeyAction::Finish(Ok(m))
                && m@ == "no supported selection; unchanged"@,
            HotkeyEvent::SelectionRead(Ok(Some((source, method)))) => if converted(
                source@,
                Direction::Auto,
                state.lowercase,
            ) == source@ {
                r.1 matches HotkeyAction::Finish(Ok(m)) && m@ == "selection unchanged by mapping"@
            } else {
                &&& r.1 is CheckForeground
                &&& r.0.pending matches Some((text, m)) && m == method && text@ == converted(
                    source@,
                    Direction::Auto,
                    state.lowercase,
                )
            },
            HotkeyEvent::ForegroundUnchanged(unchanged) => if !unchanged {
                r.1 matches HotkeyAction::Finish(Err(e)) && e@
                    == "foreground changed; selection left untouched"@
            } else {
                match state.pending {
                    Some((text, m)) => r.1 matches HotkeyAction::SendText(t) && t@ == text@
                        && r.0.pending == state.pending,
                    None => r.1 matches HotkeyAction::Finish(Err(e)) && e@
                        == "no converted selection is pending"@,
                }
            },
            HotkeyEvent::InputSent(Err(e)) => r.1 == HotkeyAction::Finish(Err(e)),
            HotkeyEvent::InputSent(Ok(())) => match state.pending {
                Some((text, SelectionMethod::UiAutomation)) => r.1 matches HotkeyAction::Finish(
                    Ok(m),
                ) && m@ == "converted via UI Automation; clipboard untouched"@,
                Some((text, SelectionMethod::Win32Edit)) => r.1 matches HotkeyAction::Finish(Ok(m))
                    && m@ == "converted via Win32 Edit; clipboard untouched"@,
                None => r.1 matches HotkeyAction::Finish(Err(e)) && e@
                    == "no converted selection is pending"@,
            },
        },
{
    let lowercase = state.lowercase;
    match event {
        HotkeyEvent::ModifiersReleased(released) => {
            if released {
                (state, HotkeyAction::ReadSelection)
            } else {
                (
                    state,
                    HotkeyAction::Finish(Err(String::from_str("release Ctrl and Alt, then retry"))),
                )
            }
        },
        HotkeyEvent::SelectionRead(Err(e)) => (state, HotkeyAction::Finish(Err(e))),
        HotkeyEvent::SelectionRead(Ok(None)) => (
            state,
            HotkeyAction::Finish(Ok("no supported selection; unchanged")),
        ),
        HotkeyEvent::SelectionRead(Ok(Some((source, method)))) => {
            match replacement_for(&source, lowercase) {
                None => (state, HotkeyAction::Finish(Ok("selection unchanged by mapping"))),
                Some(text) => (
                    HotkeyState { lowercase, pending: Some((text, method)) },
                    HotkeyAction::CheckForeground,
                ),
            }
        },
        HotkeyEvent::ForegroundUnchanged(unchanged) => {
            if !unchanged {
                (
                    state,
                    HotkeyAction::Finish(
                        Err(String::from_str("foreground changed; selection left untouched")),
                    ),
                )
            } else {
                let action = match &state.pending {
                    Some((text, _)) => HotkeyAction::SendText(text.clone()),
                    None => HotkeyAction::Finish(
                        Err(String::from_str("no converted selection is pending")),
                    ),
                };
                (state, action)
            }
        },
        HotkeyEvent::InputSent(Err(e)) => (state, HotkeyAction::Finish(Err(e))),
        HotkeyEvent::InputSent(Ok(())) => {
            let action = match &state.pending {
                Some((_, method)) => HotkeyAction::Finish(Ok(method.success_message())),
                None => HotkeyAction::Finish(
                    Err(String::from_str("no converted selection is pending")),
                ),
            };
            (state, action)
        },
    }
}

/// How many times the keyboard is polled for Ctrl and Alt to come up.
pub const MODIFIER_POLLS: u32 = 120;

/// The pause between two polls of the keyboard, in milliseconds.
pub const MODIFIER_POLL_MS: u64 = 25;

/// What to do after a poll of the keyboard.
#[derive(Clone, Copy, Debug, PartialEq, Eq, Structural)]
pub enum ModifierWait {
    /// Ctrl and Alt are up.
    Released,
    /// Wait `MODIFIER_POLL_MS` and poll again.
    SleepThenPoll,
    /// Wait `MODIFIER_POLL_MS` and give up: the keys stayed down.
    SleepThenGiveUp,
}

/// The decision after poll number `polls_done + 1`, at which Ctrl or Alt
/// was found `down` or not, and the number of polls made so far: the keys
/// are released at the first poll that finds them up, and after
/// `MODIFIER_POLLS` polls that found them down the handler gives up.
pub fn modifier_wait_step(polls_done: u32, down: bool) -> (r: (u32, ModifierWait))
    requires
        polls_done < MODIFIER_POLLS,
    ensures
        r.0 == polls_done + 1,
        r.1 == (if !down {
            ModifierWait::Released
        } else if polls_done + 1 < MODIFIER_POLLS {
            ModifierWait::SleepThenPoll
        } else {
            ModifierWait::SleepThenGiveUp
        }),
{
    let polls = polls_done + 1;
    if !down {
        (polls, ModifierWait::Released)
    } else if polls < MODIFIER_POLLS {
        (polls, ModifierWait::SleepThenPoll)
    } else {
        (polls, ModifierWait::SleepThenGiveUp)
    }
}

/// The id under which the shortcut is registered with Windows.
pub const HOTKEY_ID: i32 = 0x4c46;

/// Windows' `WM_HOTKEY` message.
pub const WM_HOTKEY_MESSAGE: u32 = 0x0312;

/// Whether a message taken from the queue is a press of the program's
/// shortcut: a `WM_HOTKEY` message carrying `HOTKEY_ID`.
pub fn is_hotkey_press(message: u32, wparam: usize) -> (r: bool)
    ensures
        r == (message == WM_HOTKEY_MESSAGE && wparam == HOTKEY_ID as usize),
{
    message == WM_HOTKEY_MESSAGE && wparam == HOTKEY_ID as usize
}

/// The message with which the notification icon reports mouse events to its
/// window (Windows' `WM_APP` + 1).
pub const TRAY_CALLBACK_MESSAGE: u32 = 0x8001;

/// The command id of the notification icon's menu item that exits.
pub const EXIT_COMMAND_ID: usize = 1;

/// Windows' `WM_RBUTTONUP` message.
pub const WM_RBUTTONUP_MESSAGE: u32 = 0x0205;

/// Windows' `WM_COMMAND` message.
pub const WM_COMMAND_MESSAGE: u32 = 0x0111;

/// Windows' `WM_DESTROY` message.
pub const WM_DESTROY_MESSAGE: u32 = 0x0002;

/// What the window of the notification icon does with a message.
#[derive(Clone, Copy, Debug, PartialEq, Eq, Structural)]
pub enum TrayReaction {
    /// Show the menu with the exit item at the mouse pointer.
    ShowMenu,
    /// Destroy the window: the exit item was chosen.
    DestroyWindow,
    /// Post the quit message that ends the message loop.
    PostQuit,
    /// Leave the message to Windows' default handling.
    Default,
}

/// The reaction of the notification icon's window to `message`: a right
/// click on the icon shows the menu, the menu's exit command destroys the
/// window, the window's destruction ends the program, and anything else is
/// handled by default.
pub fn tray_reaction(message: u32, wparam: usize, lparam: isize) -> (r: TrayReaction)
    ensures
        r == (if message == TRAY_CALLBACK_MESSAGE && lparam as u32 == WM_RBUTTONUP_MESSAGE {
            TrayReaction::ShowMenu
        } else if message == WM_COMMAND_MESSAGE && wparam & 0xffff == EXIT_COMMAND_ID {
            TrayReaction::DestroyWindow
        } else if message == WM_DESTROY_MESSAGE {
            TrayReaction::PostQuit
        } else {
            TrayReaction::Default
        }),
{
    if message == TRAY_CALLBACK_MESSAGE && lparam as u32 == WM_RBUTTONUP_MESSAGE {
        TrayReaction::ShowMenu
    } else if message == WM_COMMAND_MESSAGE && wparam & 0xffff == EXIT_COMMAND_ID {
        TrayReaction::DestroyWindow
    } else if message == WM_DESTROY_MESSAGE {
        TrayReaction::PostQuit
    } else {
        TrayReaction::Default
    }
}

/// The most UTF-16 code units that the tooltip of the notification icon holds.
pub const TIP_CAPACITY: usize = 128;

/// The tooltip text of the notification icon for the shortcut `hotkey`.
pub open spec fn tray_tip_text(hotkey: Hotkey) -> Seq<char> {
    "Layout Fixer: Ctrl+Alt+"@ + match hotkey {
        Hotkey::CtrlAltL => "L"@,
        Hotkey::CtrlAltF12 => "F12"@,
    }
}

/// The UTF-16 code units written into the tooltip: the tooltip text,
/// cut at `TIP_CAPACITY` units.
pub fn tray_tip(hotkey: Hotkey) -> (units: Vec<u16>)
    ensures
        units@ == utf16_encode(tray_tip_text(hotkey)).take(
            if utf16_encode(tray_tip_text(hotkey)).len() < TIP_CAPACITY {
                utf16_encode(tray_tip_text(hotkey)).len() as int
            } else {
                TIP_CAPACITY as int
            },
        ),
{
    let mut text = String::from_str("Layout Fixer: Ctrl+Alt+");
    text.append(hotkey.key_name());
    let chars = chars_of(text.as_str());
    let all = encode_utf16(&chars);
    let n = if all.len() < TIP_CAPACITY { all.len() } else { TIP_CAPACITY };
    let mut units: Vec<u16> = Vec::new();
    let mut i: usize = 0;
    while i < n
        invariant
            n <= all@.len(),
            i <= n,
            units@ == all@.take(i as int),
        decreases n - i,
    {
        units.push(all[i]);
        assert(all@.take(i + 1) =~= all@.take(i as int).push(all@[i as int]));
        i = i + 1;
    }
    units
}

} // verus!
