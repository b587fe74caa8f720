//! The checks that decide whether a selection read from an editor is used.

use vstd::prelude::*;

use crate::convert::chars_of;
use crate::utf16::{decode_utf16, lemma_skip_skip, utf16_decode, utf16_encode, utf16_units};

verus! {

/// The most UTF-16 code units of a selection that is read and replaced.
pub const MAX_SELECTION: u32 = 16384;

/// Why a selection read from a standard Edit control is not used.
#[derive(Clone, Copy, Debug, PartialEq, Eq, Structural)]
pub enum EditReadError {
    /// The control's text or selection moved while it was being read.
    SelectionChanged,
    /// The control returned less text than the selection spans.
    TruncatedText,
    /// The selected code units are not valid UTF-16.
    InvalidUtf16,
}

impl EditReadError {
    /// The text that reports the error.
    pub fn message(&self) -> (m: &'static str)
        ensures
            *self == EditReadError::SelectionChanged ==> m@ == "selection changed while reading editor"@,
            *self == EditReadError::TruncatedText ==> m@ == "editor returned truncated text"@,
            *self == EditReadError::InvalidUtf16 ==> m@ == "editor selection contains invalid UTF-16"@,
    {
        match self {
            EditReadError::SelectionChanged => "selection changed while reading editor",
            EditReadError::TruncatedText => "editor returned truncated text",
            EditReadError::InvalidUtf16 => "editor selection contains invalid UTF-16",
        }
    }
}

/// Whether the code-unit range `[start, end)` of an Edit control is a
/// selection worth reading: not empty, and ending within the first
/// `MAX_SELECTION` units.
pub fn edit_selection_in_bounds(start: u32, end: u32) -> (r: bool)
    ensures
        r == (start < end && end <= MAX_SELECTION),
{
    !(start >= end || end - start > MAX_SELECTION || end > MAX_SELECTION)
}

/// The control's text, `length` code units long, still reaches the end of
/// the selection; otherwise the selection changed while it was read.
pub fn check_text_length(end: u32, length: usize) -> (r: Result<(), EditReadError>)
    ensures
        r == (if end as int > length as int {
            Err(EditReadError::SelectionChanged)
        } else {
            Ok(())
        }),
{
    if end as usize > length {
        Err(EditReadError::SelectionChanged)
    } else {
        Ok(())
    }
}

/// The selected text of an Edit control, from the text that was copied out
/// of it (`copied` units of `buffer`) and the selection read again afterwards:
/// an error when fewer units than the selection's end were copied, when the
/// selection moved, or when the selected units are not valid UTF-16.
pub fn read_edit_selection(
    buffer: &Vec<u16>,
    copied: usize,
    start: u32,
    end: u32,
    latest_start: u32,
    latest_end: u32,
) -> (r: Result<String, EditReadError>)
    requires
        start <= end,
        end <= buffer@.len(),
    ensures
        copied < end ==> r == Err::<String, EditReadError>(EditReadError::TruncatedText),
        copied >= end && (latest_start != start || latest_end != end) ==> r == Err::<
            String,
            EditReadError,
        >(EditReadError::SelectionChanged),
        copied >= end && latest_start == start && latest_end == end ==> match r {
            Ok(s) => utf16_decode(buffer@.subrange(start as int, end as int)) == Some(s@),
            Err(e) => e == EditReadError::InvalidUtf16 && utf16_decode(
                buffer@.subrange(start as int, end as int),
            ) is None,
        },
{
    if copied < end as usize {
        return Err(EditReadError::TruncatedText);
    }
    if latest_start != start || latest_end != end {
        return Err(EditReadError::SelectionChanged);
    }
    let slice = vstd::slice::slice_subrange(buffer.as_slice(), start as usize, end as usize);
    match decode_utf16(slice) {
        Some(s) => Ok(s),
        None => Err(EditReadError::InvalidUtf16),
    }
}

/// A code unit with ASCII uppercase letters folded to lowercase.
pub open spec fn ascii_folded(u: u16) -> u16 {
    if 0x41 <= u <= 0x5A { (u + 0x20) as u16 } else { u }
}

/// Whether a window class name, in UTF-16, is `Edit` up to ASCII case.
pub open spec fn is_edit_class_name(name: Seq<u16>) -> bool {
    &&& name.len() == 4
    &&& ascii_folded(name[0]) == 0x65
    &&& ascii_folded(name[1]) == 0x64
    &&& ascii_folded(name[2]) == 0x69
    &&& ascii_folded(name[3]) == 0x74
}

fn fold_ascii(u: u16) -> (r: u16)
    ensures
        r == ascii_folded(u),
{
    if 0x41 <= u && u <= 0x5A {
        u + 0x20
    } else {
        u
    }
}

/// Whether the window class `name` is the standard Edit control's, `Edit`
/// compared without regard to ASCII case.
pub fn is_edit_class(name: &[u16]) -> (r: bool)
    ensures
        r == is_edit_class_name(name@),
{
    name.len() == 4 && fold_ascii(name[0]) == 0x65 && fold_ascii(name[1]) == 0x64 && fold_ascii(
        name[2],
    ) == 0x69 && fold_ascii(name[3]) == 0x74
}

/// Whether the window style of a standard Edit control lets its selection be
/// read: it is neither a password field (`ES_PASSWORD`, 0x20) nor read-only
/// (`ES_READONLY`, 0x800).
pub fn edit_style_readable(style: isize) -> (r: bool)
    ensures
        r == (style & 0x820isize == 0isize),
{
    style & 0x820isize == 0isize
}

/// The answer to the last query that reading a selection through UI
/// Automation asked for.
pub enum UiaEvent {
    /// Whether the focused element is a password field, or why that is unknown.
    PasswordChecked(Result<bool, String>),
    /// Whether the focused element is an edit control, or why that is unknown.
    ControlTypeChecked(Result<bool, String>),
    /// `None` when the element has no value pattern; otherwise its read-only
    /// flag, `None` when that query failed.
    ValuePatternChecked(Option<Option<bool>>),
    /// Whether the element has a text pattern.
    TextPatternChecked(bool),
    /// How many ranges are selected, or why that is unknown.
    RangesCounted(Result<i32, String>),
    /// The text of the selected range, or why it could not be read.
    TextRead(Result<String, String>),
}

/// The next query, or the end of reading.
pub enum UiaAction {
    /// Ask whether the element is an edit control.
    CheckControlType,
    /// Ask for the element's value pattern and its read-only flag.
    CheckValuePattern,
    /// Ask for the element's text pattern.
    CheckTextPattern,
    /// Count the selected ranges.
    CountRanges,
    /// Read the text of the one selected range.
    ReadText,
    /// The element has no text pattern: read it as a standard Edit control.
    UseEditControl,
    /// Stop: an error, no usable selection, or the selected text.
    Finish(Result<Option<String>, String>),
}

/// Whether the value pattern lets the element be written: no value pattern,
/// or one that says it is not read-only. A failed read-only query counts as
/// read-only.
pub open spec fn value_pattern_writable(v: Option<Option<bool>>) -> bool {
    match v {
        None => true,
        Some(read_only) => read_only == Some(false),
    }
}

/// Whether an element found through UI Automation may be read and replaced:
/// it is not a password field, it is an edit control, and it is not read-only.
pub fn uia_element_readable(
    is_password: bool,
    is_edit_control: bool,
    value_read_only: Option<Option<bool>>,
) -> (r: bool)
    ensures
        r == (!is_password && is_edit_control && value_pattern_writable(value_read_only)),
{
    let writable = match value_read_only {
        None => true,
        Some(read_only) => match read_only {
            Some(flag) => !flag,
            None => false,
        },
    };
    !is_password && is_edit_control && writable
}

/// Whether exactly one range is selected, the only case that is read.
pub fn uia_range_count_usable(count: i32) -> (r: bool)
    ensures
        r == (count == 1),
{
    count == 1
}

/// The step after each answer in reading a selection through UI Automation.
/// Reading starts by asking whether the focused element is a password field;
/// each action below follows only the answer that lets reading go on, so the
/// text is read only from an edit control that is not a password field, not
/// read-only, has a text pattern and exactly one selected range; and the text
/// read is used only when `uia_selection_usable` holds of it.
pub fn uia_step(event: UiaEvent) -> (action: UiaAction)
    ensures
        (action is CheckControlType) <==> (event matches UiaEvent::PasswordChecked(Ok(false))),
        (action is CheckValuePattern) <==> (event matches UiaEvent::ControlTypeChecked(Ok(true))),
        (action is CheckTextPattern) <==> (event matches UiaEvent::ValuePatternChecked(v)
            && value_pattern_writable(v)),
        (action is CountRanges) <==> (event matches UiaEvent::TextPatternChecked(true)),
        (action is UseEditControl) <==> (event matches UiaEvent::TextPatternChecked(false)),
        (action is ReadText) <==> (event matches UiaEvent::RangesCounted(Ok(n)) && n == 1),
        match event {
            UiaEvent::PasswordChecked(Err(e)) => action == UiaAction::Finish(Err(e)),
            UiaEvent::PasswordChecked(Ok(true)) => action == UiaAction::Finish(Ok(None)),
            UiaEvent::ControlTypeChecked(Err(e)) => action == UiaAction::Finish(Err(e)),
            UiaEvent::ControlTypeChecked(Ok(false)) => action == UiaAction::Finish(Ok(None)),
            UiaEvent::ValuePatternChecked(v) => !value_pattern_writable(v) ==> action
                == UiaAction::Finish(Ok(None)),
            UiaEvent::RangesCounted(Err(e)) => action == UiaAction::Finish(Err(e)),
            UiaEvent::RangesCounted(Ok(n)) => n != 1 ==> action == UiaAction::Finish(Ok(None)),
            UiaEvent::TextRead(Err(e)) => action == UiaAction::Finish(Err(e)),
            UiaEvent::TextRead(Ok(text)) => if text@.len() > 0 && utf16_encode(text@).len()
                <= MAX_SELECTION {
                action == UiaAction::Finish(Ok(Some(text)))
            } else {
                action == UiaAction::Finish(Ok(None))
            },
            _ => true,
        },
{
    match event {
        UiaEvent::PasswordChecked(Err(e)) => UiaAction::Finish(Err(e)),
        UiaEvent::PasswordChecked(Ok(is_password)) => if is_password {
            UiaAction::Finish(Ok(None))
        } else {
            UiaAction::CheckControlType
        },
        UiaEvent::ControlTypeChecked(Err(e)) => UiaAction::Finish(Err(e)),
        UiaEvent::ControlTypeChecked(Ok(is_edit)) => if is_edit {
            UiaAction::CheckValuePattern
        } else {
            UiaAction::Finish(Ok(None))
        },
        UiaEvent::ValuePatternChecked(v) => if uia_element_readable(false, true, v) {
            UiaAction::CheckTextPattern
        } else {
            UiaAction::Finish(Ok(None))
        },
        UiaEvent::TextPatternChecked(found) => if found {
            UiaAction::CountRanges
        } else {
            UiaAction::UseEditControl
        },
        UiaEvent::RangesCounted(Err(e)) => UiaAction::Finish(Err(e)),
        UiaEvent::RangesCounted(Ok(n)) => if uia_range_count_usable(n) {
            UiaAction::ReadText
        } else {
            UiaAction::Finish(Ok(None))
        },
        UiaEvent::TextRead(Err(e)) => UiaAction::Finish(Err(e)),
        UiaEvent::TextRead(Ok(text)) => if uia_selection_usable(text.as_str()) {
            UiaAction::Finish(Ok(Some(text)))
        } else {
            UiaAction::Finish(Ok(None))
        },
    }
}

/// Where reading a standard Edit control's selection stands: each stage
/// waits for the answer to one query.
pub enum EditStage {
    /// Waiting to learn whether the control lies in the foreground window.
    Foreground,
    /// Waiting for the control's window class name.
    Class,
    /// Waiting for the control's window style.
    Style,
    /// Waiting for the selected range.
    Selection,
    /// Waiting for the length of the control's text; the selection is `[start, end)`.
    Length { start: u32, end: u32 },
    /// Waiting for the control's text to be copied out.
    Copy { start: u32, end: u32 },
    /// Waiting for the selection to be read again; `copied` units of `buffer` hold the text.
    Reread { start: u32, end: u32, buffer: Vec<u16>, copied: usize },
    /// Reading has ended.
    Done,
}

/// The answer to the last query made of a standard Edit control.
pub enum EditEvent {
    /// Whether the control is a child of the foreground window.
    ForegroundChecked(bool),
    /// The control's window class name, in UTF-16.
    ClassRead(Vec<u16>),
    /// The control's window style.
    StyleRead(isize),
    /// The selected range `(start, end)`, or why it could not be read.
    SelectionRead(Result<(u32, u32), String>),
    /// The length of the control's text, or why it could not be read.
    LengthRead(Result<usize, String>),
    /// A buffer with the control's text and how many units were copied, or
    /// why the text could not be read.
    TextCopied(Result<(Vec<u16>, usize), String>),
    /// The selected range read again, or why it could not be read.
    SelectionReread(Result<(u32, u32), String>),
}

/// The next query of a standard Edit control, or the end of reading.
pub enum EditAction {
    /// Read the control's window class name.
    ReadClass,
    /// Read the control's window style.
    ReadStyle,
    /// Read the selected range.
    ReadSelection,
    /// Read the length of the control's text.
    ReadLength,
    /// Copy the control's text into a buffer of this many units.
    CopyText(usize),
    /// Read the selected range again.
    RereadSelection,
    /// Stop: an error, no usable selection, or the selected text.
    Finish(Result<Option<String>, String>),
}

/// The error text for a control outside the foreground window.
pub open spec fn not_in_foreground_text() -> Seq<char> {
    "focused editor is not in foreground window"@
}

/// The error text for a control that is not a standard Edit control.
pub open spec fn not_edit_text() -> Seq<char> {
    "focused editor does not expose UIA TextPattern or standard Edit"@
}

/// The error text for an answer that does not fit the stage.
pub open spec fn out_of_order_text() -> Seq<char> {
    "editor answered out of order"@
}

fn error_text(s: &str) -> (r: Result<Option<String>, String>)
    ensures
        r matches Err(e) && e@ == s@,
{
    Err(String::from_str(s))
}

/// The step after each answer in reading a standard Edit control's
/// selection, starting at `EditStage::Foreground` once the control is known.
/// Each query follows only the answer that lets reading go on: the class is
/// read only for a control in the foreground window, the style only of a
/// control of class `Edit`, the selection only of a control that is neither
/// a password field nor read-only, the text length only for a selection that
/// is not empty and ends within `MAX_SELECTION` units, the text only when it
/// reaches the selection's end, into a buffer one unit longer than that end,
/// and the selection is read again only after at least that many units were
/// copied. The selected text is returned only when the selection is the same
/// when read again and its units are valid UTF-16. Any refusal ends reading.
pub fn edit_step(stage: EditStage, event: EditEvent) -> (r: (EditStage, EditAction))
    ensures
        (r.1 is Finish) <==> (r.0 is Done),
        (r.1 is ReadClass) <==> (stage is Foreground && event matches EditEvent::ForegroundChecked(
            true,
        )),
        r.1 is ReadClass ==> r.0 is Class,
        r.1 is ReadStyle ==> r.0 is Style,
        r.1 is ReadSelection ==> r.0 is Selection,
        (r.1 is ReadStyle) <==> (stage is Class && (event matches EditEvent::ClassRead(name)
            && is_edit_class_name(name@))),
        (r.1 is ReadSelection) <==> (stage is Style && (event matches EditEvent::StyleRead(style)
            && style & 0x820isize == 0isize)),
        (r.1 is ReadLength) <==> (stage is Selection && (event matches EditEvent::SelectionRead(
            Ok((s, e)),
        ) && s < e && e <= MAX_SELECTION)),
        r.1 is ReadLength ==> (event matches EditEvent::SelectionRead(Ok((s, e))) && r.0
            == EditStage::Length { start: s, end: e }),
        (r.1 is CopyText) <==> (stage matches EditStage::Length { start, end } && start < end && end
            <= MAX_SELECTION && (event matches EditEvent::LengthRead(Ok(len)) && end <= len)),
        r.1 matches EditAction::CopyText(n) ==> (stage matches EditStage::Length { start, end }
            && n == end + 1 && r.0 == EditStage::Copy { start, end }),
        (r.1 is RereadSelection) <==> (stage matches EditStage::Copy { start, end }
            && (event matches EditEvent::TextCopied(Ok((buffer, copied))) && end <= copied
            && end <= buffer@.len())),
        r.1 is RereadSelection ==> (stage matches EditStage::Copy { start, end }
            && (event matches EditEvent::TextCopied(Ok((buffer, copied))) && r.0
            == EditStage::Reread { start, end, buffer, copied })),
        (r.1 matches EditAction::Finish(Ok(Some(_)))) ==> (stage is Reread),
        match (stage, event) {
            (EditStage::Foreground, EditEvent::ForegroundChecked(false)) => r.1 matches EditAction::Finish(Err(m))
                && m@ == not_in_foreground_text(),
            (EditStage::Class, EditEvent::ClassRead(name)) => !is_edit_class_name(name@) ==> (
            r.1 matches EditAction::Finish(Err(m)) && m@ == not_edit_text()),
            (EditStage::Style, EditEvent::StyleRead(style)) => style & 0x820isize != 0isize ==> r.1
                == EditAction::Finish(Ok(None)),
            (EditStage::Selection, EditEvent::SelectionRead(Err(m))) => r.1 == EditAction::Finish(
                Err(m),
            ),
            (EditStage::Selection, EditEvent::SelectionRead(Ok((s, e)))) => !(s < e && e
                <= MAX_SELECTION) ==> r.1 == EditAction::Finish(Ok(None)),
            (EditStage::Length { .. }, EditEvent::LengthRead(Err(m))) => r.1 == EditAction::Finish(
                Err(m),
            ),
            (EditStage::Length { start, end }, EditEvent::LengthRead(Ok(len))) => if !(start < end
                && end <= MAX_SELECTION) {
                r.1 matches EditAction::Finish(Err(m)) && m@ == out_of_order_text()
            } else {
                end > len ==> (r.1 matches EditAction::Finish(Err(m)) && m@
                    == "selection changed while reading editor"@)
            },
            (EditStage::Copy { .. }, EditEvent::TextCopied(Err(m))) => r.1 == EditAction::Finish(
                Err(m),
            ),
            (EditStage::Copy { start, end }, EditEvent::TextCopied(Ok((buffer, copied)))) => !(end
                <= copied && end <= buffer@.len()) ==> (r.1 matches EditAction::Finish(Err(m))
                && m@ == "editor returned truncated text"@),
            (EditStage::Reread { .. }, EditEvent::SelectionReread(Err(m))) => r.1
                == EditAction::Finish(Err(m)),
            (
                EditStage::Reread { start, end, buffer, copied },
                EditEvent::SelectionReread(Ok((s, e))),
            ) => if s != start || e != end {
                r.1 matches EditAction::Finish(Err(m)) && m@
                    == "selection changed while reading editor"@
            } else if !(start <= end && end <= buffer@.len() && end <= copied) {
                r.1 matches EditAction::Finish(Err(m)) && m@ == out_of_order_text()
            } else {
                match utf16_decode(buffer@.subrange(start as int, end as int)) {
                    Some(text) => r.1 matches EditAction::Finish(Ok(Some(t))) && t@ == text,
                    None => r.1 matches EditAction::Finish(Err(m)) && m@
                        == "editor selection contains invalid UTF-16"@,
                }
            },
            (EditStage::Foreground, EditEvent::ForegroundChecked(true)) => true,
            (EditStage::Class, _) => true,
            (EditStage::Style, _) => true,
            (EditStage::Selection, _) => true,
            (EditStage::Length { .. }, _) => true,
            (EditStage::Copy { .. }, _) => true,
            (EditStage::Reread { .. }, _) => true,
            _ => r.1 matches EditAction::Finish(Err(m)) && m@ == out_of_order_text(),
        },
{
    match (stage, event) {
        (EditStage::Foreground, EditEvent::ForegroundChecked(in_foreground)) => {
            if in_foreground {
                (EditStage::Class, EditAction::ReadClass)
            } else {
                (
                    EditStage::Done,
                    EditAction::Finish(error_text("focused editor is not in foreground window")),
                )
            }
        },
        (EditStage::Class, EditEvent::ClassRead(name)) => {
            if is_edit_class(name.as_slice()) {
                (EditStage::Style, EditAction::ReadStyle)
            } else {
                (
                    EditStage::Done,
                    EditAction::Finish(
                        error_text(
                            "focused editor does not expose UIA TextPattern or standard Edit",
                        ),
                    ),
                )
            }
        },
        (EditStage::Style, EditEvent::StyleRead(style)) => {
            if edit_style_readable(style) {
                (EditStage::Selection, EditAction::ReadSelection)
            } else {
                (EditStage::Done, EditAction::Finish(Ok(None)))
            }
        },
        (EditStage::Selection, EditEvent::SelectionRead(Err(m))) => (
            EditStage::Done,
            EditAction::Finish(Err(m)),
        ),
        (EditStage::Selection, EditEvent::SelectionRead(Ok((start, end)))) => {
            if edit_selection_in_bounds(start, end) {
                (EditStage::Length { start, end }, EditAction::ReadLength)
            } else {
                (EditStage::Done, EditAction::Finish(Ok(None)))
            }
        },
        (EditStage::Length { .. }, EditEvent::LengthRead(Err(m))) => (
            EditStage::Done,
            EditAction::Finish(Err(m)),
        ),
        (EditStage::Length { start, end }, EditEvent::LengthRead(Ok(len))) => {
            if !(start < end && end <= MAX_SELECTION) {
                return (
                    EditStage::Done,
                    EditAction::Finish(error_text("editor answered out of order")),
                );
            }
            match check_text_length(end, len) {
                Ok(()) => (EditStage::Copy { start, end }, EditAction::CopyText(end as usize + 1)),
                Err(e) => (EditStage::Done, EditAction::Finish(error_text(e.message()))),
            }
        },
        (EditStage::Copy { .. }, EditEvent::TextCopied(Err(m))) => (
            EditStage::Done,
            EditAction::Finish(Err(m)),
        ),
        (EditStage::Copy { start, end }, EditEvent::TextCopied(Ok((buffer, copied)))) => {
            if end as usize <= copied && end as usize <= buffer.len() {
                (EditStage::Reread { start, end, buffer, copied }, EditAction::RereadSelection)
            } else {
                (
                    EditStage::Done,
                    EditAction::Finish(error_text(EditReadError::TruncatedText.message())),
                )
            }
        },
        (EditStage::Reread { .. }, EditEvent::SelectionReread(Err(m))) => (
            EditStage::Done,
            EditAction::Finish(Err(m)),
        ),
        (
            EditStage::Reread { start, end, buffer, copied },
            EditEvent::SelectionReread(Ok((latest_start, latest_end))),
        ) => {
            if latest_start != start || latest_end != end {
                return (
                    EditStage::Done,
                    EditAction::Finish(error_text(EditReadError::SelectionChanged.message())),
                );
            }
            if !(start <= end && end as usize <= buffer.len() && end as usize <= copied) {
                return (
                    EditStage::Done,
                    EditAction::Finish(error_text("editor answered out of order")),
                );
            }
            match read_edit_selection(&buffer, copied, start, end, latest_start, latest_end) {
                Ok(text) => (EditStage::Done, EditAction::Finish(Ok(Some(text)))),
                Err(e) => (EditStage::Done, EditAction::Finish(error_text(e.message()))),
            }
        },
        _ => (EditStage::Done, EditAction::Finish(error_text("editor answered out of order"))),
    }
}

/// Whether a selection read through UI Automation is used: it is not empty
/// and it is at most `MAX_SELECTION` UTF-16 code units long.
pub fn uia_selection_usable(text: &str) -> (r: bool)
    ensures
        r == (text@.len() > 0 && utf16_encode(text@).len() <= MAX_SELECTION),
{
    let chars = chars_of(text);
    let n = chars.len();
    if n == 0 {
        return false;
    }
    let mut count: usize = 0;
    let mut i: usize = 0;
    assert(chars@.skip(0) =~= chars@);
    while i < n
        invariant
            n == chars@.len(),
            chars@ == text@,
            i <= n,
            count <= MAX_SELECTION,
            utf16_encode(chars@).len() == count + utf16_encode(chars@.skip(i as int)).len(),
        decreases n - i,
    {
        let ghost rest = chars@.skip(i as int);
        let c = chars[i];
        let width: usize = if (c as u32) < 0x10000 { 1 } else { 2 };
        proof {
            lemma_skip_skip(chars@, i as int, 1);
            assert(rest[0] == c);
            assert(utf16_units(c).len() == width);
            assert(utf16_encode(rest) == utf16_units(c) + utf16_encode(rest.skip(1)));
        }
        count = count + width;
        i = i + 1;
        if count > MAX_SELECTION as usize {
            return false;
        }
    }
    assert(chars@.skip(n as int) =~= Seq::<char>::empty());
    true
}

} // verus!
