//! The keystrokes that type a text: line breaks normalized, the text encoded
//! in UTF-16, and each code unit pressed and released.

use vstd::prelude::*;

use crate::convert::chars_of;
use crate::utf16::{encode_utf16, lemma_skip_skip, utf16_encode};

verus! {

/// The text `s` with each CR LF pair, and then each remaining CR, turned into LF.
pub open spec fn normalized_breaks(s: Seq<char>) -> Seq<char>
    decreases s.len(),
{
    if s.len() == 0 {
        Seq::empty()
    } else if s[0] == '\r' && s.len() >= 2 && s[1] == '\n' {
        seq!['\n'] + normalized_breaks(s.skip(2))
    } else if s[0] == '\r' {
        seq!['\n'] + normalized_breaks(s.skip(1))
    } else {
        seq![s[0]] + normalized_breaks(s.skip(1))
    }
}

/// One synthetic keyboard event that types a UTF-16 code unit.
#[derive(Clone, Copy, Debug, PartialEq, Eq, Structural)]
pub struct KeyEvent {
    /// The code unit typed.
    pub unit: u16,
    /// `false` for the press, `true` for the release.
    pub key_up: bool,
}

/// A press and a release for every code unit, in order.
pub open spec fn key_events_for(units: Seq<u16>) -> Seq<KeyEvent> {
    Seq::new(2 * units.len(), |k: int| KeyEvent { unit: units[k / 2], key_up: k % 2 == 1 })
}

/// The events that type the text `s`.
pub open spec fn typing_events_for(s: Seq<char>) -> Seq<KeyEvent> {
    key_events_for(utf16_encode(normalized_breaks(s)))
}

/// Turns each CR LF pair of `text`, and then each remaining CR, into LF.
pub fn normalize_line_breaks(text: &Vec<char>) -> (out: Vec<char>)
    ensures
        out@ == normalized_breaks(text@),
{
    let n = text.len();
    let mut out: Vec<char> = Vec::new();
    let mut i: usize = 0;
    assert(text@.skip(0) =~= text@);
    while i < n
        invariant
            n == text@.len(),
            i <= n,
            normalized_breaks(text@) == out@ + normalized_breaks(text@.skip(i as int)),
        decreases n - i,
    {
        let ghost rest = text@.skip(i as int);
        let c = text[i];
        if c == '\r' && i + 1 < n && text[i + 1] == '\n' {
            proof {
                lemma_skip_skip(text@, i as int, 2);
                assert(rest[0] == '\r' && rest[1] == '\n');
            }
            out.push('\n');
            i = i + 2;
        } else if c == '\r' {
            proof {
                lemma_skip_skip(text@, i as int, 1);
                assert(rest[0] == '\r');
                assert(!(rest.len() >= 2 && rest[1] == '\n'));
            }
            out.push('\n');
            i = i + 1;
        } else {
            proof {
                lemma_skip_skip(text@, i as int, 1);
                assert(rest[0] == c);
            }
            out.push(c);
            i = i + 1;
        }
        assert(normalized_breaks(text@) =~= out@ + normalized_breaks(text@.skip(i as int)));
    }
    assert(text@.skip(n as int) =~= Seq::<char>::empty());
    assert(out@ =~= out@ + normalized_breaks(text@.skip(n as int)));
    out
}

/// The keyboard events that type `text`: line breaks normalized to LF, then
/// a press and a release of every UTF-16 code unit.
pub fn typing_events(text: &str) -> (events: Vec<KeyEvent>)
    ensures
        events@ == typing_events_for(text@),
{
    let chars = chars_of(text);
    let normalized = normalize_line_breaks(&chars);
    let units = encode_utf16(&normalized);
    let n = units.len();
    let mut events: Vec<KeyEvent> = Vec::new();
    let mut i: usize = 0;
    while i < n
        invariant
            n == units@.len(),
            i <= n,
            events@.len() == 2 * i,
            forall|k: int|
                0 <= k < 2 * i ==> #[trigger] events@[k] == (KeyEvent {
                    unit: units@[k / 2],
                    key_up: k % 2 == 1,
                }),
        decreases n - i,
    {
        events.push(KeyEvent { unit: units[i], key_up: false });
        events.push(KeyEvent { unit: units[i], key_up: true });
        proof {
            assert forall|k: int| 0 <= k < 2 * (i + 1) implies #[trigger] events@[k] == (KeyEvent {
                unit: units@[k / 2],
                key_up: k % 2 == 1,
            }) by {
                if k >= 2 * i {
                    assert(k / 2 == i);
                }
            }
        }
        i = i + 1;
    }
    assert(events@ =~= key_events_for(units@));
    events
}

} // verus!
