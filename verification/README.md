# layout_fixer

Correction of text typed in the wrong one of the English (US QWERTY) and
Russian (ЙЦУКЕН) keyboard layouts, verified with Verus, and the Windows
program around it.

- `src/layout.rs`: the key rows of both layouts and the per-key mapping.
- `src/case.rs`: the rule that gives letters typed on punctuation keys the
  case of a word written in capitals.
- `src/convert.rs`: conversion of a whole text (`convert`).
- `src/unicode.rs`: std's Unicode properties and case mappings, named.
- `src/utf16.rs`: UTF-16 encoding and decoding.
- `src/typing.rs`: line-break normalization and the key events that type a text.
- `src/selection.rs`: the checks applied to a selection read from an editor,
  and the step functions that order the UI Automation queries and the
  messages sent to a standard Edit control.
- `src/cli.rs`, `src/session.rs`: the command line, the step function of the
  shortcut handler, the wait for Ctrl and Alt, the message filter of the
  message loop, and the notification icon's tooltip and message handling.
- `src/laws.rs`: properties proved of all inputs. The whole-text round trips
  and splitting at a space rest on Unicode facts that two functions there test
  through std; the law of `--lowercase`, and splitting at a space in lowercase
  mode, rest on facts about `str::to_lowercase` over all texts that are
  assumed, not proved or tested.
- `app/`: the Windows program (hotkey, UI Automation, Win32 Edit, SendInput,
  notification icon); it builds only on Windows.
