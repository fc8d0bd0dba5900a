//! What a quiz round does with each keypress.
//!
//! The terminal loop itself lives outside the library; this module only
//! decides, for one key, which step the round takes next.

use vstd::prelude::*;

verus! {

/// The step a keypress asks for.
#[derive(Clone, Copy, Debug, PartialEq, Eq, Structural)]
pub enum KeyAction {
    /// The user knows the kanji: ask for its meaning and grade it.
    AnswerYes,
    /// The user does not know it: show the meaning.
    AnswerNo,
    /// Show the character full-screen.
    OpenDisplay,
    /// End the round.
    Quit,
    /// Any other key: keep waiting.
    Ignore,
}

/// The step each key asks for: `y`, `n`, `o` and `q` act, in either
/// case; every other key is ignored.
pub open spec fn spec_key_action(c: char) -> KeyAction {
    if c == 'y' || c == 'Y' {
        KeyAction::AnswerYes
    } else if c == 'n' || c == 'N' {
        KeyAction::AnswerNo
    } else if c == 'o' || c == 'O' {
        KeyAction::OpenDisplay
    } else if c == 'q' || c == 'Q' {
        KeyAction::Quit
    } else {
        KeyAction::Ignore
    }
}

/// The step the pressed key asks for.
pub fn key_action(c: char) -> (r: KeyAction)
    ensures
        r == spec_key_action(c),
{
    if c == 'y' || c == 'Y' {
        KeyAction::AnswerYes
    } else if c == 'n' || c == 'N' {
        KeyAction::AnswerNo
    } else if c == 'o' || c == 'O' {
        KeyAction::OpenDisplay
    } else if c == 'q' || c == 'Q' {
        KeyAction::Quit
    } else {
        KeyAction::Ignore
    }
}

} // verus!
