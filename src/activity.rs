//! What the subject is doing, the codes under which it is labelled, and the
//! on-screen cues that announce it.

use crate::text::{decimal, push_decimal};
use vstd::prelude::*;

verus! {

/// An activity of the subject. `Other` marks a transition or countdown and is
/// never chosen by the subject.
#[derive(Clone, Copy, Debug, PartialEq, Eq, Structural)]
pub enum Activity {
    Nothing,
    Typing,
    Scrolling,
    Fidgeting,
    Other,
}

/// The code written to the label stream for `a`.
pub open spec fn code_of(a: Activity) -> char {
    match a {
        Activity::Typing => 't',
        Activity::Scrolling => 's',
        Activity::Fidgeting => 'f',
        Activity::Nothing => 'n',
        Activity::Other => 'o',
    }
}

/// One line of the label stream: `<timestamp_ms>;<code>` and a newline.
pub open spec fn label_line_text(at_ms: nat, a: Activity) -> Seq<char> {
    decimal(at_ms) + seq![';', code_of(a), '\n']
}

/// The cue shown while counting down to `a`.
pub open spec fn prepare_text(a: Activity) -> Seq<char> {
    match a {
        Activity::Typing => "Prepare to type!"@,
        Activity::Nothing => "Prepare to nothing!"@,
        Activity::Scrolling => "Prepare to scroll!"@,
        _ => "Prepare to fidget!"@,
    }
}

/// The instruction shown when the window of `a` opens; for typing it heads
/// the passage to retype.
pub open spec fn instruction_text(a: Activity) -> Seq<char> {
    match a {
        Activity::Typing => "Retype this:\n\n"@,
        Activity::Nothing => "Do nothing!"@,
        Activity::Scrolling => "Scroll!"@,
        _ => "Fidget!"@,
    }
}

/// The countdown cue for `a` with `remaining` ticks left, as
/// `<prepare text> <remaining>`.
pub open spec fn countdown_text(a: Activity, remaining: nat) -> Seq<char> {
    prepare_text(a) + seq![' '] + decimal(remaining)
}

/// What a key press asks of the interactive timeline.
#[derive(Clone, Copy, Debug, PartialEq, Eq, Structural)]
pub enum KeyCommand {
    Ignore,
    Mark(Activity),
    Quit,
}

/// The meaning of key `c` in the interactive timeline.
pub open spec fn key_meaning(c: char) -> KeyCommand {
    if c == 't' {
        KeyCommand::Mark(Activity::Typing)
    } else if c == 's' {
        KeyCommand::Mark(Activity::Scrolling)
    } else if c == 'f' {
        KeyCommand::Mark(Activity::Fidgeting)
    } else if c == 'n' {
        KeyCommand::Mark(Activity::Nothing)
    } else if c == 'q' {
        KeyCommand::Quit
    } else {
        KeyCommand::Ignore
    }
}

impl Activity {
    /// The label code of this activity, as a one-character string.
    pub fn code(&self) -> (r: &'static str)
        ensures
            r@ == seq![code_of(*self)],
    {
        match self {
            Activity::Typing => {
                proof { reveal_strlit("t"); }
                "t"
            },
            Activity::Scrolling => {
                proof { reveal_strlit("s"); }
                "s"
            },
            Activity::Fidgeting => {
                proof { reveal_strlit("f"); }
                "f"
            },
            Activity::Nothing => {
                proof { reveal_strlit("n"); }
                "n"
            },
            Activity::Other => {
                proof { reveal_strlit("o"); }
                "o"
            },
        }
    }

    /// The countdown cue of this activity, without the tick number.
    pub fn before_message(&self) -> (r: String)
        requires
            *self != Activity::Other,
        ensures
            r@ == prepare_text(*self),
    {
        let s = match self {
            Activity::Typing => "Prepare to type!",
            Activity::Nothing => "Prepare to nothing!",
            Activity::Scrolling => "Prepare to scroll!",
            _ => "Prepare to fidget!",
        };
        String::from_str(s)
    }

    /// The instruction that opens the window of this activity.
    pub fn after_message(&self) -> (r: String)
        requires
            *self != Activity::Other,
        ensures
            r@ == instruction_text(*self),
    {
        let s = match self {
            Activity::Typing => "Retype this:\n\n",
            Activity::Nothing => "Do nothing!",
            Activity::Scrolling => "Scroll!",
            _ => "Fidget!",
        };
        String::from_str(s)
    }

    /// The countdown cue of this activity with `remaining` ticks left.
    pub fn countdown_message(&self, remaining: u32) -> (r: String)
        requires
            *self != Activity::Other,
        ensures
            r@ == countdown_text(*self, remaining as nat),
    {
        let mut s = self.before_message();
        proof { reveal_strlit(" "); }
        s.append(" ");
        push_decimal(&mut s, remaining as u64);
        assert(s@ =~= countdown_text(*self, remaining as nat));
        s
    }
}

/// The line that the label stream gets for `a` at `at_ms`.
pub fn label_line(at_ms: u64, a: Activity) -> (r: String)
    ensures
        r@ == label_line_text(at_ms as nat, a),
{
    let mut s = String::new();
    push_decimal(&mut s, at_ms);
    proof {
        reveal_strlit(";");
        reveal_strlit("\n");
    }
    s.append(";");
    s.append(a.code());
    s.append("\n");
    assert(s@ =~= label_line_text(at_ms as nat, a));
    s
}

/// Maps a key of the interactive timeline to its command: `t`, `s`, `f` and
/// `n` mark an activity, `q` quits, and any other key is ignored.
pub fn key_command(c: char) -> (r: KeyCommand)
    ensures
        r == key_meaning(c),
{
    if c == 't' {
        KeyCommand::Mark(Activity::Typing)
    } else if c == 's' {
        KeyCommand::Mark(Activity::Scrolling)
    } else if c == 'f' {
        KeyCommand::Mark(Activity::Fidgeting)
    } else if c == 'n' {
        KeyCommand::Mark(Activity::Nothing)
    } else if c == 'q' {
        KeyCommand::Quit
    } else {
        KeyCommand::Ignore
    }
}

} // verus!
