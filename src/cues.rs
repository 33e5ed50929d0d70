//! What the screen shows during the timeline. Cues are drawn as large-letter
//! banners by figlet-rs in its standard font; a typing slot shows a passage
//! to retype in plain text. One renderer is made at start and handed to
//! whoever shows a cue.

use crate::activity::{countdown_text, instruction_text, Activity};
use crate::plan::PASSAGE_COUNT;
use crate::timeline::Step;
use figlet_rs::FIGlet;
use vstd::prelude::*;

verus! {

#[verifier::external_type_specification]
#[verifier::external_body]
pub struct ExFIGlet(FIGlet);

/// The banner that figlet-rs draws for `msg` in its standard font, `None`
/// when the font has a glyph for none of its characters.
pub uninterp spec fn standard_banner(msg: Seq<char>) -> Option<Seq<char>>;

/// Relies on `FIGlet::standard`: it parses the font bundled with figlet-rs,
/// and fails only if that font does not parse.
#[verifier::external_body]
fn load_standard_font() -> (r: Option<FIGlet>) {
    FIGlet::standard().ok()
}

/// Draws cues in figlet-rs's standard font.
pub struct Renderer {
    font: FIGlet,
}

impl Renderer {
    /// A renderer with the standard font; `None` if the font fails to load.
    pub fn standard() -> (r: Option<Renderer>) {
        match load_standard_font() {
            Some(font) => Some(Renderer { font }),
            None => None,
        }
    }

    /// Relies on `FIGlet::convert` and `FIGure::as_str`: for a font made by
    /// `FIGlet::standard`, the banner depends on the message alone, and an
    /// empty message gives none.
    #[verifier::external_body]
    fn convert(&self, msg: &str) -> (r: Option<String>)
        ensures
            r is Some <==> standard_banner(msg@) is Some,
            r is Some ==> r->0@ == standard_banner(msg@)->0,
            msg@.len() == 0 ==> r is None,
    {
        self.font.convert(msg).map(|f| f.as_str())
    }

    /// What the screen shows for `step`, `None` where it shows nothing new.
    pub fn screen(&self, step: &Step) -> (r: Option<String>)
        requires
            shows_defined(*step),
        ensures
            r is Some <==> screen_of(*step) is Some,
            r is Some ==> r->0@ == screen_of(*step)->0,
    {
        match step {
            Step::Prepare { activity, remaining } => {
                let msg = activity.countdown_message(*remaining);
                self.convert(msg.as_str())
            },
            Step::Instruct { activity, passage } => {
                let mut msg = activity.after_message();
                if *activity == Activity::Typing {
                    msg.append(passage_at(*passage));
                    Some(msg)
                } else {
                    self.convert(msg.as_str())
                }
            },
            Step::Finish => {
                let msg = done_message();
                self.convert(msg)
            },
            _ => None,
        }
    }
}

/// The message shown when the session is over.
pub open spec fn done_text() -> Seq<char> {
    "Done!\nYou are amazing!"@
}

fn done_message() -> (r: &'static str)
    ensures
        r@ == done_text(),
{
    "Done!\nYou are amazing!"
}

/// The steps that the screen can show: a countdown or an instruction of a
/// real activity, with a passage that exists.
pub open spec fn shows_defined(step: Step) -> bool {
    match step {
        Step::Prepare { activity, remaining } => activity != Activity::Other,
        Step::Instruct { activity, passage } => activity != Activity::Other && passage
            < PASSAGE_COUNT,
        _ => true,
    }
}

/// What the screen shows for `step`: the banner of the countdown cue, of the
/// instruction or of the completion message; for typing, the instruction
/// and the passage in plain text; nothing for labels and waits.
pub open spec fn screen_of(step: Step) -> Option<Seq<char>> {
    match step {
        Step::Prepare { activity, remaining } => standard_banner(
            countdown_text(activity, remaining as nat),
        ),
        Step::Instruct { activity, passage } => if activity == Activity::Typing {
            Some(instruction_text(activity) + passage_text(passage as nat))
        } else {
            standard_banner(instruction_text(activity))
        },
        Step::Finish => standard_banner(done_text()),
        _ => None,
    }
}

/// The passages that a typing slot asks the subject to retype.
pub open spec fn passage_text(i: nat) -> Seq<char> {
    if i == 0 {
        "The tortoise and the hare are often seen as representing two different approaches to life. The hare is fast and confident, often rushing ahead, while the tortoise is slow and steady, never losing focus. In the end, the tortoise won the race because it was consistent and patient."@
    } else if i == 1 {
        "Humans have always been fascinated by the stars. We’ve sent spacecraft to distant planets, launched satellites to explore our solar system, and studied the cosmos through telescopes. One day, we may even establish colonies on Mars, but for now, we can only imagine the future of space exploration"@
    } else if i == 2 {
        "The butterfly effect is a concept in chaos theory that suggests that small causes can have large effects. It’s based on the idea that the flap of a butterfly’s wings in one part of the world could set off a chain of events leading to significant changes in another part of the world. It highlights the interconnectedness of all things."@
    } else if i == 3 {
        "Cooking is both a science and an art. From the precise measurements of ingredients to the creativity of combining flavors, there’s something deeply satisfying about preparing a meal. Whether you're baking a cake or grilling a steak, cooking allows for endless experimentation, and every dish is a reflection of the cook’s personality."@
    } else {
        "Music has the power to transport us to another time and place. It can evoke memories, stir emotions, and bring people together. From classical compositions to modern pop songs, music is a universal language that transcends borders and connects us to something greater than ourselves."@
    }
}

/// Passage `i`, one of `PASSAGE_COUNT`.
pub fn passage_at(i: usize) -> (r: &'static str)
    requires
        i < PASSAGE_COUNT,
    ensures
        r@ == passage_text(i as nat),
{
    if i == 0 {
        "The tortoise and the hare are often seen as representing two different approaches to life. The hare is fast and confident, often rushing ahead, while the tortoise is slow and steady, never losing focus. In the end, the tortoise won the race because it was consistent and patient."
    } else if i == 1 {
        "Humans have always been fascinated by the stars. We’ve sent spacecraft to distant planets, launched satellites to explore our solar system, and studied the cosmos through telescopes. One day, we may even establish colonies on Mars, but for now, we can only imagine the future of space exploration"
    } else if i == 2 {
        "The butterfly effect is a concept in chaos theory that suggests that small causes can have large effects. It’s based on the idea that the flap of a butterfly’s wings in one part of the world could set off a chain of events leading to significant changes in another part of the world. It highlights the interconnectedness of all things."
    } else if i == 3 {
        "Cooking is both a science and an art. From the precise measurements of ingredients to the creativity of combining flavors, there’s something deeply satisfying about preparing a meal. Whether you're baking a cake or grilling a steak, cooking allows for endless experimentation, and every dish is a reflection of the cook’s personality."
    } else {
        "Music has the power to transport us to another time and place. It can evoke memories, stir emotions, and bring people together. From classical compositions to modern pop songs, music is a universal language that transcends borders and connects us to something greater than ourselves."
    }
}

} // verus!
