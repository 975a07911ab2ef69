//! What the bridge between peripheral and service decides on each turn of
//! its two polling loops: whether the light has changed, and whether a state
//! that the service asks for can be written.

use vstd::prelude::*;
use crate::color::Color;
use crate::messages::MsgColor;

verus! {

/// Takes the word that the peripheral reports for the light. If it is the
/// word of the state held, nothing has changed. Otherwise the word is read
/// into the state and the report for the service is returned.
pub fn observe_color(color: &mut Color, word: u32) -> (report: Option<MsgColor>)
    ensures
        old(color).packed() == Some(word) ==> report is None && *final(color) == *old(color),
        old(color).packed() != Some(word) ==> *final(color) == old(color).updated(word) && (
        report matches Some(message) && message.message@ == "actuator"@ && message.name@
            == "color"@ && message.value == *final(color)),
{
    match color.raw() {
        Some(held) if held == word => None,
        _ => {
            color.update(word);
            Some(MsgColor::new(*color))
        },
    }
}

/// Takes a state that the service asks for. A state that has a word
/// replaces the state held, and the word is returned to be written to the
/// peripheral. A state with the undefined mode is refused and changes nothing.
pub fn accept_color(color: &mut Color, wanted: Color) -> (word: Option<u32>)
    ensures
        word == wanted.packed(),
        *final(color) == if wanted.packed() is Some {
            wanted
        } else {
            *old(color)
        },
{
    let word = wanted.raw();
    if word.is_some() {
        *color = wanted;
    }
    word
}

} // verus!
