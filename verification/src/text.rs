//! Comparison of strings with fixed texts.

use vstd::prelude::*;

verus! {

/// Whether a string reads as the given text.
pub(crate) fn is_text(string: &str, text: &str) -> (same: bool)
    ensures
        same == (string@ == text@),
{
    let left = string.to_owned();
    let right = text.to_owned();
    left == right
}

} // verus!
