//! The question for a one-time code.

use crate::app::Prompt;
use crate::model::Profile;
use crate::text;
use vstd::prelude::*;

verus! {

/// The title of the window.
pub fn title(p: &Profile) -> (r: String)
    ensures
        r@ == "Enter 2FA code for "@ + p@.name,
{
    text::cat("Enter 2FA code for ", &p.name)
}

/// What the question came to, where `entered` is what the user confirmed. A code of nothing but
/// white space is none.
pub fn answer(entered: Option<String>) -> (r: Prompt)
    ensures
        match r {
            Prompt::Code(c) => entered matches Some(s) && c == s && text::trim(s@).len() > 0,
            Prompt::Cancelled => match entered {
                Some(s) => text::trim(s@).len() == 0,
                None => true,
            },
            Prompt::Absent => false,
        },
{
    match entered {
        Some(s) => if text::is_blank(&s) {
            Prompt::Cancelled
        } else {
            Prompt::Code(s)
        },
        None => Prompt::Cancelled,
    }
}

} // verus!
