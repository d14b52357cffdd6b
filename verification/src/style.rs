//! State that decides how an element is styled.

use vstd::prelude::*;

verus! {

/// How the user currently interacts with an element.
#[derive(Clone, Copy, PartialEq, Eq, Debug, Hash, Structural)]
pub enum InteractionStatus {
    Idle,
    Hovered,
    Focused,
}

impl Default for InteractionStatus {
    fn default() -> (r: Self)
        ensures
            r == InteractionStatus::Idle,
    {
        InteractionStatus::Idle
    }
}

} // verus!
