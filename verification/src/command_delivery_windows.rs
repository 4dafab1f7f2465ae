//! Delivering a command into a pane on Windows.

use crate::command_delivery::{Staged, StagedCommand};
use crate::staging::Delivery;
use vstd::prelude::*;

verus! {

/// ConPTY has no canonical line discipline, so every command is typed.
pub fn stage(command: &str, _shell_name: &str, _label: &str) -> (delivery: Delivery)
    ensures
        delivery matches Delivery::Typed(staged) && staged@ == (Staged {
            text: command@,
            payload: None,
        }) && staged.text@ == command@ && staged.payload is None,
{
    Delivery::Typed(StagedCommand::typed(command))
}

} // verus!
