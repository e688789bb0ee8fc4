use vstd::prelude::*;

use crate::parse::TransferSpec;
use crate::render::{permission_string, render_spec};
use crate::transform::transfer_all;

verus! {

/// What a transfer does to one file's mode, with both modes rendered.
#[derive(Debug)]
pub struct ModeChange {
    pub old_mode: u32,
    pub new_mode: u32,
    pub before: String,
    pub after: String,
}

/// Computes the new mode of a file whose current mode is `mode`, and the
/// long-listing form of the mode before and after.
pub fn plan_mode_copy(mode: u32, spec: &TransferSpec) -> (r: ModeChange)
    ensures
        r.old_mode == mode,
        r.new_mode == transfer_all(mode, spec.source, spec.destinations@),
        r.before@ == render_spec(mode),
        r.after@ == render_spec(r.new_mode),
{
    let new_mode = spec.apply(mode);
    let before = permission_string(mode);
    let after = permission_string(new_mode);
    ModeChange { old_mode: mode, new_mode, before, after }
}

} // verus!
