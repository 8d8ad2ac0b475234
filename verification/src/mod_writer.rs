//! The step that follows the stored blocks.

use crate::block_writer::{step_file_name, step_file_name_spec};
use vstd::prelude::*;

verus! {

/// Name of the block that the additional step stands for.
pub const MOD_BLOCK_NAME: &'static str = "ALTER_MOD";

/// The name of the file for the additional step, which comes directly
/// behind the `step_count` stored blocks.
pub fn mod_file_name(step_count: usize) -> (name: String)
    requires
        step_count < usize::MAX,
    ensures
        name@ == step_file_name_spec((step_count + 1) as nat, MOD_BLOCK_NAME@),
{
    step_file_name(step_count + 1, MOD_BLOCK_NAME)
}

} // verus!
