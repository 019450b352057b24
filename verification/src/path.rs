//! A directed, possibly conditional edge between stages.

use vstd::prelude::*;

verus! {

/// A path out of a stage. One with neither `locked_by` nor `hidden_unless`
/// is always traversable and always visible.
#[derive(Clone, Debug)]
pub struct Path {
    /// Short text shown in the stage summary.
    pub description: String,
    /// Longer text shown when the player looks at the path.
    pub detailed_description: String,
    /// Name of the stage the path leads to.
    pub destination: String,
    /// Item the player must carry for the path to open.
    pub locked_by: Option<String>,
    pub locked_text: Option<String>,
    /// Flag that must be set for the path to be visible.
    pub hidden_unless: Option<String>,
    pub hidden_text: Option<String>,
}

} // verus!
