use vstd::prelude::*;

verus! {

/// The direction of one plan step. The plan itself is an externally
/// computed, ordered list of `(Step, migration)` pairs; the engine never
/// reorders it.
#[derive(Clone, Copy, Debug, PartialEq, Eq, Structural)]
pub enum Step {
    Up,
    Down,
}

} // verus!
