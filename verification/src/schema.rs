use vstd::prelude::*;

verus! {

/// The two kinds of tournament round.
#[derive(Clone, Copy, Debug, PartialEq, Eq, Structural)]
pub enum StageType {
    Group,
    Knockout,
}

} // verus!
