use vstd::prelude::*;

verus! {

/// Which of the two parallel texts an operation targets.
#[derive(Clone, Copy, Debug, PartialEq, Eq, Structural)]
pub enum Language {
    Source,
    Target,
}

} // verus!
