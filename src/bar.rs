use vstd::prelude::*;

verus! {

/// Messages of the bar module.
#[derive(Clone, Copy, Debug, PartialEq, Eq, Structural)]
pub enum Msg {
    Tick,
}

} // verus!
