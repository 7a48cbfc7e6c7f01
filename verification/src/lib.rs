use vstd::prelude::*;

pub mod data;
pub mod decimal;
pub mod broker;
pub mod publish;

verus! {

/// What a run does against a broker: publish events, consume them, or both.
#[derive(Clone, Copy, Debug, PartialEq, Eq, Structural)]
pub enum Mode {
    Pub,
    Sub,
}

/// Whether `modes` names `mode` at least once.
pub fn has_mode(modes: &Vec<Mode>, mode: Mode) -> (found: bool)
    ensures
        found == modes@.contains(mode),
{
    let mut i: usize = 0;
    while i < modes.len()
        invariant
            i <= modes.len(),
            forall|j: int| 0 <= j < i ==> modes@[j] != mode,
        decreases modes.len() - i,
    {
        if modes[i] == mode {
            assert(modes@[i as int] == mode);
            return true;
        }
        i += 1;
    }
    false
}

} // verus!
