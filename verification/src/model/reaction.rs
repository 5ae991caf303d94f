use vstd::prelude::*;

verus! {

/// What the model asks of its surroundings after an action: an edge of the
/// signal graph to add or to remove, or a module of the named class to be
/// instantiated and handed back.
#[derive(Clone, Copy, Debug, PartialEq)]
pub enum Reaction<PI, CI> {
    ConnectPatch(PI, CI),
    RemovePatch(PI, CI),
    InstantiateClass(&'static str),
}

} // verus!
