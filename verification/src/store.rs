//! The modules the user interface lists, as names only.

use vstd::prelude::*;

verus! {

pub struct Store {
    pub modules: Vec<Module>,
    pub selected_module: usize,
}

pub struct Module {
    pub name: &'static str,
    pub index: usize,
    pub attributes: Vec<Attribute>,
    pub selected_attribute: usize,
}

pub struct Attribute {
    pub name: &'static str,
}

} // verus!
