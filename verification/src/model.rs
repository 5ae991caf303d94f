pub mod reaction;
pub mod reduce;
pub mod state;
