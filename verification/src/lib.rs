pub mod peripherals;
pub mod model;
pub mod modules;
pub mod sequencer;
pub mod display;
pub mod indicator;
pub mod kaseta;
pub mod store;
pub mod text;
pub mod traky;
