pub mod button;
pub mod debounce_buffer;
pub mod detent_rotary;
pub mod gate_output;
pub mod pin;
pub mod rotary;
