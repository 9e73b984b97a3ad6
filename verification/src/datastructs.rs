pub mod shift_register;

pub use shift_register::ShiftRegister;
