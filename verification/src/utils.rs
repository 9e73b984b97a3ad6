pub mod buffer_utils;
pub mod math_utils;
