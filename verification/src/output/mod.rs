pub mod controller;
pub mod display_patterns;
pub mod instruction;
pub mod led_matrix;
pub mod sequence;
pub mod timing;
