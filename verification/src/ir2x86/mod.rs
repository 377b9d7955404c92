pub mod registerify;
pub mod unit;
