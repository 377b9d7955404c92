pub mod util;
pub mod unit;
