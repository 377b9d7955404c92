pub mod util;
pub mod registerify;
pub mod unit;
pub mod gen;
pub mod ins;
pub mod labels;
pub mod data;
pub mod check;
