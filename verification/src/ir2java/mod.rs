pub mod util;
pub mod unit;
pub mod globals;
pub mod ins;
pub mod trans;
pub mod steps;
pub mod flow;
pub mod class;
