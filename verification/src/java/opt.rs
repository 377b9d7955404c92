pub mod ins;
