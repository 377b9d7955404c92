pub mod support;
pub mod ir;
pub mod arm64;
pub mod java;
pub mod ir2arm64;
pub mod ir2java;
pub mod ir2x86;
pub mod ir2wasm;
pub mod ir2triple;
