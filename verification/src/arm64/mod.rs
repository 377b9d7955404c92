pub mod reloc;
pub mod ins;
pub mod ctx;

pub use reloc::{LocalSymbolID, GlobalSymbolID, RelocationType, Relocation};
pub use ins::{Reg, SizeFlag, ShiftMode, InsRelocMode, InsReloc, InsEncodeResult, Condition, IndexMode, ImmShift, Ins};
pub use ctx::EncodeContext;
