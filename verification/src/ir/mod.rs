pub mod types;
pub mod global;
pub mod ins;
pub mod unit;
pub mod validate;
pub mod eval;
pub mod display;

pub use types::{ValueType, StorableType, CompoundTypeRef, CompoundType, CompoundContent, StructContent, StructProperty, PropertyIndex, VType, SType};
pub use global::{GlobalIndex, Global, StructPropertyValue, StructValue, CompoundValue, Value, StorableValue};
pub use ins::{Ins, ValuePath, ValuePathOrigin, ValuePathComponent};
pub use unit::{TranslationUnit, Function, FunctionIndex, FunctionAttr, Local, LocalIndex, Signature, BlockMoveDepth};
