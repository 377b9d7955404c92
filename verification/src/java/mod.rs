pub mod io;
pub mod descriptor;
pub mod constantpool;
pub mod classfile;
pub mod attribute;
pub mod ins;
pub mod opt;
pub mod error;

pub use io::BinaryWriter;
pub use descriptor::Descriptor;
pub use constantpool::{Constant, ConstView, Class, FieldRef, MethodRef, InterfaceMethodRef, JavaString, Integer, Float, Long, Double, NameAndType, Utf8, ReferenceKind, MethodHandle, MethodType, InvokeDynamic};
pub use classfile::{ClassAccessFlags, ClassFile, FieldAccessFlags, Field, MethodAccessFlags, Method};
pub use attribute::{Attribute, UnDecodedAttribute, Exception, Code, LocalVariableEntry, LocalVariableTable, InnerClass, InnerClasses, StackMapTable, VerificationTypeInfo, StackMapFrame};
pub use ins::Ins;
pub use error::Error;
