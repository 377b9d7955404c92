use irtools::ir::{CompoundContent, CompoundType, Function, FunctionAttr, Signature, StructContent};
use irtools::ir2triple::{linux_elf, macos_macho, macos_macho_arm64};

fn sig() -> Signature {
    Signature::new(vec![], vec![])
}

#[test]
fn elf_symbols() {
    let f = Function::new("run", sig());
    assert_eq!(linux_elf::mangle_func_name(&f), "run");
    let ct = CompoundType::new("Point", CompoundContent::Struct(StructContent::new()));
    let m = Function::new_method("len", sig(), ct);
    assert_eq!(linux_elf::mangle_func_name(&m), "Point.len");
    let mut e = Function::new("start", sig());
    e.push_attr(FunctionAttr::Entry);
    assert_eq!(linux_elf::mangle_func_name(&e), "start");
}

#[test]
fn macho_symbols() {
    let f = Function::new("run", sig());
    assert_eq!(macos_macho::mangle_func_name(&f), "_run");
    assert_eq!(macos_macho_arm64::mangle_func_name(&f), "_run");
    let ct = CompoundType::new("Point", CompoundContent::Struct(StructContent::new()));
    let m = Function::new_method("len", sig(), ct);
    assert_eq!(macos_macho::mangle_func_name(&m), "_Point.len");
    assert_eq!(macos_macho_arm64::mangle_func_name(&m), "_Point.len");
    let mut e = Function::new("start", sig());
    e.push_attr(FunctionAttr::Entry);
    assert_eq!(macos_macho::mangle_func_name(&e), "_main");
    assert_eq!(macos_macho_arm64::mangle_func_name(&e), "_main");
}
