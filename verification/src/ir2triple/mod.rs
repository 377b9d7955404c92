pub mod linux_elf;
pub mod macos_macho;
pub mod macos_macho_arm64;
