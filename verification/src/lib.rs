//! Resident storage and program loading for a small microcontroller system:
//! a fixed-capacity flash-backed file store, an ELF32 entry resolver and a
//! serial bulk-transfer receiver, together with the command shell that
//! drives them.
//!
//! Nothing here touches the board. What is printed goes to a buffer, the
//! flash is a value, and what only the board can do (a system call, a
//! transfer over the serial line) is handed out for the caller to do.

pub mod stack;
pub mod flash;
pub mod image;
pub mod store;
pub mod file_system;
pub mod elf;
pub mod xmodem;
pub mod ascii;
pub mod bytes;
pub mod print;
pub mod edit_line;
pub mod syscall;
pub mod sys_call;
pub mod shell;
