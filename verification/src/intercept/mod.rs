//! Process-level interception: syscall decisions, vDSO time control and the
//! code that patches a traced process.

pub mod syscall;
pub mod handler;
pub mod control;
pub mod trampoline;
pub mod maps;
pub mod elf;
pub mod process;
pub mod injector;
pub mod seccomp;
pub mod ptrace;
