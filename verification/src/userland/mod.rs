pub mod io;
pub mod shell;
pub mod ls;
pub mod args;
pub mod syscalls;
