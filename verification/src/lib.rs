//! The verified core of a set of operating-system components: keyboard
//! decoding, the shell's command history, line editing and job control,
//! byte and key-event streams, CPU-local storage layout, scheduling and
//! run-queue decisions, idle tracking, ELF segment loading and function
//! shims, the random number generator, frame-allocator bitmaps, exception
//! and page-fault decisions, and the vocabulary of file systems.

pub mod keycodes;
pub mod history;
pub mod stdio;
pub mod stream_table;
pub mod cls;
pub mod idle;
pub mod runqueue;
pub mod scheduler;
pub mod words;
pub mod shell;
pub mod job_shell;
pub mod elf_load;
pub mod random;
pub mod net;
pub mod halt;
pub mod condvar;
pub mod console_input;
pub mod boot_info;
pub mod vfs;
pub mod vfs_tree;
pub mod e1000;
pub mod terminal;
pub mod sync_spin;
pub mod shim;
pub mod frame_allocator;
