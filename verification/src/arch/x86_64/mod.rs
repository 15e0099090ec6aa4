pub mod apic;
pub mod cpu;
pub mod interrupts;
pub mod paging;
pub mod registers;
pub mod syscall;
pub mod user;
