//! Verified core of a small x86 hobby kernel: register encodings, memory
//! regions, page tables, parsers of boot and disk structures, and the
//! scheduling bookkeeping.
pub mod memory_region;
pub mod bits;
pub mod acpi;
pub mod gdt;
pub mod interrupts;
pub mod vas;
pub mod stack;
pub mod pmm_stack;
pub mod pci;
pub mod port;
pub mod keyboard;
pub mod vga;
pub mod char_device;
pub mod console;
pub mod elf;
pub mod multiboot;
pub mod thread;
pub mod fs;
pub mod process;
pub mod scheduler;
pub mod task;
pub mod task_manager;
pub mod ffi;
pub mod heap;
pub mod syscall;
pub mod pic;
pub mod pit;
pub mod stack_trace;
pub mod arch_info;
pub mod ata;
pub mod disk;
