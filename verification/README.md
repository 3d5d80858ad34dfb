# A verified core for a small x86 kernel

This crate holds the logic of a hobby 32-bit x86 kernel as a library whose
functions carry contracts that Verus proves: parsers of the boot
information, ELF executables, ACPI tables and ext2 file systems; the kernel
heap, the page tables and the stack of free physical pages; the descriptor
tables, the PIC, the PIT, the HPET, PCI and ATA register values; the
keyboard, the console and the text screen; processes, tasks, threads and the
schedulers; the tree of mounted file systems; and the system calls'
decisions.  Hardware access stays out of the library: where the kernel reads
or writes a port or a register, the library computes the values and takes
what was read as arguments.

## Layout

- `src/`: the library, one module per part of the kernel (`fs/` holds the
  file systems and the tree of nodes, `acpi/` the ACPI tables, `ffi/` C
  strings).  Laws that span several functions are public proof functions
  next to them, such as `heap::lemma_free_undoes_allocate`.
- `tests/`: tests of the library on concrete values.
- `app/`: the kernel's start-up run over files that stand for what the
  bootloader and the devices hand over, with the port I/O, the timers'
  floating-point periods, the interrupt handlers' I/O, the ATA transfers,
  the loader and the system call handler around the library.
