# kernel

The logic of a small 32-bit x86 kernel and its user programs, written in Verus
and verified.

- `src/` — the verified library:
  - `bitmap_allocator` — the first-fit heap allocator over a bitmap of blocks;
  - `memory`, `dtables`, `gdt`, `interrupts` — memory layout from the
    bootloader's map, segment descriptors and tables, interrupt gates;
  - `filesystem` — FAT32 (boot sector, allocation table, folders, long names,
    paths, file reads) over any `Disk`, and the table of open files;
  - `drivers` — what the keyboard, interrupt controllers, text cursor and ATA
    controller are sent, computed from what they were read to hold;
  - `syscall` — decoding system calls and answering `stat` and name lookups;
  - `userland` — the line editor, shell command parsing, listing paths;
  - `text` — string helpers (splitting) and the standard-library calls the
    rest relies on, with their contracts.
- `app/` — the hardware side: port I/O, descriptor-table loading, the heap
  lock, interrupt handlers, the system-call dispatcher and the user programs'
  input and output. It performs what the library decides.
- `tests/` — tests of the library, including a FAT32 image built in memory.
