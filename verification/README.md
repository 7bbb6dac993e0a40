# venix

The core of Venix, a small x86-64 kernel, written in Verus: the logic of
the kernel with its behaviour stated in `requires`/`ensures` contracts and
proved.

- `src/` is the verified library:
  - `memory`: the physical frame allocator (runt and full mode), the kernel
    virtual page allocator, user address spaces, kernel and user allocation,
    and the page arithmetic of copies between kernel and user memory;
  - `process`, `scheduler`: processes, their descriptor and signal tables,
    the initial user stack, ELF loading plans, round-robin scheduling;
  - `sys`: system-call decoding and the calls that only touch the process,
    the virtual file system's pipes and mounts, GPT partitions, ACPI tables
    and interrupt routing, the ACPI lock and event primitives;
  - `fs`: FAT12/16 boot records, allocation tables, directory entries and
    file reads;
  - `drivers`: IDE, PCI, HPET, UHCI/USB descriptors, device enumeration on
    a root-hub port and HID keyboards, the driver table;
  - `console`, `printk`, `dma`, `interrupts`: the terminal line discipline,
    the framebuffer text console, DMA arenas and buffers, I/O APIC and
    handler tables.

  Each module's public proof functions (`lemma_*`) state the laws that tie
  its operations together.
- `tests/` runs the library on concrete values.
- `app/` is the kernel around the library: boot, port and memory-mapped
  I/O (the framebuffer, the serial line, the IDE drives by programmed I/O),
  page-table updates, the system-call entry and the return to tasks.
