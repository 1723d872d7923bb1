# kernel

A small x86_64 microkernel whose logic is verified with Verus.

- `src/` is the verified library: ELF, tar and Multiboot 2 parsing; paging
  entries, descriptor tables and the task state segment; the interrupt
  controllers as sequences of port writes; the kernel log ring buffer; the
  bump allocator; processes, capabilities, IPC endpoints and the system-call
  handlers as transitions of the kernel state; the system-call encoding in
  registers; and the initial user program and its echo process as state
  machines. Every public function states its result in its contract, and
  the laws that tie operations together (a read after a write, a decode
  after an encode, a yield after a switch) are proved as proof functions.
- `app/` holds what needs the machine: port and register access, the
  assembly entry points, global state behind spin locks, reading the boot
  information out of memory, and the loops that perform the system calls
  and port writes that the library decides on.
- `tests/` runs the library on concrete values.
