# rv32emu

An emulator for a subset of 32-bit RISC-V, written in Verus.

- `src/inst.rs` — the instruction set and its decoders for 32-bit words and
  16-bit compressed instructions, each proved equal to a field-by-field
  description of the encoding.
- `src/program.rs` — a stream of halfwords read as raw instructions.
- `src/cpu.rs` — the machine: its mathematical state (`MachineState`), the
  meaning of each instruction (`inst_result`), of a step and of a run, and
  the executable machine proved to follow them. Printing, dumping and system
  calls are returned to the caller as requests.
- `src/elf.rs` — loading an ELF image (parsed with `goblin`) into the
  machine.
- `src/syscall.rs` — translating riscv32 system-call numbers into the host's
  (with the `syscalls` tables).
- `src/debug.rs` — the decisions of the interactive debugger.
- `src/laws.rs` — properties of the machine proved over the specifications.
- `app/main.rs` — the command-line program: reads the file, maps the
  segments, runs the machine and carries out its requests, or runs the
  debugger (`-d`).
