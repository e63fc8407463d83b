# zkm_core

A verified core of a MIPS zkVM executor, written in Verus.

- `src/` is the library. Every function in it is verified by Verus against its contract, except
  the two wrappers around the `elf` crate's parser, `parse_elf_file` and `read_symbols` in
  `elf_loader`, whose contracts are trusted.
  - `opcode`, `register`, `instruction`, `decode`: the instruction set and the decoder of
    32-bit MIPS instruction words.
  - `utils`, `alu`, `memops`, `misc`: the semantics of the arithmetic, memory and
    miscellaneous instructions on words.
  - `state`, `executor`, `syscalls`: the execution state with its memory access records, the
    cycle-by-cycle executor, and the system calls it implements.
  - `cycle_laws`: properties every cycle keeps (the order of memory accesses in time, register
    zero, the flow through delay slots).
  - `program`, `elf_loader`: programs, their initial stack, and loading them from ELF files
    (parsing is done by the `elf` crate behind trusted wrappers).
  - `events`, `dependencies`, `record`: the events a traced execution records, the auxiliary
    ALU events their proofs depend on, and the per-shard records that collect them (a traced
    run records, in order, the events of every cycle whose instruction ran, and each record
    holds the first and last access of every address the CPU accessed while it was open).
  - `memory_instructions`: the row of the memory instructions chip for a load or store.
  - `linearmemory`, `syscall_code`, and a few chip and test-AIR types.
- System calls: the executor runs `HALT`, `WRITE`, `SYS_WRITE`, `SYS_READ` (only the descriptor
  check), `SYS_FCNTL`, `SYS_MMAP`/`SYS_MMAP2`, `COMMIT` and `COMMIT_DEFERRED_PROOFS`. Every other
  call (the precompiles, such as elliptic-curve and Poseidon2 operations, proof verification and
  hints) ends the execution with `UnsupportedSyscall`, so programs that use them do not run.
  Since proof verification is not run, the executor's `deferred_proof_verification` setting
  changes nothing.
- Shards: none of the system calls the executor runs takes extra cycles, so a shard closes when
  its clock reaches the shard size. An executor that also runs the precompiles would close it
  that many cycles earlier.
- Not kept: the execution report (opcode and system call counts), the records' public values,
  the memory checkpoint of the checkpoint mode, hooks, and the early closing of shards on
  estimates of the proof's size.
- `tests/` exercises the library.
- `app/` holds the input and output around it: reading ELF files, the environment, and the
  standard streams.
