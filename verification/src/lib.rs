//! A verified core of a MIPS zkVM executor: instruction decoding, instruction semantics,
//! register and memory tables, and the events a traced execution emits.
pub mod opcode;
pub mod utils;
pub mod register;
pub mod instruction;
pub mod decode;
pub mod alu;
pub mod memops;
pub mod misc;
pub mod events;
pub mod dependencies;
pub mod linearmemory;
pub mod syscall_code;
pub mod program;
pub mod elf_loader;
pub mod state;
pub mod executor;
pub mod syscalls;
pub mod cycle_laws;
pub mod memory_local;
pub mod alu_chips;
pub mod misc_chips;
pub mod stark_testing;
pub mod subproof;
pub mod record;
pub mod memory_instructions;
