use std::collections::BTreeMap;

use zkm_core::elf_loader::{load_elf, patch_elf, ElfError, ElfFile, ElfHeader, ElfSymbol, SegmentHeader};
use zkm_core::executor::{Executor, ZKMCoreOpts};
use zkm_core::instruction::Instruction;
use zkm_core::opcode::Opcode;
use zkm_core::program::{Program, INIT_SP};
use zkm_core::register::Register;

fn put16(out: &mut Vec<u8>, v: u16) {
    out.extend_from_slice(&v.to_le_bytes());
}

fn put32(out: &mut Vec<u8>, v: u32) {
    out.extend_from_slice(&v.to_le_bytes());
}

/// A small 32-bit little-endian ELF executable: one loadable executable segment at 0x1000
/// with the given words, and a symbol table naming `runtime.check` at 0x1008.
fn build_elf(machine: u16, entry: u32, words: &[u32], with_symbols: bool) -> Vec<u8> {
    let code_off = 84u32;
    let code_len = 4 * words.len() as u32;
    let symtab_off = code_off + code_len;
    let strtab_off = symtab_off + 32;
    let strtab: &[u8] = b"\0runtime.check\0";
    let shoff = (strtab_off + strtab.len() as u32 + 3) & !3;
    let mut out = Vec::new();
    out.extend_from_slice(&[0x7f, b'E', b'L', b'F', 1, 1, 1, 0, 0, 0, 0, 0, 0, 0, 0, 0]);
    put16(&mut out, 2); // e_type: executable
    put16(&mut out, machine);
    put32(&mut out, 1); // e_version
    put32(&mut out, entry);
    put32(&mut out, 52); // e_phoff
    put32(&mut out, if with_symbols { shoff } else { 0 });
    put32(&mut out, 0); // e_flags
    put16(&mut out, 52);
    put16(&mut out, 32);
    put16(&mut out, 1);
    put16(&mut out, 40);
    put16(&mut out, if with_symbols { 3 } else { 0 });
    put16(&mut out, 0);
    // The program header.
    for v in [1, code_off, 0x1000, 0x1000, code_len, code_len, 5, 4] {
        put32(&mut out, v);
    }
    for w in words {
        put32(&mut out, *w);
    }
    // The symbol table: the null symbol, then runtime.check.
    out.extend_from_slice(&[0u8; 16]);
    put32(&mut out, 1);
    put32(&mut out, 0x1008);
    put32(&mut out, 8);
    out.extend_from_slice(&[0x12, 0]);
    put16(&mut out, 1);
    out.extend_from_slice(strtab);
    while (out.len() as u32) < shoff {
        out.push(0);
    }
    // The section headers: null, .symtab, .strtab.
    out.extend_from_slice(&[0u8; 40]);
    for v in [0, 2, 0, 0, symtab_off, 32, 2, 1, 4, 16] {
        put32(&mut out, v);
    }
    for v in [0, 3, 0, 0, strtab_off, strtab.len() as u32, 0, 0, 1, 0] {
        put32(&mut out, v);
    }
    out
}

const ADDIU_RA_42: u32 = 0x241F_002A;
const SYSCALL: u32 = 0x0000_000C;

#[test]
fn elf_program_loads_and_runs() {
    let elf = build_elf(8, 0x1000, &[ADDIU_RA_42, SYSCALL, 0xdead_beef, 0xdead_beef], true);
    let program = Program::from(&elf).unwrap();
    assert_eq!(program.pc_start, 0x1000);
    assert_eq!(program.pc_base, 0x1000);
    assert_eq!(program.next_pc, 0x1004);
    assert_eq!(program.instructions.len(), 4);
    assert_eq!(program.instructions[0], Instruction::new(Opcode::ADD, 31, 0, 42, false, true));
    // runtime.check is patched to return at once.
    assert_eq!(program.image.get(&0x1008), Some(&0x03e0_0008));
    assert_eq!(program.image.get(&0x100c), Some(&0));
    assert_eq!(program.instructions[2], Instruction::new(Opcode::Jump, 0, 31, 0, false, true));
    // The program break, the heap and the stack.
    assert_eq!(program.image.get(&(Register::BRK as u32)), Some(&0x100c));
    assert_eq!(program.image.get(&(Register::HEAP as u32)), Some(&0x2000_0000));
    assert_eq!(program.image.get(&(Register::SP as u32)), Some(&INIT_SP));
    assert!(program.traceable());

    let mut runtime = Executor::new(program, ZKMCoreOpts::default());
    runtime.run().unwrap();
    assert!(runtime.state.exited);
    assert_eq!(runtime.register(Register::RA), 42);
    // The run closed one record with the events of its two cycles.
    assert_eq!(runtime.records.len(), 1);
    assert_eq!(runtime.records[0].cpu_events.len(), 2);
    assert_eq!(runtime.records[0].instrs_record.syscall_events.len(), 1);
}

#[test]
fn elf_errors() {
    let not_mips = build_elf(3, 0x1000, &[SYSCALL], true);
    assert_eq!(Program::from(&not_mips).err(), Some(ElfError::NotMips));
    let unaligned = build_elf(8, 0x1002, &[SYSCALL], true);
    assert_eq!(Program::from(&unaligned).err(), Some(ElfError::InvalidEntrypoint));
    let no_symbols = build_elf(8, 0x1000, &[SYSCALL], false);
    assert_eq!(Program::from(&no_symbols).err(), Some(ElfError::MissingSymbolTable));
    let truncated = &build_elf(8, 0x1000, &[SYSCALL], true)[..20];
    assert_eq!(Program::from(truncated).err(), Some(ElfError::Parse));
}

fn header() -> ElfHeader {
    ElfHeader { is_elf32: true, e_machine: 8, e_type: 2, e_entry: 0x1000 }
}

fn segment(p_flags: u32, p_offset: u64, p_vaddr: u64, p_filesz: u64, p_memsz: u64) -> SegmentHeader {
    SegmentHeader { p_type: 1, p_flags, p_offset, p_vaddr, p_filesz, p_memsz }
}

#[test]
fn segments_fill_the_image() {
    let code: Vec<u8> = vec![0x0c, 0, 0, 0, 0x11, 0x22, 0x33];
    let file = ElfFile {
        header: header(),
        segments: Some((2, vec![segment(5, 0, 0x1000, 4, 4), segment(4, 4, 0x2000, 3, 12)])),
    };
    let program = load_elf(&file, Some(&vec![]), &code).unwrap();
    // Only the executable segment gives instructions.
    assert_eq!(program.instructions, vec![Instruction::new(Opcode::SYSCALL, 2, 4, 5, false, false)]);
    assert_eq!(program.pc_base, 0x1000);
    // A partial last word takes the bytes there are; the rest of the segment is zero.
    assert_eq!(program.image.get(&0x2000), Some(&0x0033_2211));
    assert_eq!(program.image.get(&0x2004), Some(&0));
    assert_eq!(program.image.get(&0x2008), Some(&0));
    assert_eq!(program.image.get(&(Register::BRK as u32)), Some(&0x2008));
}

#[test]
fn segment_errors() {
    let code: Vec<u8> = vec![0; 8];
    let with = |seg: SegmentHeader| ElfFile { header: header(), segments: Some((1, vec![seg])) };
    let unaligned = with(segment(5, 0, 0x1002, 4, 4));
    assert_eq!(load_elf(&unaligned, Some(&vec![]), &code).err(), Some(ElfError::UnalignedVaddr(0x1002)));
    let too_high = with(segment(5, 0, 0x3F00_0000, 4, 4));
    assert_eq!(load_elf(&too_high, Some(&vec![]), &code).err(), Some(ElfError::AddressTooLarge(0x3F00_0000)));
    let past_file = with(segment(5, 6, 0x1000, 4, 4));
    assert_eq!(load_elf(&past_file, Some(&vec![]), &code).err(), Some(ElfError::InvalidSegmentOffset));
    let huge = with(segment(5, 0, 0x1000, 0x3F00_0000, 4));
    assert_eq!(load_elf(&huge, Some(&vec![]), &code).err(), Some(ElfError::InvalidFileSize));
    let many = ElfFile { header: header(), segments: Some((257, vec![])) };
    assert_eq!(load_elf(&many, Some(&vec![]), &code).err(), Some(ElfError::TooManyProgramHeaders));
    let none = ElfFile { header: header(), segments: None };
    assert_eq!(load_elf(&none, Some(&vec![]), &code).err(), Some(ElfError::MissingSegmentTable));
    let not_exec = ElfFile { header: ElfHeader { e_type: 3, ..header() }, segments: None };
    assert_eq!(load_elf(&not_exec, Some(&vec![]), &code).err(), Some(ElfError::NotExecutable));
    let elf64 = ElfFile { header: ElfHeader { is_elf32: false, ..header() }, segments: None };
    assert_eq!(load_elf(&elf64, Some(&vec![]), &code).err(), Some(ElfError::NotElf32));
    let far_entry = ElfFile { header: ElfHeader { e_entry: 0x1_0000_0000, ..header() }, segments: None };
    assert_eq!(load_elf(&far_entry, Some(&vec![]), &code).err(), Some(ElfError::EntryTooLarge));
}

fn symbol(value: u64, name: &str) -> ElfSymbol {
    ElfSymbol { value, name: Some(name.to_string()) }
}

#[test]
fn symbols_patch_the_runtime() {
    let symbols = vec![
        symbol(0x100, "runtime.gcenable"),
        symbol(0x200, "runtime.MemProfileRate"),
        symbol(0x300, "std::sys_common::thread_info::set"),
        symbol(0x400, "runtime.exit"),
        symbol(0x800, "zkvm.RuntimeExit"),
        symbol(0x900, "main.main"),
        ElfSymbol { value: 0xa00, name: None },
        symbol(0xb00, "std::sys_common::other"),
        symbol(0xc00, "thread_info→sys_commön"),
        symbol(0xd00, "é::sys_common::thread_info::é"),
    ];
    let mut patches = BTreeMap::new();
    patch_elf(&symbols, &mut patches);
    assert_eq!(patches.get(&0x100), Some(&0x03e0_0008));
    assert_eq!(patches.get(&0x104), Some(&0));
    assert_eq!(patches.get(&0x200), Some(&0));
    assert_eq!(patches.get(&0x300), Some(&0x03e0_0008));
    assert_eq!(patches.get(&0x400), Some(&(0x0800_0000 | (0x800 >> 2))));
    assert_eq!(patches.get(&0x404), Some(&0));
    assert_eq!(patches.get(&0x900), None);
    assert_eq!(patches.get(&0xb00), None);
    assert_eq!(patches.get(&0xc00), None);
    assert_eq!(patches.get(&0xd00), Some(&0x03e0_0008));
    assert_eq!(patches.get(&0xd04), Some(&0));
    assert_eq!(patches.len(), 9);
}
