//! Loading a MIPS program from an ELF file: the header checks, the loadable segments, and the
//! patches applied to the runtime's symbols. The `elf` crate parses the file; this module
//! decides what goes where.
use vstd::prelude::*;

use std::collections::BTreeMap;

use crate::decode::spec_decode;
use crate::instruction::Instruction;
use crate::opcode::Opcode;
use crate::program::{initial_stack, patch_stack, Program, MAX_CODE_MEMORY};
use crate::record::{lemma_decoded_traceable, traceable};

use elf::endian::LittleEndian;
use elf::file::Class;
use elf::{ElfBytes, ParseError};

verus! {

/// An error of the `elf` crate's parser.
#[verifier::external_type_specification]
#[verifier::external_body]
pub struct ExParseError(ParseError);

/// The fields of an ELF file header the loader checks.
#[derive(Clone, Copy, Debug, PartialEq, Eq, Structural)]
pub struct ElfHeader {
    /// Whether the file is a 32-bit ELF file.
    pub is_elf32: bool,
    /// The machine the file is for.
    pub e_machine: u16,
    /// The kind of file.
    pub e_type: u16,
    /// The entry point.
    pub e_entry: u64,
}

/// The fields of a program header (a segment) the loader reads.
#[derive(Clone, Copy, Debug, PartialEq, Eq, Structural)]
pub struct SegmentHeader {
    pub p_type: u32,
    pub p_flags: u32,
    pub p_offset: u64,
    pub p_vaddr: u64,
    pub p_filesz: u64,
    pub p_memsz: u64,
}

/// What the loader reads of an ELF file's headers: the file header, and the number of entries
/// of the program header table and the entries read from it, if the file has one.
pub struct ElfFile {
    pub header: ElfHeader,
    pub segments: Option<(usize, Vec<SegmentHeader>)>,
}

/// A symbol of an ELF file: its value, and its name if the string table holds a valid one.
pub struct ElfSymbol {
    pub value: u64,
    pub name: Option<String>,
}

/// The plain values of an `ElfFile`.
pub open spec fn elf_file_view(f: ElfFile) -> (ElfHeader, Option<(usize, Seq<SegmentHeader>)>) {
    (f.header, match f.segments {
        Some((n, v)) => Some((n, v@)),
        None => None,
    })
}

/// The plain values of a symbol.
pub open spec fn symbol_view(s: ElfSymbol) -> (u64, Option<Seq<char>>) {
    (s.value, match s.name {
        Some(name) => Some(name@),
        None => None,
    })
}

/// What `ElfBytes::minimal_parse` reads of a file's header and program header table; `None`
/// where it fails.
pub uninterp spec fn parsed_elf(elf_code: Seq<u8>) -> Option<(ElfHeader, Option<(usize, Seq<SegmentHeader>)>)>;

/// The symbols `ElfBytes::symbol_table` reads from a file, with their names from its string
/// table; `None` where the file fails to parse or has no symbol table.
pub uninterp spec fn parsed_symbols(elf_code: Seq<u8>) -> Option<Seq<(u64, Option<Seq<char>>)>>;

/// Parses an ELF file with `ElfBytes::minimal_parse` and reads its header fields and its program
/// header table (`ElfBytes::segments`). The result is a function of the bytes alone, named
/// `parsed_elf`; which files the parser accepts is not stated here.
#[verifier::external_body]
fn parse_elf_file(elf_code: &[u8]) -> (r: Result<ElfFile, ParseError>)
    ensures
        r is Ok <==> parsed_elf(elf_code@) is Some,
        r is Ok ==> parsed_elf(elf_code@) == Some(elf_file_view(r->Ok_0)),
{
    let elf = ElfBytes::<LittleEndian>::minimal_parse(elf_code)?;
    let h = &elf.ehdr;
    let header = ElfHeader { is_elf32: h.class == Class::ELF32, e_machine: h.e_machine, e_type: h.e_type, e_entry: h.e_entry };
    let segments = elf.segments().map(|t| (t.len(), t.iter().map(|p| SegmentHeader {
        p_type: p.p_type, p_flags: p.p_flags, p_offset: p.p_offset, p_vaddr: p.p_vaddr, p_filesz: p.p_filesz, p_memsz: p.p_memsz,
    }).collect()));
    Ok(ElfFile { header, segments })
}

/// Reads the symbols of an ELF file (`ElfBytes::symbol_table`) and looks up each name in the
/// string table (`StringTable::get`). The result is a function of the bytes alone, named
/// `parsed_symbols`; `None` where the file fails to parse or has no symbol table.
#[verifier::external_body]
fn read_symbols(elf_code: &[u8]) -> (r: Option<Vec<ElfSymbol>>)
    ensures
        r is Some <==> parsed_symbols(elf_code@) is Some,
        r is Some ==> parsed_symbols(elf_code@) == Some(r->Some_0@.map_values(|s: ElfSymbol| symbol_view(s))),
{
    let elf = ElfBytes::<LittleEndian>::minimal_parse(elf_code).ok()?;
    let (symbols, strings) = elf.symbol_table().ok()??;
    Some(symbols.iter().map(|s| ElfSymbol { value: s.st_value, name: strings.get(s.st_name as usize).ok().map(|n| n.to_string()) }).collect())
}

} // verus!

verus! {

/// The instruction `jr $ra`, which returns at once.
pub const RETURN_INSTRUCTION: u32 = 0x03e0_0008;

/// The instruction `nop`.
pub const NOP_INSTRUCTION: u32 = 0;

/// Whether `pattern` occurs in `s`.
pub open spec fn occurs_in(s: Seq<char>, pattern: Seq<char>) -> bool {
    exists|i: int| 0 <= i && i + pattern.len() <= s.len() && #[trigger] s.subrange(i, i + pattern.len()) == pattern
}

/// The characters of a string.
fn chars_of(s: &str) -> (r: Vec<char>)
    ensures
        r@ == s@,
{
    let n = s.unicode_len();
    let mut v: Vec<char> = Vec::new();
    let mut i: usize = 0;
    while i < n
        invariant
            n == s@.len(),
            i <= n,
            v@ == s@.subrange(0, i as int),
        decreases n - i,
    {
        v.push(s.get_char(i));
        i = i + 1;
        proof {
            assert(v@ =~= s@.subrange(0, i as int));
        }
    }
    proof {
        assert(v@ =~= s@);
    }
    v
}

/// Whether `p` matches `s` from position `start`.
fn matches_at(s: &Vec<char>, p: &Vec<char>, start: usize) -> (r: bool)
    requires
        start + p@.len() <= s@.len(),
    ensures
        r == (s@.subrange(start as int, start + p@.len()) == p@),
{
    let n = s.len();
    let mut j: usize = 0;
    while j < p.len()
        invariant
            n == s@.len(),
            start + p@.len() <= s@.len(),
            j <= p@.len(),
            forall|k: int| 0 <= k < j ==> s@[start + k] == p@[k],
        decreases p@.len() - j,
    {
        if s[start + j] != p[j] {
            proof {
                assert(s@.subrange(start as int, start + p@.len())[j as int] != p@[j as int]);
            }
            return false;
        }
        j = j + 1;
    }
    proof {
        assert(s@.subrange(start as int, start + p@.len()) =~= p@);
    }
    true
}

/// Whether `pattern` occurs in `s`, as `str::contains` with a string pattern: some sub-slice
/// of `s` is `pattern`.
fn str_contains(s: &str, pattern: &str) -> (r: bool)
    ensures
        r == occurs_in(s@, pattern@),
{
    let sv = chars_of(s);
    let pv = chars_of(pattern);
    if pv.len() > sv.len() {
        return false;
    }
    let last = sv.len() - pv.len();
    let mut i: usize = 0;
    loop
        invariant
            sv@ == s@,
            pv@ == pattern@,
            last == sv@.len() - pv@.len(),
            i <= last,
            forall|k: int| 0 <= k < i ==> #[trigger] sv@.subrange(k, k + pv@.len()) != pv@,
        decreases last - i,
    {
        if matches_at(&sv, &pv, i) {
            return true;
        }
        if i == last {
            return false;
        }
        i = i + 1;
    }
}

/// The runtime functions whose body a loaded program gets replaced with an immediate return:
/// functions of the Go runtime and of libraries that the zkVM does not need, and the thread
/// information setup of Rust's standard library.
pub open spec fn is_skipped_function(name: Seq<char>) -> bool {
    ||| name == "runtime.gcenable"@
    ||| name == "runtime.init.5"@
    ||| name == "runtime.main.func1"@
    ||| name == "runtime.deductSweepCredit"@
    ||| name == "runtime.(*gcControllerState).commit"@
    ||| name == "github.com/prometheus/client_golang/prometheus.init"@
    ||| name == "github.com/prometheus/client_golang/prometheus.init.0"@
    ||| name == "github.com/prometheus/procfs.init"@
    ||| name == "github.com/prometheus/common/model.init"@
    ||| name == "github.com/prometheus/client_model/go.init"@
    ||| name == "github.com/prometheus/client_model/go.init.0"@
    ||| name == "github.com/prometheus/client_model/go.init.1"@
    ||| name == "flag.init"@
    ||| name == "runtime.check"@
    ||| name == "runtime.checkfds"@
    ||| name == "_dl_discover_osversion"@
    ||| name == "internal/runtime/exithook.Run"@
    ||| (occurs_in(name, "sys_common"@) && occurs_in(name, "thread_info"@))
}

/// The address a symbol value names: its low 32 bits.
pub open spec fn symbol_address(value: u64) -> u32 {
    (value % 0x1_0000_0000) as u32
}

/// The patches of one symbol: a skipped function returns at once (a return and a nop in its
/// delay slot), and the memory profiling rate is set to 0.
pub open spec fn symbol_patches(list: Map<u32, u32>, value: u64, name: Seq<char>) -> Map<u32, u32> {
    let addr = symbol_address(value);
    if is_skipped_function(name) {
        list.insert(addr, RETURN_INSTRUCTION).insert(crate::utils::word_of(addr + 4), NOP_INSTRUCTION)
    } else if name == "runtime.MemProfileRate"@ {
        list.insert(addr, NOP_INSTRUCTION)
    } else {
        list
    }
}

/// The patches of the first `n` symbols, on top of `list`, with the addresses of the Go
/// runtime's exit function and of the zkVM's replacement for it (0 where the symbols name none;
/// the last one named counts).
pub open spec fn symbols_patches(list: Map<u32, u32>, symbols: Seq<(u64, Option<Seq<char>>)>, n: nat) -> (Map<u32, u32>, u32, u32)
    decreases n,
{
    if n == 0 {
        (list, 0, 0)
    } else {
        let (l, exit_old, exit_new) = symbols_patches(list, symbols, (n - 1) as nat);
        let (value, name) = symbols[n - 1];
        match name {
            None => (l, exit_old, exit_new),
            Some(name) => (
                symbol_patches(l, value, name),
                if name == "runtime.exit"@ { symbol_address(value) } else { exit_old },
                if name == "zkvm.RuntimeExit"@ { symbol_address(value) } else { exit_new },
            ),
        }
    }
}

/// The patches of all symbols: those of each symbol, and where both exit functions are named,
/// a jump from the runtime's exit function to the zkVM's (a `j` and a nop in its delay slot).
pub open spec fn elf_patches(list: Map<u32, u32>, symbols: Seq<(u64, Option<Seq<char>>)>) -> Map<u32, u32> {
    let (l, exit_old, exit_new) = symbols_patches(list, symbols, symbols.len());
    if exit_new != 0 && exit_old != 0 {
        l.insert(exit_old, 0x0800_0000 | (exit_new >> 2u32)).insert(crate::utils::word_of(exit_old + 4), NOP_INSTRUCTION)
    } else {
        l
    }
}

fn name_is(name: &String, literal: &str) -> (r: bool)
    ensures
        r == (name@ == literal@),
{
    *name == String::from_str(literal)
}

fn skipped_function(name: &String) -> (r: bool)
    ensures
        r == is_skipped_function(name@),
{
    name_is(name, "runtime.gcenable") || name_is(name, "runtime.init.5") || name_is(name, "runtime.main.func1")
        || name_is(name, "runtime.deductSweepCredit") || name_is(name, "runtime.(*gcControllerState).commit")
        || name_is(name, "github.com/prometheus/client_golang/prometheus.init")
        || name_is(name, "github.com/prometheus/client_golang/prometheus.init.0")
        || name_is(name, "github.com/prometheus/procfs.init")
        || name_is(name, "github.com/prometheus/common/model.init")
        || name_is(name, "github.com/prometheus/client_model/go.init")
        || name_is(name, "github.com/prometheus/client_model/go.init.0")
        || name_is(name, "github.com/prometheus/client_model/go.init.1") || name_is(name, "flag.init")
        || name_is(name, "runtime.check") || name_is(name, "runtime.checkfds")
        || name_is(name, "_dl_discover_osversion") || name_is(name, "internal/runtime/exithook.Run")
        || (str_contains(name.as_str(), "sys_common") && str_contains(name.as_str(), "thread_info"))
}

/// Adds to `patch_list` the patches the symbols of a program call for: skipped functions return
/// at once, the memory profiling rate is 0, and the Go runtime's exit jumps to the zkVM's.
pub fn patch_elf(symbols: &Vec<ElfSymbol>, patch_list: &mut BTreeMap<u32, u32>)
    ensures
        final(patch_list)@ == elf_patches(old(patch_list)@, symbols@.map_values(|s: ElfSymbol| symbol_view(s))),
{
    let ghost views = symbols@.map_values(|s: ElfSymbol| symbol_view(s));
    let mut exit_new: u32 = 0;
    let mut exit_old: u32 = 0;
    let mut i: usize = 0;
    while i < symbols.len()
        invariant
            i <= symbols@.len(),
            views == symbols@.map_values(|s: ElfSymbol| symbol_view(s)),
            (patch_list@, exit_old, exit_new) == symbols_patches(old(patch_list)@, views, i as nat),
        decreases symbols@.len() - i,
    {
        let symbol = &symbols[i];
        match &symbol.name {
            None => {},
            Some(name) => {
                let addr = (symbol.value % 0x1_0000_0000) as u32;
                if skipped_function(name) {
                    patch_list.insert(addr, RETURN_INSTRUCTION);
                    patch_list.insert(addr.wrapping_add(4), NOP_INSTRUCTION);
                } else if name_is(name, "runtime.MemProfileRate") {
                    patch_list.insert(addr, NOP_INSTRUCTION);
                }
                if name_is(name, "runtime.exit") {
                    exit_old = addr;
                }
                if name_is(name, "zkvm.RuntimeExit") {
                    exit_new = addr;
                }
            },
        }
        i = i + 1;
    }
    if exit_new != 0 && exit_old != 0 {
        patch_list.insert(exit_old, 0x0800_0000 | (exit_new >> 2u32));
        patch_list.insert(exit_old.wrapping_add(4), NOP_INSTRUCTION);
    }
}

} // verus!

verus! {

/// The reasons a program cannot be loaded from an ELF file.
#[derive(Clone, Copy, Debug, PartialEq, Eq, Structural)]
pub enum ElfError {
    /// The parser could not read the file.
    Parse,
    /// The file is not a 32-bit ELF file.
    NotElf32,
    /// The file is not for MIPS.
    NotMips,
    /// The file is not an executable.
    NotExecutable,
    /// The file has no symbol table, so the runtime cannot be patched.
    MissingSymbolTable,
    /// The entry point is larger than 32 bits.
    EntryTooLarge,
    /// The entry point lies past the code memory or is not word-aligned.
    InvalidEntrypoint,
    /// The file has no program header table.
    MissingSegmentTable,
    /// The file has more than 256 program headers.
    TooManyProgramHeaders,
    /// A segment's size in the file is larger than 32 bits.
    FileSizeTooLarge,
    /// A segment's size in the file reaches the end of the code memory.
    InvalidFileSize,
    /// A segment's size in memory is larger than 32 bits.
    MemSizeTooLarge,
    /// A segment's size in memory reaches the end of the code memory.
    InvalidMemSize,
    /// A segment's address is larger than 32 bits.
    VaddrTooLarge,
    /// A segment's address is not word-aligned.
    UnalignedVaddr(u32),
    /// A segment's offset in the file is larger than 32 bits.
    OffsetTooLarge,
    /// A word of a segment lies past 2^32.
    InvalidSegmentVaddr,
    /// A word of a segment lies past the code memory.
    AddressTooLarge(u32),
    /// A byte of a segment lies past the end of the file.
    InvalidSegmentOffset,
}

/// The machine number of MIPS.
pub const EM_MIPS: u16 = 8;

/// The file type of an executable.
pub const ET_EXEC: u16 = 2;

/// The segment type of a loadable segment.
pub const PT_LOAD: u32 = 1;

/// The segment flag of an executable segment.
pub const PF_X: u32 = 1;

/// The most program headers a file may have.
pub const MAX_PROGRAM_HEADERS: usize = 256;

/// The initial top of the heap.
pub const INITIAL_HEAP: u32 = 0x2000_0000;

/// The word at `start` of `code` made of its first `len` bytes, little-endian.
pub open spec fn le_word(code: Seq<u8>, start: int, len: nat) -> u32
    decreases len,
{
    if len == 0 {
        0
    } else {
        le_word(code, start, (len - 1) as nat) | ((code[start + len - 1] as u32) << (8 * (len - 1)) as u32)
    }
}

/// The 32-bit fields of a loadable segment: its size in the file and in memory, its address
/// and its offset in the file; or the error of the first field out of range.
pub open spec fn segment_fields(seg: SegmentHeader) -> Result<(u32, u32, u32, u32), ElfError> {
    if seg.p_filesz > u32::MAX {
        Err(ElfError::FileSizeTooLarge)
    } else if seg.p_filesz >= MAX_CODE_MEMORY {
        Err(ElfError::InvalidFileSize)
    } else if seg.p_memsz > u32::MAX {
        Err(ElfError::MemSizeTooLarge)
    } else if seg.p_memsz >= MAX_CODE_MEMORY {
        Err(ElfError::InvalidMemSize)
    } else if seg.p_vaddr > u32::MAX {
        Err(ElfError::VaddrTooLarge)
    } else if seg.p_vaddr % 4 != 0 {
        Err(ElfError::UnalignedVaddr(seg.p_vaddr as u32))
    } else if seg.p_offset > u32::MAX {
        Err(ElfError::OffsetTooLarge)
    } else {
        Ok((seg.p_filesz as u32, seg.p_memsz as u32, seg.p_vaddr as u32, seg.p_offset as u32))
    }
}

/// What loading has built so far: the memory image, the words of the executable segments in
/// order, the highest address loaded, and the lowest address of an executable segment.
pub type LoadState = (Map<u32, u32>, Seq<u32>, u32, u32);

/// Loads the word at offset `i` of a segment with the given fields: past the end of the file
/// part it is 0; otherwise it is the patch for its address, or the file's bytes there (at most
/// four, little-endian). The words of an executable segment are also instructions.
pub open spec fn load_word(st: LoadState, fields: (u32, u32, u32, u32), exec: bool, i: u32, patch: Map<u32, u32>, code: Seq<u8>) -> Result<LoadState, ElfError> {
    let (image, words, hiaddr, base) = st;
    let (file_size, mem_size, vaddr, offset) = fields;
    if vaddr + i > u32::MAX {
        Err(ElfError::InvalidSegmentVaddr)
    } else {
        let addr = (vaddr + i) as u32;
        let hi = if addr > hiaddr { addr } else { hiaddr };
        if addr >= MAX_CODE_MEMORY {
            Err(ElfError::AddressTooLarge(addr))
        } else if i >= file_size {
            Ok((image.insert(addr, 0), words, hi, base))
        } else {
            let len: nat = if file_size - i < 4 { (file_size - i) as nat } else { 4 };
            if !patch.contains_key(addr) && offset + i + len > code.len() {
                Err(ElfError::InvalidSegmentOffset)
            } else {
                let word = if patch.contains_key(addr) { patch[addr] } else { le_word(code, offset + i, len) };
                Ok((image.insert(addr, word), if exec { words.push(word) } else { words }, hi, base))
            }
        }
    }
}

/// The first `k` words of a segment.
pub open spec fn load_words(st: LoadState, fields: (u32, u32, u32, u32), exec: bool, patch: Map<u32, u32>, code: Seq<u8>, k: nat) -> Result<LoadState, ElfError>
    decreases k,
{
    if k == 0 {
        Ok(st)
    } else {
        match load_words(st, fields, exec, patch, code, (k - 1) as nat) {
            Ok(s) => load_word(s, fields, exec, (4 * (k - 1)) as u32, patch, code),
            Err(e) => Err(e),
        }
    }
}

/// Loads one segment: segments that are not loadable are skipped; an executable segment lowers
/// the base address to its own; then each of its words, one per four bytes of its size in
/// memory.
pub open spec fn load_segment(st: LoadState, seg: SegmentHeader, patch: Map<u32, u32>, code: Seq<u8>) -> Result<LoadState, ElfError> {
    if seg.p_type != PT_LOAD {
        Ok(st)
    } else {
        match segment_fields(seg) {
            Err(e) => Err(e),
            Ok(fields) => {
                let exec = seg.p_flags & PF_X != 0;
                let (image, words, hiaddr, base) = st;
                let base2 = if exec && base > fields.2 { fields.2 } else { base };
                load_words((image, words, hiaddr, base2), fields, exec, patch, code, ((fields.1 as nat + 3) / 4) as nat)
            },
        }
    }
}

/// The first `n` segments.
pub open spec fn load_segments(st: LoadState, segs: Seq<SegmentHeader>, patch: Map<u32, u32>, code: Seq<u8>, n: nat) -> Result<LoadState, ElfError>
    decreases n,
{
    if n == 0 {
        Ok(st)
    } else {
        match load_segments(st, segs, patch, code, (n - 1) as nat) {
            Ok(s) => load_segment(s, segs[n - 1], patch, code),
            Err(e) => Err(e),
        }
    }
}

} // verus!

verus! {

proof fn lemma_load_words_error_stays(st: LoadState, fields: (u32, u32, u32, u32), exec: bool, patch: Map<u32, u32>, code: Seq<u8>, k: nat, n: nat)
    requires
        k <= n,
        load_words(st, fields, exec, patch, code, k) is Err,
    ensures
        load_words(st, fields, exec, patch, code, n) == load_words(st, fields, exec, patch, code, k),
    decreases n,
{
    if k < n {
        lemma_load_words_error_stays(st, fields, exec, patch, code, k, (n - 1) as nat);
    }
}

proof fn lemma_load_segments_error_stays(st: LoadState, segs: Seq<SegmentHeader>, patch: Map<u32, u32>, code: Seq<u8>, k: nat, n: nat)
    requires
        k <= n,
        load_segments(st, segs, patch, code, k) is Err,
    ensures
        load_segments(st, segs, patch, code, n) == load_segments(st, segs, patch, code, k),
    decreases n,
{
    if k < n {
        lemma_load_segments_error_stays(st, segs, patch, code, k, (n - 1) as nat);
    }
}

fn read_le_word(code: &[u8], start: usize, len: usize) -> (r: u32)
    requires
        start + len <= code@.len(),
        len <= 4,
    ensures
        r == le_word(code@, start as int, len as nat),
{
    let total = code.len();
    let mut word: u32 = 0;
    let mut j: usize = 0;
    while j < len
        invariant
            j <= len <= 4,
            start + len <= code@.len(),
            total == code@.len(),
            word == le_word(code@, start as int, j as nat),
        decreases len - j,
    {
        word = word | ((code[start + j] as u32) << ((j as u32) * 8));
        j = j + 1;
    }
    word
}

/// The memory image, the instruction words, the highest address and the base address that
/// loading the segments of a file gives, from an empty image, no words, highest address 0 and
/// base address `u32::MAX`.
pub open spec fn initial_load_state() -> LoadState {
    (Map::empty(), Seq::empty(), 0, u32::MAX)
}

/// Loads the loadable segments of a file.
fn load_all_segments(segs: &Vec<SegmentHeader>, patch: &BTreeMap<u32, u32>, code: &[u8]) -> (r: Result<(BTreeMap<u32, u32>, Vec<u32>, u32, u32), ElfError>)
    ensures
        match load_segments(initial_load_state(), segs@, patch@, code@, segs@.len()) {
            Ok(st) => r is Ok && st == (r->Ok_0.0@, r->Ok_0.1@, r->Ok_0.2, r->Ok_0.3),
            Err(e) => r == Err::<(BTreeMap<u32, u32>, Vec<u32>, u32, u32), ElfError>(e),
        },
{
    let mut image: BTreeMap<u32, u32> = BTreeMap::new();
    let mut words: Vec<u32> = Vec::new();
    let mut hiaddr: u32 = 0;
    let mut base: u32 = u32::MAX;
    let mut n: usize = 0;
    while n < segs.len()
        invariant
            n <= segs@.len(),
            load_segments(initial_load_state(), segs@, patch@, code@, n as nat) == Ok::<LoadState, ElfError>((image@, words@, hiaddr, base)),
        decreases segs@.len() - n,
    {
        let seg = segs[n];
        proof {
            assert(load_segments(initial_load_state(), segs@, patch@, code@, (n + 1) as nat) == load_segment((image@, words@, hiaddr, base), seg, patch@, code@));
        }
        if seg.p_type == PT_LOAD {
            let bad = if seg.p_filesz > u32::MAX as u64 {
                Some(ElfError::FileSizeTooLarge)
            } else if seg.p_filesz >= MAX_CODE_MEMORY as u64 {
                Some(ElfError::InvalidFileSize)
            } else if seg.p_memsz > u32::MAX as u64 {
                Some(ElfError::MemSizeTooLarge)
            } else if seg.p_memsz >= MAX_CODE_MEMORY as u64 {
                Some(ElfError::InvalidMemSize)
            } else if seg.p_vaddr > u32::MAX as u64 {
                Some(ElfError::VaddrTooLarge)
            } else if seg.p_vaddr % 4 != 0 {
                Some(ElfError::UnalignedVaddr(seg.p_vaddr as u32))
            } else if seg.p_offset > u32::MAX as u64 {
                Some(ElfError::OffsetTooLarge)
            } else {
                None
            };
            if let Some(e) = bad {
                proof {
                    lemma_load_segments_error_stays(initial_load_state(), segs@, patch@, code@, (n + 1) as nat, segs@.len());
                }
                return Err(e);
            }
            let file_size = seg.p_filesz as u32;
            let mem_size = seg.p_memsz as u32;
            let vaddr = seg.p_vaddr as u32;
            let offset = seg.p_offset as u32;
            let exec = seg.p_flags & PF_X != 0;
            if exec && base > vaddr {
                base = vaddr;
            }
            let ghost fields = (file_size, mem_size, vaddr, offset);
            let ghost start: LoadState = (image@, words@, hiaddr, base);
            let ghost mut k: nat = 0;
            let mut i: u32 = 0;
            while i < mem_size
                invariant
                    i == 4 * k,
                    k > 0 ==> 4 * (k - 1) < mem_size,
                    mem_size < MAX_CODE_MEMORY,
                    file_size < MAX_CODE_MEMORY,
                    fields == (file_size, mem_size, vaddr, offset),
                    load_words(start, fields, exec, patch@, code@, k) == Ok::<LoadState, ElfError>((image@, words@, hiaddr, base)),
                    n < segs@.len(),
                    load_segments(initial_load_state(), segs@, patch@, code@, (n + 1) as nat) == load_words(start, fields, exec, patch@, code@, ((mem_size as nat + 3) / 4) as nat),
                decreases mem_size + 4 - i,
            {
                proof {
                    assert(load_words(start, fields, exec, patch@, code@, k + 1) == load_word((image@, words@, hiaddr, base), fields, exec, i, patch@, code@));
                    assert(k + 1 <= (mem_size as nat + 3) / 4);
                }
                let addr = match vaddr.checked_add(i) {
                    Some(a) => a,
                    None => {
                        proof {
                            lemma_load_words_error_stays(start, fields, exec, patch@, code@, k + 1, ((mem_size as nat + 3) / 4) as nat);
                            lemma_load_segments_error_stays(initial_load_state(), segs@, patch@, code@, (n + 1) as nat, segs@.len());
                        }
                        return Err(ElfError::InvalidSegmentVaddr);
                    },
                };
                if addr >= MAX_CODE_MEMORY {
                    proof {
                        lemma_load_words_error_stays(start, fields, exec, patch@, code@, k + 1, ((mem_size as nat + 3) / 4) as nat);
                        lemma_load_segments_error_stays(initial_load_state(), segs@, patch@, code@, (n + 1) as nat, segs@.len());
                    }
                    return Err(ElfError::AddressTooLarge(addr));
                }
                if i >= file_size {
                    image.insert(addr, 0);
                } else {
                    let len: u32 = if file_size - i < 4 { file_size - i } else { 4 };
                    let word = match patch.get(&addr) {
                        Some(w) => *w,
                        None => {
                            if offset as u64 + i as u64 + len as u64 > code.len() as u64 {
                                proof {
                                    lemma_load_words_error_stays(start, fields, exec, patch@, code@, k + 1, ((mem_size as nat + 3) / 4) as nat);
                                    lemma_load_segments_error_stays(initial_load_state(), segs@, patch@, code@, (n + 1) as nat, segs@.len());
                                }
                                return Err(ElfError::InvalidSegmentOffset);
                            }
                            read_le_word(code, offset as usize + i as usize, len as usize)
                        },
                    };
                    image.insert(addr, word);
                    if exec {
                        words.push(word);
                    }
                }
                if addr > hiaddr {
                    hiaddr = addr;
                }
                i = i + 4;
                proof {
                    k = k + 1;
                }
            }
            proof {
                assert(k == (mem_size as nat + 3) / 4);
            }
        }
        n = n + 1;
    }
    Ok((image, words, hiaddr, base))
}

} // verus!

verus! {

/// The plain values of a program: its instructions, entry point, base address, the program
/// counter after the entry point, and its memory image.
pub open spec fn program_model(p: Program) -> (Seq<Instruction>, u32, u32, u32, Map<u32, u32>) {
    (p.instructions@, p.pc_start, p.pc_base, p.next_pc, p.image@)
}

/// The plain values of a symbol list, if there is one.
pub open spec fn symbols_view(symbols: Option<&Vec<ElfSymbol>>) -> Option<Seq<(u64, Option<Seq<char>>)>> {
    match symbols {
        Some(v) => Some(v@.map_values(|s: ElfSymbol| symbol_view(s))),
        None => None,
    }
}

/// The program an ELF file holds, given what the parser read of it (its header and program
/// header table, and its symbols) and its bytes; or the first error loading meets. The file
/// must be a 32-bit MIPS executable with a symbol table, a word-aligned entry point in the code
/// memory, and at most 256 program headers. Its loadable segments fill the image, the words of
/// its executable segments are its instructions, and the base address is the lowest address of
/// an executable segment. The image also holds the program break (the highest address loaded),
/// the top of the heap and the initial stack.
pub open spec fn spec_load_elf(file: (ElfHeader, Option<(usize, Seq<SegmentHeader>)>), symbols: Option<Seq<(u64, Option<Seq<char>>)>>, code: Seq<u8>) -> Result<(Seq<Instruction>, u32, u32, u32, Map<u32, u32>), ElfError> {
    let (h, segs) = file;
    if !h.is_elf32 {
        Err(ElfError::NotElf32)
    } else if h.e_machine != EM_MIPS {
        Err(ElfError::NotMips)
    } else if h.e_type != ET_EXEC {
        Err(ElfError::NotExecutable)
    } else if symbols is None {
        Err(ElfError::MissingSymbolTable)
    } else if h.e_entry > u32::MAX {
        Err(ElfError::EntryTooLarge)
    } else if h.e_entry >= MAX_CODE_MEMORY || h.e_entry % 4 != 0 {
        Err(ElfError::InvalidEntrypoint)
    } else if segs is None {
        Err(ElfError::MissingSegmentTable)
    } else if segs->Some_0.0 > MAX_PROGRAM_HEADERS {
        Err(ElfError::TooManyProgramHeaders)
    } else {
        let patch = elf_patches(Map::empty(), symbols->Some_0);
        let table = segs->Some_0.1;
        match load_segments(initial_load_state(), table, patch, code, table.len()) {
            Err(e) => Err(e),
            Ok((image, words, hiaddr, base)) => Ok((
                words.map_values(|w: u32| spec_decode(w)),
                h.e_entry as u32,
                base,
                (h.e_entry + 4) as u32,
                image.insert(35, hiaddr).insert(34, INITIAL_HEAP).union_prefer_right(initial_stack()),
            )),
        }
    }
}

fn decode_all(words: &Vec<u32>) -> (r: Vec<Instruction>)
    ensures
        r@ == words@.map_values(|w: u32| spec_decode(w)),
{
    let mut instructions: Vec<Instruction> = Vec::new();
    let mut i: usize = 0;
    while i < words.len()
        invariant
            i <= words@.len(),
            instructions@ == words@.take(i as int).map_values(|w: u32| spec_decode(w)),
        decreases words@.len() - i,
    {
        let ins = match Instruction::decode_from(words[i]) {
            Ok(ins) => ins,
            Err(_) => Instruction::new(Opcode::UNIMPL, 0, 0, words[i], true, true),
        };
        instructions.push(ins);
        i = i + 1;
        assert(instructions@ =~= words@.take(i as int).map_values(|w: u32| spec_decode(w)));
    }
    assert(words@.take(words@.len() as int) =~= words@);
    instructions
}

/// Builds the program an ELF file holds from what the parser read of it and its bytes.
pub fn load_elf(file: &ElfFile, symbols: Option<&Vec<ElfSymbol>>, elf_code: &[u8]) -> (r: Result<Program, ElfError>)
    ensures
        match spec_load_elf(elf_file_view(*file), symbols_view(symbols), elf_code@) {
            Ok(m) => r is Ok && program_model(r->Ok_0) == m,
            Err(e) => r == Err::<Program, ElfError>(e),
        },
{
    let h = file.header;
    if !h.is_elf32 {
        return Err(ElfError::NotElf32);
    }
    if h.e_machine != EM_MIPS {
        return Err(ElfError::NotMips);
    }
    if h.e_type != ET_EXEC {
        return Err(ElfError::NotExecutable);
    }
    let symbols = match symbols {
        Some(s) => s,
        None => {
            return Err(ElfError::MissingSymbolTable);
        },
    };
    let mut patch_list: BTreeMap<u32, u32> = BTreeMap::new();
    patch_elf(symbols, &mut patch_list);
    if h.e_entry > u32::MAX as u64 {
        return Err(ElfError::EntryTooLarge);
    }
    let entry = h.e_entry as u32;
    if entry >= MAX_CODE_MEMORY || entry % 4 != 0 {
        return Err(ElfError::InvalidEntrypoint);
    }
    let (count, segments) = match &file.segments {
        Some((count, segments)) => (*count, segments),
        None => {
            return Err(ElfError::MissingSegmentTable);
        },
    };
    if count > MAX_PROGRAM_HEADERS {
        return Err(ElfError::TooManyProgramHeaders);
    }
    let (mut image, words, hiaddr, base) = match load_all_segments(segments, &patch_list, elf_code) {
        Ok(loaded) => loaded,
        Err(e) => {
            return Err(e);
        },
    };
    image.insert(35, hiaddr);
    image.insert(34, INITIAL_HEAP);
    patch_stack(&mut image);
    let instructions = decode_all(&words);
    Ok(Program { instructions, pc_start: entry, pc_base: base, next_pc: entry + 4, image })
}

/// A program loaded from an ELF file can be traced: its instructions are decoded words.
proof fn lemma_decoded_words_traceable(
    p: Program,
    file: (ElfHeader, Option<(usize, Seq<SegmentHeader>)>),
    symbols: Option<Seq<(u64, Option<Seq<char>>)>>,
    code: Seq<u8>,
)
    requires
        spec_load_elf(file, symbols, code) is Ok,
        program_model(p) == spec_load_elf(file, symbols, code)->Ok_0,
    ensures
        p.spec_traceable(),
{
    let (h, segs) = file;
    let patch = elf_patches(Map::empty(), symbols->Some_0);
    let table = segs->Some_0.1;
    let words = load_segments(initial_load_state(), table, patch, code, table.len())->Ok_0.1;
    assert(p.instructions@ == words.map_values(|w: u32| spec_decode(w)));
    assert forall|i: int| 0 <= i < p.instructions@.len() implies traceable(#[trigger] p.instructions@[i]) by {
        lemma_decoded_traceable(words[i]);
    }
}

impl Program {
    /// Loads a MIPS program from the bytes of an ELF file.
    pub fn from(elf_code: &[u8]) -> (r: Result<Program, ElfError>)
        ensures
            match parsed_elf(elf_code@) {
                None => r == Err::<Program, ElfError>(ElfError::Parse),
                Some(file) => match spec_load_elf(file, parsed_symbols(elf_code@), elf_code@) {
                    Ok(m) => r is Ok && program_model(r->Ok_0) == m,
                    Err(e) => r == Err::<Program, ElfError>(e),
                },
            },
            r is Ok ==> r->Ok_0.spec_traceable(),
    {
        let file = match parse_elf_file(elf_code) {
            Ok(file) => file,
            Err(_) => {
                return Err(ElfError::Parse);
            },
        };
        let symbols = read_symbols(elf_code);
        let symbols_ref = symbols.as_ref();
        let r = load_elf(&file, symbols_ref, elf_code);
        proof {
            if r is Ok {
                lemma_decoded_words_traceable(r->Ok_0, elf_file_view(file), symbols_view(symbols_ref), elf_code@);
            }
        }
        r
    }
}

} // verus!

verus! {

/// Whether every address of a load state's image lies below the end of the code memory.
pub open spec fn image_in_code_memory(st: LoadState) -> bool {
    forall|a: u32| #[trigger] st.0.contains_key(a) ==> a < MAX_CODE_MEMORY
}

proof fn lemma_words_in_code_memory(st: LoadState, fields: (u32, u32, u32, u32), exec: bool, patch: Map<u32, u32>, code: Seq<u8>, k: nat)
    requires
        image_in_code_memory(st),
        load_words(st, fields, exec, patch, code, k) is Ok,
    ensures
        image_in_code_memory(load_words(st, fields, exec, patch, code, k)->Ok_0),
    decreases k,
{
    if k > 0 {
        lemma_words_in_code_memory(st, fields, exec, patch, code, (k - 1) as nat);
    }
}

/// Every address that loading the segments of a file fills lies below the end of the code
/// memory: a word past it stops the loading with an error.
pub proof fn lemma_segments_in_code_memory(segs: Seq<SegmentHeader>, patch: Map<u32, u32>, code: Seq<u8>, n: nat)
    requires
        load_segments(initial_load_state(), segs, patch, code, n) is Ok,
    ensures
        image_in_code_memory(load_segments(initial_load_state(), segs, patch, code, n)->Ok_0),
    decreases n,
{
    if n > 0 {
        lemma_segments_in_code_memory(segs, patch, code, (n - 1) as nat);
        let st = load_segments(initial_load_state(), segs, patch, code, (n - 1) as nat)->Ok_0;
        let seg = segs[n - 1];
        if seg.p_type == PT_LOAD {
            let fields = segment_fields(seg)->Ok_0;
            let exec = seg.p_flags & PF_X != 0;
            let base2 = if exec && st.3 > fields.2 { fields.2 } else { st.3 };
            lemma_words_in_code_memory((st.0, st.1, st.2, base2), fields, exec, patch, code, ((fields.1 as nat + 3) / 4) as nat);
        }
    }
}

} // verus!
