//! The system calls the executor implements: halting, writing to file descriptors, the Linux
//! calls a MIPS program makes for I/O and memory mapping, and the commitments.
use vstd::prelude::*;

use crate::executor::{rv, ExecutionError};
use crate::state::{after_read, after_write, peek, ExecutionState, StateModel, WriteRecord};
use crate::syscall_code::SyscallCode;
use crate::utils::word_of;

verus! {

/// The standard input file descriptor.
pub const FD_STDIN: u32 = 0;

/// The standard output file descriptor.
pub const FD_STDOUT: u32 = 1;

/// The standard error file descriptor.
pub const FD_STDERR: u32 = 2;

/// The MIPS error number for a bad file descriptor.
pub const MIPS_EBADF: u32 = 9;

/// The size of a memory page.
pub const PAGE_SIZE: u32 = 0x1000;

/// The register that holds the third argument of a call.
pub const REG_A2: u32 = 6;

/// The register in which a Linux call reports its error number.
pub const REG_A3: u32 = 7;

/// The register that holds the top of the heap.
pub const REG_HEAP: u32 = 34;

/// The byte at `addr` as seen without an access record.
pub open spec fn peek_byte(s: StateModel, addr: u32) -> u8 {
    (peek(s, (addr - addr % 4) as u32) >> ((addr % 4) * 8) as u32) as u8
}

/// The `n` bytes from `addr` on, as seen without access records.
pub open spec fn peek_bytes(s: StateModel, addr: u32, n: u32) -> Seq<u8> {
    Seq::new(n as nat, |i: int| peek_byte(s, (addr + i) as u32))
}

/// The state after the program wrote `bytes` to `fd`.
pub open spec fn after_output(s: StateModel, fd: u32, bytes: Seq<u8>) -> StateModel {
    StateModel { output: s.output.push((fd, bytes)), ..s }
}

/// A system call reads a register at the cycle's own timestamp.
pub open spec fn call_read(s: StateModel, reg: u32) -> StateModel {
    after_read(s, reg, s.current_shard, s.clk)
}

/// A system call writes a register at the cycle's own timestamp.
pub open spec fn call_write(s: StateModel, reg: u32, value: u32) -> StateModel {
    after_write(s, reg, value, s.current_shard, s.clk)
}

/// `fcntl`: the value returned and the error number, for descriptor `fd` and command `cmd`.
/// `F_GETFL` (3) reports the standard descriptors' access modes, `F_GETFD` (1) echoes them;
/// anything else fails with `EBADF`.
pub open spec fn fcntl_result(fd: u32, cmd: u32) -> (u32, u32) {
    if cmd == 3 && fd == FD_STDIN {
        (0, 0)
    } else if cmd == 3 && (fd == FD_STDOUT || fd == FD_STDERR) {
        (1, 0)
    } else if cmd == 1 && fd <= FD_STDERR {
        (fd, 0)
    } else {
        (0xffff_ffff, MIPS_EBADF)
    }
}

/// A mapping length rounded up to whole pages, modulo 2^32.
pub open spec fn page_rounded(size: u32) -> u32 {
    if size % PAGE_SIZE != 0 {
        word_of(size + (PAGE_SIZE - size % PAGE_SIZE))
    } else {
        size
    }
}

/// What a system call does with its arguments `a0` and `a1`, from the state after the
/// executor read them: the new state, the value it returns in V0 (`None` keeps the call
/// number there), and the program counter to continue at; or the error it fails with.
pub open spec fn spec_syscall(s: StateModel, code: SyscallCode, id: u32, a0: u32, a1: u32) -> Result<(StateModel, Option<u32>, u32), ExecutionError> {
    match code {
        SyscallCode::HALT => if a0 == 0 {
            Ok((s, None, 0))
        } else {
            Err(ExecutionError::HaltWithNonZeroExitCode(a0))
        },
        SyscallCode::WRITE => Ok((after_output(s, a0, peek_bytes(s, a1, peek(s, REG_A2))), None, s.next_pc)),
        SyscallCode::SYS_WRITE => {
            let n = rv(s, REG_A2);
            let s1 = call_read(s, REG_A2);
            let s2 = after_output(s1, a0, peek_bytes(s1, a1, n));
            Ok((call_write(s2, REG_A3, 0), Some(n), s.next_pc))
        },
        SyscallCode::SYS_READ => {
            let bad = a0 != FD_STDIN;
            Ok((call_write(s, REG_A3, if bad { MIPS_EBADF } else { 0 }), Some(if bad { 0xffff_ffff } else { 0 }), s.next_pc))
        },
        SyscallCode::SYS_FCNTL => {
            let (v0, errno) = fcntl_result(a0, a1);
            Ok((call_write(s, REG_A3, errno), Some(v0), s.next_pc))
        },
        SyscallCode::SYS_MMAP | SyscallCode::SYS_MMAP2 => {
            let s1 = call_write(s, REG_A3, 0);
            if a0 == 0 {
                let top = peek(s1, REG_HEAP);
                Ok((call_write(s1, REG_HEAP, word_of(top + page_rounded(a1))), Some(top), s.next_pc))
            } else {
                Ok((s1, Some(a0), s.next_pc))
            }
        },
        SyscallCode::COMMIT | SyscallCode::COMMIT_DEFERRED_PROOFS => Ok((s, None, s.next_pc)),
        _ => Err(ExecutionError::UnsupportedSyscall(id)),
    }
}

/// A memory mapping at address 0 hands out the top of the heap: it returns in V0 the value the
/// heap register held before the call, and raises the heap top by the length rounded up to
/// whole pages (modulo 2^32), so that the mapping lies below the new top. A mapping at another
/// address returns that address and leaves the heap top as it was. Either way A3 reports no
/// error and the program goes on after the call.
pub proof fn lemma_mmap_takes_from_heap(s: StateModel, code: SyscallCode, id: u32, a0: u32, a1: u32)
    requires
        code is SYS_MMAP || code is SYS_MMAP2,
    ensures
        spec_syscall(s, code, id, a0, a1) is Ok,
        ({
            let (s2, ret, next_pc) = spec_syscall(s, code, id, a0, a1)->Ok_0;
            let top = peek(s, REG_HEAP);
            let len = (a1 + 0xfff) / 0x1000 * 0x1000;
            &&& next_pc == s.next_pc
            &&& peek(s2, REG_A3) == 0
            &&& a0 == 0 ==> ret == Some(top) && peek(s2, REG_HEAP) == word_of(top + len)
            &&& a0 == 0 && top + len < 0x1_0000_0000 ==> top + a1 <= peek(s2, REG_HEAP)
            &&& a0 != 0 ==> ret == Some(a0) && peek(s2, REG_HEAP) == top
        }),
{
    let top = peek(s, REG_HEAP);
    let len: int = (a1 + 0xfff) / 0x1000 * 0x1000;
    let r: int = a1 as int % 0x1000;
    assert(a1 <= len < a1 + 0x1000 && (r == 0 ==> len == a1) && (r != 0 ==> len == a1 + 0x1000 - r)) by (nonlinear_arith)
        requires
            len == (a1 + 0xfff) / 0x1000 * 0x1000,
            r == a1 as int % 0x1000,
    ;
    assert(word_of(top + page_rounded(a1)) == word_of(top + len));
}

/// The Linux calls a program makes for I/O report their outcome in V0 and an error number in
/// A3, and go on after the call. `read` succeeds, reading nothing, on standard input only and
/// fails with `EBADF` on any other descriptor. `fcntl` answers `F_GETFL` (3) with the access
/// mode of the standard descriptors (read-only for input, write-only for the others) and
/// `F_GETFD` (1) on them with the descriptor itself, and fails with `EBADF` otherwise. `write`
/// sends the A2 bytes from the buffer at `a1` to descriptor `a0` and returns their number.
pub proof fn lemma_linux_io_results(s: StateModel, code: SyscallCode, id: u32, a0: u32, a1: u32)
    requires
        code is SYS_READ || code is SYS_FCNTL || code is SYS_WRITE,
    ensures
        spec_syscall(s, code, id, a0, a1) is Ok,
        ({
            let (s2, ret, next_pc) = spec_syscall(s, code, id, a0, a1)->Ok_0;
            let ok = |v: u32| ret == Some(v) && peek(s2, REG_A3) == 0;
            let ebadf = ret == Some(0xffff_ffffu32) && peek(s2, REG_A3) == 9;
            &&& next_pc == s.next_pc
            &&& code is SYS_READ ==> (if a0 == 0 { ok(0) } else { ebadf })
            &&& code is SYS_FCNTL ==> (if a1 == 3 && a0 == 0 {
                ok(0)
            } else if a1 == 3 && (a0 == 1 || a0 == 2) {
                ok(1)
            } else if a1 == 1 && a0 <= 2 {
                ok(a0)
            } else {
                ebadf
            })
            &&& code is SYS_WRITE ==> ok(rv(s, REG_A2)) && s2.output == s.output.push((a0, peek_bytes(s, a1, rv(s, REG_A2))))
        }),
{
    if code is SYS_WRITE {
        let n = rv(s, REG_A2);
        let s1 = call_read(s, REG_A2);
        assert forall|i: int| 0 <= i < n implies #[trigger] peek_bytes(s1, a1, n)[i] == peek_bytes(s, a1, n)[i] by {
            let x = (a1 + i) as u32;
            assert((x - x % 4) as u32 != REG_A2);
        }
        assert(peek_bytes(s1, a1, n) =~= peek_bytes(s, a1, n));
    }
}

/// Whether a system call can run: the bytes a write copies out lie below 2^32.
pub open spec fn syscall_defined(s: StateModel, code: SyscallCode, a1: u32) -> bool {
    match code {
        SyscallCode::WRITE => a1 + peek(s, REG_A2) <= 0x1_0000_0000,
        SyscallCode::SYS_WRITE => a1 + rv(s, REG_A2) <= 0x1_0000_0000,
        _ => true,
    }
}

impl ExecutionState {
    /// The byte at `addr`, without recording an access.
    pub fn byte(&self, addr: u32) -> (r: u8)
        ensures
            r == peek_byte(self@, addr),
    {
        let word = self.peek(addr - addr % 4);
        (word >> ((addr % 4) * 8)) as u8
    }

    /// The `n` bytes from `addr` on, without recording accesses.
    pub fn bytes(&self, addr: u32, n: u32) -> (r: Vec<u8>)
        requires
            addr + n <= 0x1_0000_0000,
        ensures
            r@ == peek_bytes(self@, addr, n),
    {
        let mut out: Vec<u8> = Vec::new();
        let mut i: u32 = 0;
        while i < n
            invariant
                i <= n,
                addr + n <= 0x1_0000_0000,
                out@ == peek_bytes(self@, addr, i),
            decreases n - i,
        {
            let b = self.byte(addr + i);
            out.push(b);
            i = i + 1;
            assert(out@ =~= peek_bytes(self@, addr, i));
        }
        out
    }

    fn call_write(&mut self, reg: u32, value: u32)
        ensures
            final(self)@ == call_write(old(self)@, reg, value),
    {
        let _ = self.mw(reg, value, self.current_shard, self.clk);
    }

    fn output(&mut self, fd: u32, bytes: Vec<u8>)
        ensures
            final(self)@ == after_output(old(self)@, fd, bytes@),
    {
        self.output.push(WriteRecord { fd, bytes });
        assert(self@.output =~= old(self)@.output.push((fd, bytes@)));
    }

    /// Runs the system call `code` (number `id`) on arguments `a0` and `a1`.
    pub fn execute_syscall(&mut self, code: SyscallCode, id: u32, a0: u32, a1: u32) -> (r: Result<(Option<u32>, u32), ExecutionError>)
        requires
            syscall_defined(old(self)@, code, a1),
        ensures
            match spec_syscall(old(self)@, code, id, a0, a1) {
                Ok((s, ret, next_pc)) => r == Ok::<(Option<u32>, u32), ExecutionError>((ret, next_pc)) && final(self)@ == s,
                Err(e) => r == Err::<(Option<u32>, u32), ExecutionError>(e) && final(self)@ == old(self)@,
            },
    {
        match code {
            SyscallCode::HALT => {
                if a0 == 0 {
                    Ok((None, 0))
                } else {
                    Err(ExecutionError::HaltWithNonZeroExitCode(a0))
                }
            },
            SyscallCode::WRITE => {
                let n = self.peek(REG_A2);
                let bytes = self.bytes(a1, n);
                self.output(a0, bytes);
                Ok((None, self.next_pc))
            },
            SyscallCode::SYS_WRITE => {
                let rec = self.mr(REG_A2, self.current_shard, self.clk);
                let n = rec.value;
                let bytes = self.bytes(a1, n);
                self.output(a0, bytes);
                self.call_write(REG_A3, 0);
                Ok((Some(n), self.next_pc))
            },
            SyscallCode::SYS_READ => {
                if a0 != FD_STDIN {
                    self.call_write(REG_A3, MIPS_EBADF);
                    Ok((Some(0xffff_ffff), self.next_pc))
                } else {
                    self.call_write(REG_A3, 0);
                    Ok((Some(0), self.next_pc))
                }
            },
            SyscallCode::SYS_FCNTL => {
                let (v0, errno) = if a1 == 3 && a0 == FD_STDIN {
                    (0, 0)
                } else if a1 == 3 && (a0 == FD_STDOUT || a0 == FD_STDERR) {
                    (1, 0)
                } else if a1 == 1 && a0 <= FD_STDERR {
                    (a0, 0)
                } else {
                    (0xffff_ffff, MIPS_EBADF)
                };
                self.call_write(REG_A3, errno);
                Ok((Some(v0), self.next_pc))
            },
            SyscallCode::SYS_MMAP | SyscallCode::SYS_MMAP2 => {
                let size = if a1 % PAGE_SIZE != 0 {
                    a1.wrapping_add(PAGE_SIZE - a1 % PAGE_SIZE)
                } else {
                    a1
                };
                self.call_write(REG_A3, 0);
                if a0 == 0 {
                    let top = self.peek(REG_HEAP);
                    self.call_write(REG_HEAP, top.wrapping_add(size));
                    Ok((Some(top), self.next_pc))
                } else {
                    Ok((Some(a0), self.next_pc))
                }
            },
            SyscallCode::COMMIT | SyscallCode::COMMIT_DEFERRED_PROOFS => Ok((None, self.next_pc)),
            _ => Err(ExecutionError::UnsupportedSyscall(id)),
        }
    }
}

} // verus!
