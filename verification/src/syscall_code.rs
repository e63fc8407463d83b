//! System call numbers and the facts encoded in them.
use vstd::prelude::*;

verus! {

/// A system call, selected by the value in register V0 when the `syscall` instruction runs.
///
/// The number of a call has this little-endian layout: bytes 0 and 1 are the identifier, byte 2
/// says whether the call has its own table (and is sent to it), and byte 3 is the number of
/// extra cycles the call uses.
#[allow(non_camel_case_types)]
#[allow(clippy::upper_case_acronyms)]
#[derive(Clone, Copy, Debug, PartialEq, Eq, Structural, Hash)]
pub enum SyscallCode {
    SYSHINTLEN,
    SYSHINTREAD,
    SYSVERIFY,
    HALT,
    WRITE,
    ENTER_UNCONSTRAINED,
    EXIT_UNCONSTRAINED,
    SHA_EXTEND,
    SHA_COMPRESS,
    ED_ADD,
    ED_DECOMPRESS,
    KECCAK_SPONGE,
    SECP256K1_ADD,
    SECP256K1_DOUBLE,
    SECP256K1_DECOMPRESS,
    BN254_ADD,
    BN254_DOUBLE,
    COMMIT,
    COMMIT_DEFERRED_PROOFS,
    VERIFY_ZKM_PROOF,
    BLS12381_DECOMPRESS,
    UINT256_MUL,
    BLS12381_ADD,
    BLS12381_DOUBLE,
    BLS12381_FP_ADD,
    BLS12381_FP_SUB,
    BLS12381_FP_MUL,
    BLS12381_FP2_ADD,
    BLS12381_FP2_SUB,
    BLS12381_FP2_MUL,
    BN254_FP_ADD,
    BN254_FP_SUB,
    BN254_FP_MUL,
    BN254_FP2_ADD,
    BN254_FP2_SUB,
    BN254_FP2_MUL,
    SECP256R1_ADD,
    SECP256R1_DOUBLE,
    SECP256R1_DECOMPRESS,
    U256XU2048_MUL,
    SYS_MMAP,
    SYS_MMAP2,
    SYS_BRK,
    SYS_CLONE,
    SYS_EXT_GROUP,
    SYS_READ,
    SYS_WRITE,
    SYS_FCNTL,
    SYS_OPEN,
    SYS_CLOSE,
    SYS_MUNMAP,
    SYS_RT_SIGACTION,
    SYS_RT_SIGPROCMASK,
    SYS_SIGALTSTACK,
    SYS_FSTAT64,
    SYS_MADVISE,
    SYS_GETTID,
    SYS_SCHED_GETAFFINITY,
    SYS_CLOCK_GETTIME,
    SYS_OPENAT,
    SYS_PRLIMIT64,
    POSEIDON2_PERMUTE,
    SYS_LINUX,
    UNIMPLEMENTED,
}

impl SyscallCode {
    /// The number of the call.
    pub open spec fn spec_code(self) -> u32 {
        match self {
            SyscallCode::SYSHINTLEN => 0xf0,
            SyscallCode::SYSHINTREAD => 0xf1,
            SyscallCode::SYSVERIFY => 0xf2,
            SyscallCode::HALT => 0x0,
            SyscallCode::WRITE => 0x2,
            SyscallCode::ENTER_UNCONSTRAINED => 0x3,
            SyscallCode::EXIT_UNCONSTRAINED => 0x4,
            SyscallCode::SHA_EXTEND => 0x30010005,
            SyscallCode::SHA_COMPRESS => 0x1010006,
            SyscallCode::ED_ADD => 0x1010007,
            SyscallCode::ED_DECOMPRESS => 0x10008,
            SyscallCode::KECCAK_SPONGE => 0x1010009,
            SyscallCode::SECP256K1_ADD => 0x101000a,
            SyscallCode::SECP256K1_DOUBLE => 0x1000b,
            SyscallCode::SECP256K1_DECOMPRESS => 0x1000c,
            SyscallCode::BN254_ADD => 0x101000e,
            SyscallCode::BN254_DOUBLE => 0x1000f,
            SyscallCode::COMMIT => 0x10,
            SyscallCode::COMMIT_DEFERRED_PROOFS => 0x1a,
            SyscallCode::VERIFY_ZKM_PROOF => 0x1b,
            SyscallCode::BLS12381_DECOMPRESS => 0x1001c,
            SyscallCode::UINT256_MUL => 0x101001d,
            SyscallCode::BLS12381_ADD => 0x101001e,
            SyscallCode::BLS12381_DOUBLE => 0x1001f,
            SyscallCode::BLS12381_FP_ADD => 0x1010020,
            SyscallCode::BLS12381_FP_SUB => 0x1010021,
            SyscallCode::BLS12381_FP_MUL => 0x1010022,
            SyscallCode::BLS12381_FP2_ADD => 0x1010023,
            SyscallCode::BLS12381_FP2_SUB => 0x1010024,
            SyscallCode::BLS12381_FP2_MUL => 0x1010025,
            SyscallCode::BN254_FP_ADD => 0x1010026,
            SyscallCode::BN254_FP_SUB => 0x1010027,
            SyscallCode::BN254_FP_MUL => 0x1010028,
            SyscallCode::BN254_FP2_ADD => 0x1010029,
            SyscallCode::BN254_FP2_SUB => 0x101002a,
            SyscallCode::BN254_FP2_MUL => 0x101002b,
            SyscallCode::SECP256R1_ADD => 0x101002c,
            SyscallCode::SECP256R1_DOUBLE => 0x1002d,
            SyscallCode::SECP256R1_DECOMPRESS => 0x1002e,
            SyscallCode::U256XU2048_MUL => 0x101002f,
            SyscallCode::SYS_MMAP => 0x1072,
            SyscallCode::SYS_MMAP2 => 0xffa,
            SyscallCode::SYS_BRK => 0xfcd,
            SyscallCode::SYS_CLONE => 0x1018,
            SyscallCode::SYS_EXT_GROUP => 0x1096,
            SyscallCode::SYS_READ => 0xfa3,
            SyscallCode::SYS_WRITE => 0xfa4,
            SyscallCode::SYS_FCNTL => 0xfd7,
            SyscallCode::SYS_OPEN => 0xfa5,
            SyscallCode::SYS_CLOSE => 0xfa6,
            SyscallCode::SYS_MUNMAP => 0xffb,
            SyscallCode::SYS_RT_SIGACTION => 0x1062,
            SyscallCode::SYS_RT_SIGPROCMASK => 0x1063,
            SyscallCode::SYS_SIGALTSTACK => 0x106e,
            SyscallCode::SYS_FSTAT64 => 0x1077,
            SyscallCode::SYS_MADVISE => 0x107a,
            SyscallCode::SYS_GETTID => 0x107e,
            SyscallCode::SYS_SCHED_GETAFFINITY => 0x1090,
            SyscallCode::SYS_CLOCK_GETTIME => 0x10a7,
            SyscallCode::SYS_OPENAT => 0x10c0,
            SyscallCode::SYS_PRLIMIT64 => 0x10f2,
            SyscallCode::POSEIDON2_PERMUTE => 0x10030,
            SyscallCode::SYS_LINUX => 0xfa0,
            SyscallCode::UNIMPLEMENTED => 0xffffffff,
        }
    }

    /// The number of the call.
    pub fn code(self) -> (r: u32)
        ensures
            r == self.spec_code(),
    {
        match self {
            SyscallCode::SYSHINTLEN => 0xf0,
            SyscallCode::SYSHINTREAD => 0xf1,
            SyscallCode::SYSVERIFY => 0xf2,
            SyscallCode::HALT => 0x0,
            SyscallCode::WRITE => 0x2,
            SyscallCode::ENTER_UNCONSTRAINED => 0x3,
            SyscallCode::EXIT_UNCONSTRAINED => 0x4,
            SyscallCode::SHA_EXTEND => 0x30010005,
            SyscallCode::SHA_COMPRESS => 0x1010006,
            SyscallCode::ED_ADD => 0x1010007,
            SyscallCode::ED_DECOMPRESS => 0x10008,
            SyscallCode::KECCAK_SPONGE => 0x1010009,
            SyscallCode::SECP256K1_ADD => 0x101000a,
            SyscallCode::SECP256K1_DOUBLE => 0x1000b,
            SyscallCode::SECP256K1_DECOMPRESS => 0x1000c,
            SyscallCode::BN254_ADD => 0x101000e,
            SyscallCode::BN254_DOUBLE => 0x1000f,
            SyscallCode::COMMIT => 0x10,
            SyscallCode::COMMIT_DEFERRED_PROOFS => 0x1a,
            SyscallCode::VERIFY_ZKM_PROOF => 0x1b,
            SyscallCode::BLS12381_DECOMPRESS => 0x1001c,
            SyscallCode::UINT256_MUL => 0x101001d,
            SyscallCode::BLS12381_ADD => 0x101001e,
            SyscallCode::BLS12381_DOUBLE => 0x1001f,
            SyscallCode::BLS12381_FP_ADD => 0x1010020,
            SyscallCode::BLS12381_FP_SUB => 0x1010021,
            SyscallCode::BLS12381_FP_MUL => 0x1010022,
            SyscallCode::BLS12381_FP2_ADD => 0x1010023,
            SyscallCode::BLS12381_FP2_SUB => 0x1010024,
            SyscallCode::BLS12381_FP2_MUL => 0x1010025,
            SyscallCode::BN254_FP_ADD => 0x1010026,
            SyscallCode::BN254_FP_SUB => 0x1010027,
            SyscallCode::BN254_FP_MUL => 0x1010028,
            SyscallCode::BN254_FP2_ADD => 0x1010029,
            SyscallCode::BN254_FP2_SUB => 0x101002a,
            SyscallCode::BN254_FP2_MUL => 0x101002b,
            SyscallCode::SECP256R1_ADD => 0x101002c,
            SyscallCode::SECP256R1_DOUBLE => 0x1002d,
            SyscallCode::SECP256R1_DECOMPRESS => 0x1002e,
            SyscallCode::U256XU2048_MUL => 0x101002f,
            SyscallCode::SYS_MMAP => 0x1072,
            SyscallCode::SYS_MMAP2 => 0xffa,
            SyscallCode::SYS_BRK => 0xfcd,
            SyscallCode::SYS_CLONE => 0x1018,
            SyscallCode::SYS_EXT_GROUP => 0x1096,
            SyscallCode::SYS_READ => 0xfa3,
            SyscallCode::SYS_WRITE => 0xfa4,
            SyscallCode::SYS_FCNTL => 0xfd7,
            SyscallCode::SYS_OPEN => 0xfa5,
            SyscallCode::SYS_CLOSE => 0xfa6,
            SyscallCode::SYS_MUNMAP => 0xffb,
            SyscallCode::SYS_RT_SIGACTION => 0x1062,
            SyscallCode::SYS_RT_SIGPROCMASK => 0x1063,
            SyscallCode::SYS_SIGALTSTACK => 0x106e,
            SyscallCode::SYS_FSTAT64 => 0x1077,
            SyscallCode::SYS_MADVISE => 0x107a,
            SyscallCode::SYS_GETTID => 0x107e,
            SyscallCode::SYS_SCHED_GETAFFINITY => 0x1090,
            SyscallCode::SYS_CLOCK_GETTIME => 0x10a7,
            SyscallCode::SYS_OPENAT => 0x10c0,
            SyscallCode::SYS_PRLIMIT64 => 0x10f2,
            SyscallCode::POSEIDON2_PERMUTE => 0x10030,
            SyscallCode::SYS_LINUX => 0xfa0,
            SyscallCode::UNIMPLEMENTED => 0xffffffff,
        }
    }

    /// The call with number `value`; numbers that name no call give `UNIMPLEMENTED`.
    pub open spec fn spec_from_u32(value: u32) -> SyscallCode {
        if value == 0xf0 {
            SyscallCode::SYSHINTLEN
        } else if value == 0xf1 {
            SyscallCode::SYSHINTREAD
        } else if value == 0xf2 {
            SyscallCode::SYSVERIFY
        } else if value == 0x0 {
            SyscallCode::HALT
        } else if value == 0x2 {
            SyscallCode::WRITE
        } else if value == 0x3 {
            SyscallCode::ENTER_UNCONSTRAINED
        } else if value == 0x4 {
            SyscallCode::EXIT_UNCONSTRAINED
        } else if value == 0x30010005 {
            SyscallCode::SHA_EXTEND
        } else if value == 0x1010006 {
            SyscallCode::SHA_COMPRESS
        } else if value == 0x1010007 {
            SyscallCode::ED_ADD
        } else if value == 0x10008 {
            SyscallCode::ED_DECOMPRESS
        } else if value == 0x1010009 {
            SyscallCode::KECCAK_SPONGE
        } else if value == 0x101000a {
            SyscallCode::SECP256K1_ADD
        } else if value == 0x1000b {
            SyscallCode::SECP256K1_DOUBLE
        } else if value == 0x1000c {
            SyscallCode::SECP256K1_DECOMPRESS
        } else if value == 0x101000e {
            SyscallCode::BN254_ADD
        } else if value == 0x1000f {
            SyscallCode::BN254_DOUBLE
        } else if value == 0x10 {
            SyscallCode::COMMIT
        } else if value == 0x1a {
            SyscallCode::COMMIT_DEFERRED_PROOFS
        } else if value == 0x1b {
            SyscallCode::VERIFY_ZKM_PROOF
        } else if value == 0x1001c {
            SyscallCode::BLS12381_DECOMPRESS
        } else if value == 0x101001d {
            SyscallCode::UINT256_MUL
        } else if value == 0x101001e {
            SyscallCode::BLS12381_ADD
        } else if value == 0x1001f {
            SyscallCode::BLS12381_DOUBLE
        } else if value == 0x1010020 {
            SyscallCode::BLS12381_FP_ADD
        } else if value == 0x1010021 {
            SyscallCode::BLS12381_FP_SUB
        } else if value == 0x1010022 {
            SyscallCode::BLS12381_FP_MUL
        } else if value == 0x1010023 {
            SyscallCode::BLS12381_FP2_ADD
        } else if value == 0x1010024 {
            SyscallCode::BLS12381_FP2_SUB
        } else if value == 0x1010025 {
            SyscallCode::BLS12381_FP2_MUL
        } else if value == 0x1010026 {
            SyscallCode::BN254_FP_ADD
        } else if value == 0x1010027 {
            SyscallCode::BN254_FP_SUB
        } else if value == 0x1010028 {
            SyscallCode::BN254_FP_MUL
        } else if value == 0x1010029 {
            SyscallCode::BN254_FP2_ADD
        } else if value == 0x101002a {
            SyscallCode::BN254_FP2_SUB
        } else if value == 0x101002b {
            SyscallCode::BN254_FP2_MUL
        } else if value == 0x101002c {
            SyscallCode::SECP256R1_ADD
        } else if value == 0x1002d {
            SyscallCode::SECP256R1_DOUBLE
        } else if value == 0x1002e {
            SyscallCode::SECP256R1_DECOMPRESS
        } else if value == 0x101002f {
            SyscallCode::U256XU2048_MUL
        } else if value == 0x1072 {
            SyscallCode::SYS_MMAP
        } else if value == 0xffa {
            SyscallCode::SYS_MMAP2
        } else if value == 0xfcd {
            SyscallCode::SYS_BRK
        } else if value == 0x1018 {
            SyscallCode::SYS_CLONE
        } else if value == 0x1096 {
            SyscallCode::SYS_EXT_GROUP
        } else if value == 0xfa3 {
            SyscallCode::SYS_READ
        } else if value == 0xfa4 {
            SyscallCode::SYS_WRITE
        } else if value == 0xfd7 {
            SyscallCode::SYS_FCNTL
        } else if value == 0xfa5 {
            SyscallCode::SYS_OPEN
        } else if value == 0xfa6 {
            SyscallCode::SYS_CLOSE
        } else if value == 0xffb {
            SyscallCode::SYS_MUNMAP
        } else if value == 0x1062 {
            SyscallCode::SYS_RT_SIGACTION
        } else if value == 0x1063 {
            SyscallCode::SYS_RT_SIGPROCMASK
        } else if value == 0x106e {
            SyscallCode::SYS_SIGALTSTACK
        } else if value == 0x1077 {
            SyscallCode::SYS_FSTAT64
        } else if value == 0x107a {
            SyscallCode::SYS_MADVISE
        } else if value == 0x107e {
            SyscallCode::SYS_GETTID
        } else if value == 0x1090 {
            SyscallCode::SYS_SCHED_GETAFFINITY
        } else if value == 0x10a7 {
            SyscallCode::SYS_CLOCK_GETTIME
        } else if value == 0x10c0 {
            SyscallCode::SYS_OPENAT
        } else if value == 0x10f2 {
            SyscallCode::SYS_PRLIMIT64
        } else if value == 0x10030 {
            SyscallCode::POSEIDON2_PERMUTE
        } else if value == 0xfa0 {
            SyscallCode::SYS_LINUX
        } else {
            SyscallCode::UNIMPLEMENTED
        }
    }

    /// Create a [`SyscallCode`] from a u32.
    pub fn from_u32(value: u32) -> (r: Self)
        ensures
            r == Self::spec_from_u32(value),
    {
        match value {
            0xf0 => SyscallCode::SYSHINTLEN,
            0xf1 => SyscallCode::SYSHINTREAD,
            0xf2 => SyscallCode::SYSVERIFY,
            0x0 => SyscallCode::HALT,
            0x2 => SyscallCode::WRITE,
            0x3 => SyscallCode::ENTER_UNCONSTRAINED,
            0x4 => SyscallCode::EXIT_UNCONSTRAINED,
            0x30010005 => SyscallCode::SHA_EXTEND,
            0x1010006 => SyscallCode::SHA_COMPRESS,
            0x1010007 => SyscallCode::ED_ADD,
            0x10008 => SyscallCode::ED_DECOMPRESS,
            0x1010009 => SyscallCode::KECCAK_SPONGE,
            0x101000a => SyscallCode::SECP256K1_ADD,
            0x1000b => SyscallCode::SECP256K1_DOUBLE,
            0x1000c => SyscallCode::SECP256K1_DECOMPRESS,
            0x101000e => SyscallCode::BN254_ADD,
            0x1000f => SyscallCode::BN254_DOUBLE,
            0x10 => SyscallCode::COMMIT,
            0x1a => SyscallCode::COMMIT_DEFERRED_PROOFS,
            0x1b => SyscallCode::VERIFY_ZKM_PROOF,
            0x1001c => SyscallCode::BLS12381_DECOMPRESS,
            0x101001d => SyscallCode::UINT256_MUL,
            0x101001e => SyscallCode::BLS12381_ADD,
            0x1001f => SyscallCode::BLS12381_DOUBLE,
            0x1010020 => SyscallCode::BLS12381_FP_ADD,
            0x1010021 => SyscallCode::BLS12381_FP_SUB,
            0x1010022 => SyscallCode::BLS12381_FP_MUL,
            0x1010023 => SyscallCode::BLS12381_FP2_ADD,
            0x1010024 => SyscallCode::BLS12381_FP2_SUB,
            0x1010025 => SyscallCode::BLS12381_FP2_MUL,
            0x1010026 => SyscallCode::BN254_FP_ADD,
            0x1010027 => SyscallCode::BN254_FP_SUB,
            0x1010028 => SyscallCode::BN254_FP_MUL,
            0x1010029 => SyscallCode::BN254_FP2_ADD,
            0x101002a => SyscallCode::BN254_FP2_SUB,
            0x101002b => SyscallCode::BN254_FP2_MUL,
            0x101002c => SyscallCode::SECP256R1_ADD,
            0x1002d => SyscallCode::SECP256R1_DOUBLE,
            0x1002e => SyscallCode::SECP256R1_DECOMPRESS,
            0x101002f => SyscallCode::U256XU2048_MUL,
            0x1072 => SyscallCode::SYS_MMAP,
            0xffa => SyscallCode::SYS_MMAP2,
            0xfcd => SyscallCode::SYS_BRK,
            0x1018 => SyscallCode::SYS_CLONE,
            0x1096 => SyscallCode::SYS_EXT_GROUP,
            0xfa3 => SyscallCode::SYS_READ,
            0xfa4 => SyscallCode::SYS_WRITE,
            0xfd7 => SyscallCode::SYS_FCNTL,
            0xfa5 => SyscallCode::SYS_OPEN,
            0xfa6 => SyscallCode::SYS_CLOSE,
            0xffb => SyscallCode::SYS_MUNMAP,
            0x1062 => SyscallCode::SYS_RT_SIGACTION,
            0x1063 => SyscallCode::SYS_RT_SIGPROCMASK,
            0x106e => SyscallCode::SYS_SIGALTSTACK,
            0x1077 => SyscallCode::SYS_FSTAT64,
            0x107a => SyscallCode::SYS_MADVISE,
            0x107e => SyscallCode::SYS_GETTID,
            0x1090 => SyscallCode::SYS_SCHED_GETAFFINITY,
            0x10a7 => SyscallCode::SYS_CLOCK_GETTIME,
            0x10c0 => SyscallCode::SYS_OPENAT,
            0x10f2 => SyscallCode::SYS_PRLIMIT64,
            0x10030 => SyscallCode::POSEIDON2_PERMUTE,
            0xfa0 => SyscallCode::SYS_LINUX,
            _ => SyscallCode::UNIMPLEMENTED,
        }
    }

    /// Get the system call identifier: the low two bytes of the number.
    pub fn syscall_id(self) -> (r: u32)
        ensures
            r == self.spec_code() % 0x1_0000,
    {
        self.code() % 0x1_0000
    }

    /// Get whether the handler of the system call has its own table: byte 2 of the number.
    pub fn should_send(self) -> (r: u32)
        ensures
            r == (self.spec_code() / 0x1_0000) % 0x100,
    {
        (self.code() / 0x1_0000) % 0x100
    }

    /// Get the upper byte of the identifier, which only Linux calls use: byte 1 of the number.
    pub fn linux_sys(self) -> (r: u32)
        ensures
            r == (self.spec_code() / 0x100) % 0x100,
    {
        (self.code() / 0x100) % 0x100
    }

    /// Get the number of additional cycles the syscall uses: byte 3 of the number.
    pub fn num_cycles(self) -> (r: u32)
        ensures
            r == self.spec_code() / 0x100_0000,
    {
        self.code() / 0x100_0000
    }

    /// The call whose counts this call's counts are added to.
    pub open spec fn spec_count_map(self) -> SyscallCode {
        match self {
            SyscallCode::BN254_FP_SUB => SyscallCode::BN254_FP_ADD,
            SyscallCode::BN254_FP_MUL => SyscallCode::BN254_FP_ADD,
            SyscallCode::BN254_FP2_SUB => SyscallCode::BN254_FP2_ADD,
            SyscallCode::BLS12381_FP_SUB => SyscallCode::BLS12381_FP_ADD,
            SyscallCode::BLS12381_FP_MUL => SyscallCode::BLS12381_FP_ADD,
            SyscallCode::BLS12381_FP2_SUB => SyscallCode::BLS12381_FP2_ADD,
            SyscallCode::SYS_MMAP2 => SyscallCode::SYS_MMAP,
            _ => self,
        }
    }

    /// Map a syscall to another one in order to coalesce their counts.
    pub fn count_map(&self) -> (r: Self)
        ensures
            r == self.spec_count_map(),
    {
        match self {
            SyscallCode::BN254_FP_SUB => SyscallCode::BN254_FP_ADD,
            SyscallCode::BN254_FP_MUL => SyscallCode::BN254_FP_ADD,
            SyscallCode::BN254_FP2_SUB => SyscallCode::BN254_FP2_ADD,
            SyscallCode::BLS12381_FP_SUB => SyscallCode::BLS12381_FP_ADD,
            SyscallCode::BLS12381_FP_MUL => SyscallCode::BLS12381_FP_ADD,
            SyscallCode::BLS12381_FP2_SUB => SyscallCode::BLS12381_FP2_ADD,
            SyscallCode::SYS_MMAP2 => SyscallCode::SYS_MMAP,
            _ => *self,
        }
    }
}

/// Every call is found again from its number, and a number that is found names that call:
/// `from_u32` and the number of a call are inverse to each other on the numbers of calls.
pub proof fn lemma_syscall_code_roundtrip(code: SyscallCode, value: u32)
    ensures
        SyscallCode::spec_from_u32(code.spec_code()) == code,
        SyscallCode::spec_from_u32(value).spec_code() == value
            || SyscallCode::spec_from_u32(value) == SyscallCode::UNIMPLEMENTED,
{
}

/// Coalescing counts is idempotent.
pub proof fn lemma_count_map_idempotent(code: SyscallCode)
    ensures
        code.spec_count_map().spec_count_map() == code.spec_count_map(),
{
}

} // verus!
