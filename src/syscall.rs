//! Decoding traced syscalls on x86-64: which arguments name a path, where
//! an argument lives among the registers, and how a path is read back out of
//! the tracee's memory.
use vstd::prelude::*;

verus! {

/// The stop signal of a syscall stop under `PTRACE_O_TRACESYSGOOD`:
/// `SIGTRAP | 0x80`.
pub const SYSCALL_STOP_SIGNAL: i32 = 133;

/// The number of bytes in a word read with `PTRACE_PEEKDATA`.
pub const WORD_BYTES: usize = 8;

/// For a syscall number, the argument positions that hold a path: the first,
/// and a second for syscalls that name two paths.
pub open spec fn path_arg_table(nr: u64) -> Option<(usize, Option<usize>)> {
    match nr {
        2u64 => Some((0usize, None)),  // open
        4u64 => Some((0usize, None)),  // stat
        6u64 => Some((0usize, None)),  // lstat
        21u64 => Some((0usize, None)),  // access
        59u64 => Some((0usize, None)),  // execve
        76u64 => Some((0usize, None)),  // truncate
        80u64 => Some((0usize, None)),  // chdir
        82u64 => Some((0usize, Some(1usize))),  // rename
        83u64 => Some((0usize, None)),  // mkdir
        84u64 => Some((0usize, None)),  // rmdir
        85u64 => Some((0usize, None)),  // creat
        86u64 => Some((0usize, Some(1usize))),  // link
        87u64 => Some((0usize, None)),  // unlink
        88u64 => Some((0usize, Some(1usize))),  // symlink
        89u64 => Some((0usize, None)),  // readlink
        90u64 => Some((0usize, None)),  // chmod
        92u64 => Some((0usize, None)),  // chown
        94u64 => Some((0usize, None)),  // lchown
        257u64 => Some((1usize, None)),  // openat
        258u64 => Some((1usize, None)),  // mkdirat
        260u64 => Some((1usize, None)),  // fchownat
        262u64 => Some((1usize, None)),  // newfstatat
        263u64 => Some((1usize, None)),  // unlinkat
        264u64 => Some((1usize, Some(3usize))),  // renameat
        265u64 => Some((1usize, Some(3usize))),  // linkat
        266u64 => Some((0usize, Some(2usize))),  // symlinkat
        267u64 => Some((1usize, None)),  // readlinkat
        268u64 => Some((1usize, None)),  // fchmodat
        269u64 => Some((1usize, None)),  // faccessat
        316u64 => Some((1usize, Some(3usize))),  // renameat2
        322u64 => Some((1usize, None)),  // execveat
        332u64 => Some((1usize, None)),  // statx
        439u64 => Some((1usize, None)),  // faccessat2
        _ => None,
    }
}

/// The argument positions that hold a path for syscall `nr`, if any.
pub fn path_args(nr: u64) -> (r: Option<(usize, Option<usize>)>)
    ensures
        r == path_arg_table(nr),
{
    match nr {
        2u64 => Some((0usize, None)),  // open
        4u64 => Some((0usize, None)),  // stat
        6u64 => Some((0usize, None)),  // lstat
        21u64 => Some((0usize, None)),  // access
        59u64 => Some((0usize, None)),  // execve
        76u64 => Some((0usize, None)),  // truncate
        80u64 => Some((0usize, None)),  // chdir
        82u64 => Some((0usize, Some(1usize))),  // rename
        83u64 => Some((0usize, None)),  // mkdir
        84u64 => Some((0usize, None)),  // rmdir
        85u64 => Some((0usize, None)),  // creat
        86u64 => Some((0usize, Some(1usize))),  // link
        87u64 => Some((0usize, None)),  // unlink
        88u64 => Some((0usize, Some(1usize))),  // symlink
        89u64 => Some((0usize, None)),  // readlink
        90u64 => Some((0usize, None)),  // chmod
        92u64 => Some((0usize, None)),  // chown
        94u64 => Some((0usize, None)),  // lchown
        257u64 => Some((1usize, None)),  // openat
        258u64 => Some((1usize, None)),  // mkdirat
        260u64 => Some((1usize, None)),  // fchownat
        262u64 => Some((1usize, None)),  // newfstatat
        263u64 => Some((1usize, None)),  // unlinkat
        264u64 => Some((1usize, Some(3usize))),  // renameat
        265u64 => Some((1usize, Some(3usize))),  // linkat
        266u64 => Some((0usize, Some(2usize))),  // symlinkat
        267u64 => Some((1usize, None)),  // readlinkat
        268u64 => Some((1usize, None)),  // fchmodat
        269u64 => Some((1usize, None)),  // faccessat
        316u64 => Some((1usize, Some(3usize))),  // renameat2
        322u64 => Some((1usize, None)),  // execveat
        332u64 => Some((1usize, None)),  // statx
        439u64 => Some((1usize, None)),  // faccessat2
        _ => None,
    }
}

/// The registers that carry a syscall's number and arguments.
#[derive(Clone, Copy, Debug, PartialEq, Eq, Structural)]
pub struct SyscallRegisters {
    pub orig_rax: u64,
    pub rdi: u64,
    pub rsi: u64,
    pub rdx: u64,
    pub r10: u64,
    pub r8: u64,
    pub r9: u64,
}

/// The register that holds argument `idx` (0 to 5).
pub open spec fn arg_of(regs: SyscallRegisters, idx: usize) -> u64 {
    if idx == 0 {
        regs.rdi
    } else if idx == 1 {
        regs.rsi
    } else if idx == 2 {
        regs.rdx
    } else if idx == 3 {
        regs.r10
    } else if idx == 4 {
        regs.r8
    } else {
        regs.r9
    }
}

impl SyscallRegisters {
    /// The syscall number.
    pub fn number(&self) -> (r: u64)
        ensures
            r == self.orig_rax,
    {
        self.orig_rax
    }

    /// Argument `idx` of the syscall.
    pub fn arg(&self, idx: usize) -> (r: u64)
        requires
            idx < 6,
        ensures
            r == arg_of(*self, idx),
    {
        if idx == 0 {
            self.rdi
        } else if idx == 1 {
            self.rsi
        } else if idx == 2 {
            self.rdx
        } else if idx == 3 {
            self.r10
        } else if idx == 4 {
            self.r8
        } else {
            self.r9
        }
    }
}

/// The signal to hand the tracee when resuming it after a stop on `sig`:
/// none (0) after a syscall stop, else the signal itself.
pub open spec fn resume_signal_of(sig: i32) -> i32 {
    if sig == SYSCALL_STOP_SIGNAL {
        0
    } else {
        sig
    }
}

/// The signal to hand the tracee when resuming it after a stop on `sig`.
pub fn resume_signal(sig: i32) -> (r: i32)
    ensures
        r == resume_signal_of(sig),
{
    if sig == SYSCALL_STOP_SIGNAL {
        0
    } else {
        sig
    }
}

/// Byte `k` (0 is the lowest) of a little-endian word.
pub open spec fn byte_of(w: u64, k: u64) -> u8 {
    #[verifier::truncate] (((w >> (8 * k)) & 0xffu64) as u8)
}

/// The bytes of a run of little-endian words, in memory order.
pub open spec fn word_bytes(words: Seq<u64>) -> Seq<u8> {
    Seq::new(8 * words.len(), |i: int| byte_of(words[i / 8], (i % 8) as u64))
}

/// The string that starts at the first byte: up to its first NUL, or all of
/// the bytes if they hold none.
pub open spec fn until_nul(b: Seq<u8>) -> Seq<u8> {
    if exists|i: int| 0 <= i < b.len() && b[i] == 0 {
        let i = choose|i: int| 0 <= i < b.len() && b[i] == 0 && forall|j: int| 0 <= j < i ==> b[j] != 0;
        b.subrange(0, i)
    } else {
        b
    }
}

/// Byte `i` of a run of words is byte `i % 8` of word `i / 8`.
proof fn lemma_word_byte(words: Seq<u64>, i: int)
    requires
        0 <= i < 8 * words.len(),
    ensures
        word_bytes(words)[i] == byte_of(words[i / 8], (i % 8) as u64),
        0 <= i / 8 < words.len(),
{
    assert(0 <= i / 8 < words.len()) by (nonlinear_arith)
        requires
            0 <= i < 8 * words.len(),
    ;
}

/// The NUL-terminated string held by words peeked from the tracee.
pub fn c_string_from_words(words: &Vec<u64>) -> (r: Vec<u8>)
    requires
        8 * words@.len() <= usize::MAX,
    ensures
        r@ == until_nul(word_bytes(words@)),
{
    let ghost b = word_bytes(words@);
    let n = words.len() * WORD_BYTES;
    let mut r: Vec<u8> = Vec::new();
    let mut i: usize = 0;
    while i < n
        invariant
            b == word_bytes(words@),
            n == b.len(),
            n == 8 * words@.len(),
            i <= n,
            r@ == b.subrange(0, i as int),
            forall|j: int| 0 <= j < i ==> b[j] != 0,
        decreases n - i,
    {
        let w = words[i / WORD_BYTES];
        let k = (i % WORD_BYTES) as u64;
        let byte = #[verifier::truncate] (((w >> (8 * k)) & 0xffu64) as u8);
        proof {
            lemma_word_byte(words@, i as int);
        }
        assert(byte == b[i as int]);
        if byte == 0 {
            proof {
                assert(b[i as int] == 0);
                let c = choose|c: int| 0 <= c < b.len() && b[c] == 0 && forall|j: int| 0 <= j < c ==> b[j] != 0;
                assert(c == i) by {
                    if c < i {
                        assert(b[c] != 0);
                    } else if c > i {
                        assert(b[i as int] != 0);
                    }
                }
            }
            return r;
        }
        r.push(byte);
        i = i + 1;
        assert(r@ =~= b.subrange(0, i as int));
    }
    assert(b.subrange(0, n as int) =~= b);
    r
}

/// Which tracees are inside a syscall: a syscall stop of a tracee is an
/// entry when it is not, and an exit when it is.
pub struct SyscallToggle {
    inside: Vec<i32>,
}

impl SyscallToggle {
    /// Whether `pid` is inside a syscall.
    pub closed spec fn is_inside(&self, pid: i32) -> bool {
        self.inside@.contains(pid)
    }

    /// Each tracee is listed at most once.
    pub closed spec fn wf(&self) -> bool {
        self.inside@.no_duplicates()
    }

    /// No tracee inside a syscall.
    pub fn new() -> (r: SyscallToggle)
        ensures
            r.wf(),
            forall|pid: i32| !r.is_inside(pid),
    {
        SyscallToggle { inside: Vec::new() }
    }

    /// Takes in a syscall stop of `pid`; returns whether it is an entry.
    pub fn on_stop(&mut self, pid: i32) -> (entry: bool)
        requires
            old(self).wf(),
        ensures
            final(self).wf(),
            entry == !old(self).is_inside(pid),
            final(self).is_inside(pid) == entry,
            forall|q: i32| q != pid ==> final(self).is_inside(q) == old(self).is_inside(q),
    {
        let n = self.inside.len();
        let mut i: usize = 0;
        while i < n
            invariant
                n == self.inside@.len(),
                i <= n,
                self.inside@ == old(self).inside@,
                self.inside@.no_duplicates(),
                forall|j: int| 0 <= j < i ==> self.inside@[j] != pid,
            decreases n - i,
        {
            if self.inside[i] == pid {
                let ghost before = self.inside@;
                self.inside.remove(i);
                proof {
                    let after = self.inside@;
                    assert(after =~= before.remove(i as int));
                    assert forall|a: int, b: int| 0 <= a < b < after.len() implies after[a]
                        != after[b] by {
                        if a < i {
                            if b < i {
                                assert(before[a] != before[b]);
                            } else {
                                assert(before[a] != before[b + 1]);
                            }
                        } else {
                            assert(before[a + 1] != before[b + 1]);
                        }
                    }
                    assert(!after.contains(pid)) by {
                        if after.contains(pid) {
                            let k = choose|k: int| 0 <= k < after.len() && after[k] == pid;
                            if k < i {
                                assert(before[k] == pid);
                            } else {
                                assert(before[k + 1] == before[i as int]);
                            }
                        }
                    }
                    assert forall|q: i32| q != pid implies after.contains(q) == before.contains(q)
                        by {
                        if before.contains(q) {
                            let k = choose|k: int| 0 <= k < before.len() && before[k] == q;
                            if k < i {
                                assert(after[k] == q);
                            } else {
                                assert(k != i);
                                assert(after[k - 1] == q);
                            }
                        }
                        if after.contains(q) {
                            let k = choose|k: int| 0 <= k < after.len() && after[k] == q;
                            if k < i {
                                assert(before[k] == q);
                            } else {
                                assert(before[k + 1] == q);
                            }
                        }
                    }
                    assert(before[i as int] == pid);
                }
                return false;
            }
            i = i + 1;
        }
        let ghost before = self.inside@;
        self.inside.push(pid);
        proof {
            let after = self.inside@;
            assert(!before.contains(pid));
            assert(after[before.len() as int] == pid);
            assert forall|a: int, b: int| 0 <= a < b < after.len() implies after[a] != after[b] by {
                if b == before.len() {
                    assert(before[a] == after[a]);
                } else {
                    assert(before[a] != before[b]);
                }
            }
            assert forall|q: i32| q != pid implies after.contains(q) == before.contains(q) by {
                if before.contains(q) {
                    let k = choose|k: int| 0 <= k < before.len() && before[k] == q;
                    assert(after[k] == q);
                }
                if after.contains(q) {
                    let k = choose|k: int| 0 <= k < after.len() && after[k] == q;
                    assert(before[k] == q);
                }
            }
        }
        true
    }
}

} // verus!
