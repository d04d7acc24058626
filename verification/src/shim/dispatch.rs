//! One match over the syscall number.
//!
//! Grouped by what the call touches — output, input, memory, identity — rather
//! than by number, because a reader looking for "how does the guest print"
//! wants the first group, not syscall 64.
use vstd::prelude::*;
use super::host::{Errno, HostIo, SysResult};
use super::number as sys;
use super::structs::{self, holds_after, stat_image, unchanged, utsname_image, STAT_BYTES, UTSNAME_BYTES};
use super::Shim;
use crate::interp::memory::{le_bytes, little_endian};
use crate::interp::{Cpu, Memory};
use crate::trace::TraceSink;

verus! {

/// What servicing a syscall produced.
#[derive(Debug, Clone, Copy, PartialEq, Eq)]
pub enum Outcome {
    /// A value or error to place in `x0`.
    Returned(SysResult),
    /// The guest asked to terminate.
    Exited(i32),
}

/// Largest single transfer the shim will stage through a buffer.
///
/// A guest asking for more gets a short read or write, which is a legal answer
/// to both calls and keeps one bad length from allocating without bound.
pub const MAX_TRANSFER: u64 = 0x10_0000;

/// Where `fstat` (second argument) or `newfstatat` (third) wants its `stat`.
pub open spec fn stat_buffer(number: u64, args: Seq<u64>) -> u64 {
    if number == sys::FSTAT { args[1] } else { args[2] }
}

/// A transfer length, capped at [`MAX_TRANSFER`].
pub open spec fn capped(len: u64) -> u64 {
    if len < MAX_TRANSFER { len } else { MAX_TRANSFER }
}

/// Longest path the shim will read out of guest memory.
pub const MAX_PATH: u64 = 4096;

/// The answer a call gives that needs neither the host, memory nor the arena:
/// success for what the shim can safely pretend to do, `ENOENT` for the file
/// queries, `ENOSYS` for the calls refused by name.
pub open spec fn fixed_answer(number: u64) -> Option<SysResult> {
    if number == sys::MUNMAP || number == sys::MPROTECT || number == sys::MADVISE || number == sys::LSEEK
        || number == sys::SET_ROBUST_LIST || number == sys::RSEQ || number == sys::PRLIMIT64
        || number == sys::RT_SIGACTION || number == sys::RT_SIGPROCMASK || number == sys::FCNTL
        || number == sys::GETPPID || number == sys::GETUID || number == sys::GETEUID || number == sys::GETGID
        || number == sys::GETEGID {
        Some(Ok(0))
    } else if number == sys::SET_TID_ADDRESS || number == sys::GETTID || number == sys::GETPID {
        Some(Ok(1))
    } else if number == sys::FACCESSAT || number == sys::READLINKAT || number == sys::GETCWD {
        Some(Err(Errno::NoEnt))
    } else if number == sys::CLONE || number == sys::FUTEX || number == sys::EXECVE || number == sys::WAIT4
        || number == sys::TGKILL {
        Some(Err(Errno::NoSys))
    } else {
        None
    }
}

/// Whether the shim answers `number` at all; every other number is `ENOSYS`
/// and is recorded.
pub open spec fn is_known(number: u64) -> bool {
    ||| fixed_answer(number) is Some
    ||| number == sys::EXIT || number == sys::EXIT_GROUP
    ||| number == sys::WRITE || number == sys::WRITEV || number == sys::READ || number == sys::READV
    ||| number == sys::BRK || number == sys::MMAP || number == sys::OPENAT || number == sys::CLOSE
    ||| number == sys::FSTAT || number == sys::NEWFSTATAT || number == sys::UNAME
    ||| number == sys::CLOCK_GETTIME || number == sys::GETRANDOM || number == sys::IOCTL
    ||| number == sys::SCHED_GETAFFINITY
}

/// `value` as the low 32 bits, two's complement.
pub open spec fn low_i32(value: u64) -> i32 {
    let low = value as int % 0x1_0000_0000;
    (if low >= 0x8000_0000 { low - 0x1_0000_0000 } else { low }) as i32
}

/// The low 32 bits of `value`, read as a signed number.
fn as_i32(value: u64) -> (r: i32)
    ensures
        r == low_i32(value),
{
    let low = value % 0x1_0000_0000;
    if low >= 0x8000_0000 {
        (low as i64 - 0x1_0000_0000) as i32
    } else {
        low as i32
    }
}

/// Whether syscall `number` reaches the host: the file, clock and random
/// calls. Every other call leaves the host as it was.
pub open spec fn uses_host(number: u64) -> bool {
    ||| number == sys::WRITE || number == sys::WRITEV || number == sys::READ || number == sys::READV
    ||| number == sys::OPENAT || number == sys::CLOSE || number == sys::FSTAT || number == sys::NEWFSTATAT
    ||| number == sys::CLOCK_GETTIME || number == sys::GETRANDOM || number == sys::IOCTL
}

/// What [`call`] does: how it leaves the shim and the CPU, and what it
/// answers, for syscall `number` with arguments `args`. Registers, the trap
/// log, the count and the cache stay; each number's clause says what it
/// answers and what it leaves in memory and in the host.
pub open spec fn answered<H: HostIo, M: Memory, S: TraceSink>(
    shim0: Shim<H>,
    shim1: Shim<H>,
    cpu0: Cpu<M, S>,
    cpu1: Cpu<M, S>,
    number: u64,
    args: Seq<u64>,
    r: Outcome,
) -> bool {
    &&& (shim1.well_formed())
    &&& (number != sys::BRK && number != sys::MMAP ==> shim1.map == shim0.map)
    &&& (is_known(number) ==> shim1.unhandled@ == shim0.unhandled@)
    &&& (!uses_host(number) ==> shim1.host == shim0.host)
    &&& (cpu1.regs == cpu0.regs)
    &&& (cpu1.trap_log == cpu0.trap_log)
    &&& (cpu1.icount == cpu0.icount)
    &&& (cpu1.cache == cpu0.cache)
    &&& (!(number == sys::EXIT || number == sys::EXIT_GROUP) ==> r is Returned)
    &&& ((number == sys::EXIT || number == sys::EXIT_GROUP) ==> {
        &&& r == Outcome::Exited(low_i32(args[0]))
        &&& shim1 == shim0
        &&& cpu1.memory == cpu0.memory
    })
    &&& (fixed_answer(number) matches Some(answer) ==> {
        &&& r == Outcome::Returned(answer)
        &&& shim1 == shim0
        &&& cpu1.memory == cpu0.memory
    })
    &&& (number == sys::BRK ==> {
        &&& shim1.map.arena() == shim0.map.arena()
        &&& shim1.map.current_brk() == (if shim0.map.arena().heap_base <= args[0] <= shim0.map.arena().heap_limit {
            args[0]
        } else {
            shim0.map.current_brk()
        })
        &&& r == Outcome::Returned(Ok(shim1.map.current_brk()))
        &&& shim1.map.next_mapping() == shim0.map.next_mapping()
        &&& shim1.host == shim0.host
        &&& shim1.unhandled@ == shim0.unhandled@
        &&& cpu1.memory == cpu0.memory
    })
    &&& (number == sys::MMAP ==> {
        let mapped = args[1] != 0 && shim0.map.next_mapping() + super::memory_map::page_rounded(args[1])
            <= shim0.map.arena().mmap_limit;
        &&& mapped ==> r == Outcome::Returned(Ok(shim0.map.next_mapping()))
        &&& !mapped ==> r == Outcome::Returned(Err(Errno::NoMem)) && shim1.map == shim0.map
        &&& shim1.map.mapped(shim0.map, args[1], if mapped { Some(shim0.map.next_mapping()) } else { None })
        &&& shim1.host == shim0.host
        &&& shim1.unhandled@ == shim0.unhandled@
        &&& cpu1.memory == cpu0.memory
    })
    &&& (number == sys::SCHED_GETAFFINITY ==> {
        &&& args[1] < 8 ==> r == Outcome::Returned(Err(Errno::Inval)) && cpu1.memory == cpu0.memory
        &&& args[1] >= 8 && cpu0.memory.covers(args[2], 8) ==> r == Outcome::Returned(Ok(8))
            && holds_after(cpu1.memory, cpu0.memory, args[2], le_bytes(1, 8))
        &&& args[1] >= 8 && !cpu0.memory.covers(args[2], 8) ==> r == Outcome::Returned(Err(Errno::Fault))
    })
    &&& (number == sys::UNAME ==> {
        &&& cpu0.memory.covers(args[0], UTSNAME_BYTES as nat) ==> r == Outcome::Returned(Ok(0))
            && holds_after(cpu1.memory, cpu0.memory, args[0], utsname_image())
        &&& !cpu0.memory.covers(args[0], UTSNAME_BYTES as nat) ==> r == Outcome::Returned(Err(Errno::Fault))
            && unchanged(cpu1.memory, cpu0.memory)
    })
    &&& (number == sys::GETRANDOM ==> {
        let len = capped(args[1]);
        &&& r == Outcome::Returned(Ok(len)) <==> cpu0.memory.covers(args[0], len as nat)
        &&& r == Outcome::Returned(Ok(len)) ==> exists|bytes: Seq<u8>| bytes.len() == len
            && #[trigger] holds_after(cpu1.memory, cpu0.memory, args[0], bytes)
        &&& r != Outcome::Returned(Ok(len)) ==> r == Outcome::Returned(Err(Errno::Fault))
            && unchanged(cpu1.memory, cpu0.memory)
    })
    &&& (number == sys::IOCTL ==> {
        &&& r == Outcome::Returned(Ok(0)) || r == Outcome::Returned(Err(Errno::NoTty))
        &&& cpu1.memory == cpu0.memory
    })
    &&& ((number == sys::FSTAT || number == sys::NEWFSTATAT) ==> {
        let address = stat_buffer(number, args);
        &&& r matches Outcome::Returned(Ok(value)) ==> value == 0 && exists|is_terminal: bool, size: u64|
            #[trigger] holds_after(cpu1.memory, cpu0.memory, address, stat_image(is_terminal, size))
        &&& r matches Outcome::Returned(Err(_)) ==> unchanged(cpu1.memory, cpu0.memory)
        &&& !cpu0.memory.covers(address, STAT_BYTES as nat) ==> r matches Outcome::Returned(Err(_))
    })
    &&& (number == sys::CLOCK_GETTIME ==> {
        &&& args[1] > u64::MAX - 16 ==> r == Outcome::Returned(Err(Errno::Fault))
            && cpu1.memory == cpu0.memory
        &&& args[1] <= u64::MAX - 16 ==> {
            &&& r == Outcome::Returned(Ok(0)) <==> cpu0.memory.covers(args[1], 8)
                && cpu0.memory.covers((args[1] + 8) as u64, 8)
            &&& r == Outcome::Returned(Ok(0)) ==> exists|nanos: u64| #[trigger] holds_after(
                cpu1.memory,
                cpu0.memory,
                args[1],
                le_bytes((nanos / 1_000_000_000) as nat, 8) + le_bytes((nanos % 1_000_000_000) as nat, 8),
            )
            &&& r != Outcome::Returned(Ok(0)) ==> r == Outcome::Returned(Err(Errno::Fault))
        }
    })
    &&& (number == sys::WRITE ==> {
        &&& cpu1.memory == cpu0.memory
        &&& !cpu0.memory.covers(args[1], capped(args[2]) as nat)
            ==> r == Outcome::Returned(Err(Errno::Fault)) && shim1 == shim0
    })
    &&& (number == sys::READ ==> {
        &&& r matches Outcome::Returned(Ok(count)) ==> count <= capped(args[2]) && exists|bytes: Seq<u8>|
            bytes.len() == count && #[trigger] holds_after(cpu1.memory, cpu0.memory, args[1], bytes)
        &&& r matches Outcome::Returned(Err(_)) ==> unchanged(cpu1.memory, cpu0.memory)
    })
    &&& (number == sys::WRITEV ==> cpu1.memory == cpu0.memory)
    &&& (number == sys::WRITE ==> {
        let (reply, host) = sent::<H, M>(
            shim0.host.state(),
            cpu0.memory,
            image_of(cpu0.memory),
            low_i32(args[0]),
            args[1],
            args[2],
        );
        r == Outcome::Returned(reply) && shim1.host.state() == host
    })
    &&& (number == sys::WRITEV ==> {
        let (reply, host) = gathered::<H, M>(shim0.host.state(), cpu0.memory, low_i32(args[0]), args[1], args[2], 0, 0);
        r == Outcome::Returned(reply) && shim1.host.state() == host
    })
    &&& (number == sys::READ ==> {
        let (reply, host, image) = received::<H, M>(
            shim0.host.state(),
            cpu0.memory,
            image_of(cpu0.memory),
            low_i32(args[0]),
            args[1],
            args[2],
        );
        &&& r == Outcome::Returned(reply)
        &&& shim1.host.state() == host
        &&& forall|a: int| #[trigger] cpu1.memory.byte_at(a) == image(a)
    })
    &&& (number == sys::READV ==> {
        let (reply, host, image) = scattered::<H, M>(
            shim0.host.state(),
            cpu0.memory,
            image_of(cpu0.memory),
            low_i32(args[0]),
            args[1],
            args[2],
            0,
            0,
        );
        &&& r == Outcome::Returned(reply)
        &&& shim1.host.state() == host
        &&& forall|a: int| #[trigger] cpu1.memory.byte_at(a) == image(a)
        &&& forall|a: u64, n: nat| #[trigger] cpu1.memory.covers(a, n) == cpu0.memory.covers(a, n)
    })
    &&& (number == sys::OPENAT ==> r == Outcome::Returned(opened::<H, M>(shim0.host.state(), cpu0.memory, args).0)
        && shim1.host.state() == opened::<H, M>(shim0.host.state(), cpu0.memory, args).1)
    &&& (number == sys::IOCTL ==> r == Outcome::Returned(queried::<H>(shim0.host.state(), low_i32(args[0])).0)
        && shim1.host.state() == queried::<H>(shim0.host.state(), low_i32(args[0])).1)
    &&& ((number == sys::FSTAT || number == sys::NEWFSTATAT) ==> {
        let address = stat_buffer(number, args);
        let (reply, host, file) = statted::<H>(
            shim0.host.state(),
            low_i32(args[0]),
            cpu0.memory.covers(address, STAT_BYTES as nat),
        );
        &&& r == Outcome::Returned(reply)
        &&& shim1.host.state() == host
        &&& reply is Ok ==> holds_after(cpu1.memory, cpu0.memory, address, stat_image(file.0, file.1))
    })
    &&& (!is_known(number) ==> {
        &&& r == Outcome::Returned(Err(Errno::NoSys))
        &&& shim1.records_unhandled(shim0, number)
        &&& cpu1.memory == cpu0.memory
    })
}

/// Services one syscall.
///
/// `exit` and `exit_group` end the guest with the low 32 bits of `x0`. The
/// fixed answers, `brk`, `mmap` and `sched_getaffinity` are stated below; an
/// unknown number is `ENOSYS` and is recorded. The host-backed calls answer
/// what the host does, and a guest buffer outside memory is `EFAULT`.
pub fn call<H: HostIo, M: Memory, S: TraceSink>(
    shim: &mut Shim<H>,
    cpu: &mut Cpu<M, S>,
    number: u64,
    args: &[u64; 6],
) -> (r: Outcome)
    requires
        old(shim).well_formed(),
    ensures
        answered(*old(shim), *final(shim), *old(cpu), *final(cpu), number, args@, r),
{
    if number == sys::EXIT || number == sys::EXIT_GROUP {
        return Outcome::Exited(as_i32(args[0]));
    }
    if number == sys::WRITE {
        return Outcome::Returned(transfer_out(shim, &cpu.memory, as_i32(args[0]), (args[1], args[2])));
    }
    if number == sys::WRITEV {
        return Outcome::Returned(writev(shim, &cpu.memory, args));
    }
    if number == sys::READ {
        let ghost before = cpu.memory;
        let result = transfer_in(shim, &mut cpu.memory, as_i32(args[0]), (args[1], args[2]));
        proof {
            if let Ok(count) = result {
                let bytes = choose|bytes: Seq<u8>|
                    bytes.len() == count && holds_after(cpu.memory, before, args@[1], bytes);
                assert(holds_after(cpu.memory, before, args@[1], bytes));
            }
        }
        return Outcome::Returned(result);
    }
    if number == sys::READV {
        return Outcome::Returned(readv(shim, &mut cpu.memory, args));
    }
    other(shim, cpu, number, args)
}

/// The calls that are a value, a memory poke, or a refusal.
fn other<H: HostIo, M: Memory, S: TraceSink>(
    shim: &mut Shim<H>,
    cpu: &mut Cpu<M, S>,
    number: u64,
    args: &[u64; 6],
) -> (r: Outcome)
    requires
        old(shim).well_formed(),
        number != sys::EXIT && number != sys::EXIT_GROUP && number != sys::WRITE && number != sys::WRITEV
            && number != sys::READ && number != sys::READV,
    ensures
        final(shim).well_formed(),
        number != sys::BRK && number != sys::MMAP ==> final(shim).map == old(shim).map,
        is_known(number) ==> final(shim).unhandled@ == old(shim).unhandled@,
        !uses_host(number) ==> final(shim).host == old(shim).host,
        final(cpu).regs == old(cpu).regs,
        final(cpu).trap_log == old(cpu).trap_log,
        final(cpu).icount == old(cpu).icount,
        final(cpu).cache == old(cpu).cache,
        r is Returned,
        fixed_answer(number) matches Some(answer) ==> {
            &&& r == Outcome::Returned(answer)
            &&& *final(shim) == *old(shim)
            &&& final(cpu).memory == old(cpu).memory
        },
        number == sys::BRK ==> {
            &&& final(shim).map.arena() == old(shim).map.arena()
            &&& final(shim).map.current_brk() == (if old(shim).map.arena().heap_base <= args@[0] <= old(shim).map.arena().heap_limit {
                args@[0]
            } else {
                old(shim).map.current_brk()
            })
            &&& r == Outcome::Returned(Ok(final(shim).map.current_brk()))
            &&& final(shim).map.next_mapping() == old(shim).map.next_mapping()
            &&& final(shim).host == old(shim).host
            &&& final(shim).unhandled@ == old(shim).unhandled@
            &&& final(cpu).memory == old(cpu).memory
        },
        number == sys::MMAP ==> {
            let mapped = args@[1] != 0 && old(shim).map.next_mapping() + super::memory_map::page_rounded(args@[1])
                <= old(shim).map.arena().mmap_limit;
            &&& mapped ==> r == Outcome::Returned(Ok(old(shim).map.next_mapping()))
            &&& !mapped ==> r == Outcome::Returned(Err(Errno::NoMem)) && final(shim).map == old(shim).map
            &&& final(shim).map.mapped(old(shim).map, args@[1], if mapped { Some(old(shim).map.next_mapping()) } else { None })
            &&& final(shim).host == old(shim).host
            &&& final(shim).unhandled@ == old(shim).unhandled@
            &&& final(cpu).memory == old(cpu).memory
        },
        number == sys::SCHED_GETAFFINITY ==> {
            &&& args@[1] < 8 ==> r == Outcome::Returned(Err(Errno::Inval)) && final(cpu).memory == old(cpu).memory
            &&& args@[1] >= 8 && old(cpu).memory.covers(args@[2], 8) ==> r == Outcome::Returned(Ok(8))
                && holds_after(final(cpu).memory, old(cpu).memory, args@[2], le_bytes(1, 8))
            &&& args@[1] >= 8 && !old(cpu).memory.covers(args@[2], 8) ==> r == Outcome::Returned(Err(Errno::Fault))
        },
        number == sys::UNAME ==> {
            &&& old(cpu).memory.covers(args@[0], UTSNAME_BYTES as nat) ==> r == Outcome::Returned(Ok(0))
                && holds_after(final(cpu).memory, old(cpu).memory, args@[0], utsname_image())
            &&& !old(cpu).memory.covers(args@[0], UTSNAME_BYTES as nat) ==> r == Outcome::Returned(Err(Errno::Fault))
                && unchanged(final(cpu).memory, old(cpu).memory)
        },
        number == sys::GETRANDOM ==> {
            let len = capped(args@[1]);
            &&& r == Outcome::Returned(Ok(len)) <==> old(cpu).memory.covers(args@[0], len as nat)
            &&& r == Outcome::Returned(Ok(len)) ==> exists|bytes: Seq<u8>| bytes.len() == len
                && #[trigger] holds_after(final(cpu).memory, old(cpu).memory, args@[0], bytes)
            &&& r != Outcome::Returned(Ok(len)) ==> r == Outcome::Returned(Err(Errno::Fault))
                && unchanged(final(cpu).memory, old(cpu).memory)
        },
        number == sys::IOCTL ==> {
            &&& r == Outcome::Returned(Ok(0)) || r == Outcome::Returned(Err(Errno::NoTty))
            &&& final(cpu).memory == old(cpu).memory
        },
        (number == sys::FSTAT || number == sys::NEWFSTATAT) ==> {
            let address = stat_buffer(number, args@);
            &&& r matches Outcome::Returned(Ok(value)) ==> value == 0 && exists|is_terminal: bool, size: u64|
                #[trigger] holds_after(final(cpu).memory, old(cpu).memory, address, stat_image(is_terminal, size))
            &&& r matches Outcome::Returned(Err(_)) ==> unchanged(final(cpu).memory, old(cpu).memory)
            &&& !old(cpu).memory.covers(address, STAT_BYTES as nat) ==> r matches Outcome::Returned(Err(_))
        },
        number == sys::CLOCK_GETTIME ==> {
            &&& args@[1] > u64::MAX - 16 ==> r == Outcome::Returned(Err(Errno::Fault))
                && final(cpu).memory == old(cpu).memory
            &&& args@[1] <= u64::MAX - 16 ==> {
                &&& r == Outcome::Returned(Ok(0)) <==> old(cpu).memory.covers(args@[1], 8)
                    && old(cpu).memory.covers((args@[1] + 8) as u64, 8)
                &&& r == Outcome::Returned(Ok(0)) ==> exists|nanos: u64| #[trigger] holds_after(
                    final(cpu).memory,
                    old(cpu).memory,
                    args@[1],
                    le_bytes((nanos / 1_000_000_000) as nat, 8) + le_bytes((nanos % 1_000_000_000) as nat, 8),
                )
                &&& r != Outcome::Returned(Ok(0)) ==> r == Outcome::Returned(Err(Errno::Fault))
            }
        },
        number == sys::OPENAT ==> r == Outcome::Returned(opened::<H, M>(old(shim).host.state(), old(cpu).memory, args@).0)
            && final(shim).host.state() == opened::<H, M>(old(shim).host.state(), old(cpu).memory, args@).1,
        number == sys::IOCTL ==> r == Outcome::Returned(queried::<H>(old(shim).host.state(), low_i32(args@[0])).0)
            && final(shim).host.state() == queried::<H>(old(shim).host.state(), low_i32(args@[0])).1,
        (number == sys::FSTAT || number == sys::NEWFSTATAT) ==> {
            let address = stat_buffer(number, args@);
            let (reply, host, file) = statted::<H>(
                old(shim).host.state(),
                low_i32(args@[0]),
                old(cpu).memory.covers(address, STAT_BYTES as nat),
            );
            &&& r == Outcome::Returned(reply)
            &&& final(shim).host.state() == host
            &&& reply is Ok ==> holds_after(final(cpu).memory, old(cpu).memory, address, stat_image(file.0, file.1))
        },
        !is_known(number) ==> {
            &&& r == Outcome::Returned(Err(Errno::NoSys))
            &&& final(shim).records_unhandled(*old(shim), number)
            &&& final(cpu).memory == old(cpu).memory
        },
{
    if number == sys::OPENAT || number == sys::CLOSE || number == sys::FSTAT || number == sys::NEWFSTATAT
        || number == sys::CLOCK_GETTIME || number == sys::GETRANDOM || number == sys::IOCTL {
        let ghost before = cpu.memory;
        let result = host_backed(shim, &mut cpu.memory, number, args);
        proof {
            if number == sys::GETRANDOM && result == Ok::<u64, Errno>(capped(args@[1])) {
                let bytes = choose|bytes: Seq<u8>|
                    bytes.len() == capped(args@[1]) && holds_after(cpu.memory, before, args@[0], bytes);
                assert(holds_after(cpu.memory, before, args@[0], bytes));
            }
            if (number == sys::FSTAT || number == sys::NEWFSTATAT) && result is Ok {
                let (is_terminal, size) = choose|is_terminal: bool, size: u64|
                    holds_after(cpu.memory, before, stat_buffer(number, args@), stat_image(is_terminal, size));
                assert(holds_after(cpu.memory, before, stat_buffer(number, args@), stat_image(is_terminal, size)));
            }
            if number == sys::CLOCK_GETTIME && args@[1] <= u64::MAX - 16 && result == Ok::<u64, Errno>(0) {
                let nanos = choose|nanos: u64| #[trigger] holds_after(
                    cpu.memory,
                    before,
                    args@[1],
                    le_bytes((nanos / 1_000_000_000) as nat, 8) + le_bytes((nanos % 1_000_000_000) as nat, 8),
                );
                assert(holds_after(
                    cpu.memory,
                    before,
                    args@[1],
                    le_bytes((nanos / 1_000_000_000) as nat, 8) + le_bytes((nanos % 1_000_000_000) as nat, 8),
                ));
            }
        }
        return Outcome::Returned(result);
    }
    let result: SysResult = if number == sys::BRK {
        Ok(shim.map.set_brk(args[0]))
    } else if number == sys::MMAP {
        match shim.map.map(args[1]) {
            Some(base) => Ok(base),
            None => Err(Errno::NoMem),
        }
    } else if number == sys::MUNMAP || number == sys::MPROTECT || number == sys::MADVISE {
        // Nothing is reclaimed; see the module docs.
        Ok(0)
    } else if number == sys::UNAME {
        match structs::write_utsname(&mut cpu.memory, args[0]) {
            Ok(()) => Ok(0),
            Err(error) => Err(error),
        }
    } else if number == sys::LSEEK {
        // A terminal has no meaningful seek.
        Ok(0)
    } else if number == sys::FACCESSAT || number == sys::READLINKAT || number == sys::GETCWD {
        Err(Errno::NoEnt)
    } else if number == sys::SET_TID_ADDRESS || number == sys::GETTID || number == sys::GETPID {
        // musl calls these once at startup and ignores a benign answer.
        Ok(1)
    } else if number == sys::SET_ROBUST_LIST || number == sys::RSEQ || number == sys::PRLIMIT64 {
        Ok(0)
    } else if number == sys::RT_SIGACTION || number == sys::RT_SIGPROCMASK || number == sys::FCNTL {
        Ok(0)
    } else if number == sys::GETPPID {
        Ok(0)
    } else if number == sys::GETUID || number == sys::GETEUID || number == sys::GETGID || number == sys::GETEGID {
        Ok(0)
    } else if number == sys::SCHED_GETAFFINITY {
        affinity(&mut cpu.memory, args)
    } else if number == sys::CLONE || number == sys::FUTEX {
        // Single-threaded by decision, not by omission.
        Err(Errno::NoSys)
    } else if number == sys::EXECVE || number == sys::WAIT4 || number == sys::TGKILL {
        // No process model: there is nothing to exec into or wait for.
        Err(Errno::NoSys)
    } else {
        shim.record_unhandled(number);
        Err(Errno::NoSys)
    };
    Outcome::Returned(result)
}

/// The calls the host answers: `openat`, `close`, `fstat`, `newfstatat`,
/// `clock_gettime`, `getrandom` and `ioctl`.
fn host_backed<H: HostIo, M: Memory>(shim: &mut Shim<H>, memory: &mut M, number: u64, args: &[u64; 6]) -> (r: SysResult)
    requires
        old(shim).well_formed(),
    ensures
        final(shim).well_formed(),
        final(shim).map == old(shim).map,
        final(shim).unhandled@ == old(shim).unhandled@,
        number == sys::GETRANDOM ==> {
            let len = capped(args@[1]);
            &&& r == Ok::<u64, Errno>(len) <==> old(memory).covers(args@[0], len as nat)
            &&& r == Ok::<u64, Errno>(len) ==> exists|bytes: Seq<u8>| bytes.len() == len
                && #[trigger] holds_after(*final(memory), *old(memory), args@[0], bytes)
            &&& r != Ok::<u64, Errno>(len) ==> r == Err::<u64, Errno>(Errno::Fault)
                && unchanged(*final(memory), *old(memory))
        },
        number == sys::IOCTL ==> {
            &&& r == Ok::<u64, Errno>(0) || r == Err::<u64, Errno>(Errno::NoTty)
            &&& *final(memory) == *old(memory)
        },
        (number == sys::FSTAT || number == sys::NEWFSTATAT) ==> {
            let address = stat_buffer(number, args@);
            &&& r matches Ok(value) ==> value == 0 && exists|is_terminal: bool, size: u64|
                #[trigger] holds_after(*final(memory), *old(memory), address, stat_image(is_terminal, size))
            &&& r is Err ==> unchanged(*final(memory), *old(memory))
            &&& !old(memory).covers(address, STAT_BYTES as nat) ==> r is Err
        },
        number == sys::CLOCK_GETTIME ==> {
            &&& args@[1] > u64::MAX - 16 ==> r == Err::<u64, Errno>(Errno::Fault) && *final(memory) == *old(memory)
            &&& args@[1] <= u64::MAX - 16 ==> {
                &&& r == Ok::<u64, Errno>(0) <==> old(memory).covers(args@[1], 8)
                    && old(memory).covers((args@[1] + 8) as u64, 8)
                &&& r == Ok::<u64, Errno>(0) ==> exists|nanos: u64| #[trigger] holds_after(
                    *final(memory),
                    *old(memory),
                    args@[1],
                    le_bytes((nanos / 1_000_000_000) as nat, 8) + le_bytes((nanos % 1_000_000_000) as nat, 8),
                )
                &&& r != Ok::<u64, Errno>(0) ==> r == Err::<u64, Errno>(Errno::Fault)
            }
        },
        (number == sys::OPENAT || number == sys::CLOSE) ==> *final(memory) == *old(memory),
        number == sys::OPENAT ==> (r, final(shim).host.state()) == opened::<H, M>(old(shim).host.state(), *old(memory), args@),
        number == sys::IOCTL ==> (r, final(shim).host.state()) == queried::<H>(old(shim).host.state(), low_i32(args@[0])),
        (number == sys::FSTAT || number == sys::NEWFSTATAT) ==> {
            let address = stat_buffer(number, args@);
            let (reply, host, file) = statted::<H>(
                old(shim).host.state(),
                low_i32(args@[0]),
                old(memory).covers(address, STAT_BYTES as nat),
            );
            &&& r == reply
            &&& final(shim).host.state() == host
            &&& r is Ok ==> holds_after(*final(memory), *old(memory), address, stat_image(file.0, file.1))
        },
{
    if number == sys::OPENAT {
        open(shim, memory, args)
    } else if number == sys::CLOSE {
        shim.host.close(as_i32(args[0]))
    } else if number == sys::FSTAT || number == sys::NEWFSTATAT {
        let address = if number == sys::FSTAT { args[1] } else { args[2] };
        let ghost before = *memory;
        let result = fstat(shim, memory, as_i32(args[0]), address);
        proof {
            if result is Ok {
                let (is_terminal, size) = choose|is_terminal: bool, size: u64|
                    #[trigger] holds_after(*memory, before, address, stat_image(is_terminal, size));
                assert(holds_after(*memory, before, stat_buffer(number, args@), stat_image(is_terminal, size)));
            }
        }
        result
    } else if number == sys::CLOCK_GETTIME {
        let nanos = shim.host.monotonic_nanos();
        if args[1] > u64::MAX - 16 {
            Err(Errno::Fault)
        } else {
            let result = structs::write_timespec(memory, args[1], nanos);
            assert(result is Ok ==> holds_after(
                *memory,
                *old(memory),
                args@[1],
                le_bytes((nanos / 1_000_000_000) as nat, 8) + le_bytes((nanos % 1_000_000_000) as nat, 8),
            ));
            result
        }
    } else if number == sys::GETRANDOM {
        getrandom(shim, memory, args)
    } else if number == sys::IOCTL {
        ioctl(shim, args)
    } else {
        Err(Errno::NoSys)
    }
}

/// The bytes of `memory`, address by address.
pub open spec fn image_of<M: Memory>(memory: M) -> spec_fn(int) -> u8 {
    |a: int| memory.byte_at(a)
}

/// `image` with `bytes` stored from `address`.
pub open spec fn stored_image(image: spec_fn(int) -> u8, address: u64, bytes: Seq<u8>) -> spec_fn(int) -> u8 {
    |a: int| if address <= a < address + bytes.len() { bytes[a - address] } else { image(a) }
}

/// The `index`th `iovec` of the array at `array`, read from `image` where
/// `mapped` maps it: `EFAULT` when its address would pass the end of the
/// address space or either of its words is unmapped.
pub open spec fn iovec_in<M: Memory>(mapped: M, image: spec_fn(int) -> u8, array: u64, index: u64) -> Result<structs::IoVec, Errno> {
    if index > (u64::MAX - 16) / 16 || array > u64::MAX - 16 - index * 16 {
        Err(Errno::Fault)
    } else {
        let entry = array + index * 16;
        if mapped.covers(entry as u64, 8) && mapped.covers((entry + 8) as u64, 8) {
            Ok(structs::IoVec {
                base: little_endian(Seq::new(8, |i: int| image(entry + i))) as u64,
                len: little_endian(Seq::new(8, |i: int| image(entry + 8 + i))) as u64,
            })
        } else {
            Err(Errno::Fault)
        }
    }
}

/// What writing `len` bytes from `address` answers, and the host state it
/// leaves: at most [`MAX_TRANSFER`] bytes go to the host, and none when any
/// of them is unmapped, which is `EFAULT`.
pub open spec fn sent<H: HostIo, M: Memory>(
    host: H::State,
    mapped: M,
    image: spec_fn(int) -> u8,
    fd: i32,
    address: u64,
    len: u64,
) -> (SysResult, H::State) {
    let count = capped(len);
    if mapped.covers(address, count as nat) {
        H::write_outcome(host, fd, Seq::new(count as nat, |i: int| image(address + i)))
    } else {
        (Err(Errno::Fault), host)
    }
}

/// What `writev` answers from the `index`th `iovec` on, having written
/// `written` bytes before it, and the host state it leaves: empty buffers are
/// skipped, an error ends the call, and so does a short write, with the count
/// so far.
pub open spec fn gathered<H: HostIo, M: Memory>(
    host: H::State,
    memory: M,
    fd: i32,
    array: u64,
    count: u64,
    index: u64,
    written: u64,
) -> (SysResult, H::State)
    decreases count - index,
{
    if index >= count {
        (Ok(written), host)
    } else {
        match iovec_in(memory, image_of(memory), array, index) {
            Err(error) => (Err(error), host),
            Ok(vector) => if vector.len == 0 {
                gathered::<H, M>(host, memory, fd, array, count, (index + 1) as u64, written)
            } else {
                let (reply, after) = sent::<H, M>(host, memory, image_of(memory), fd, vector.base, vector.len);
                match reply {
                    Err(error) => (Err(error), after),
                    Ok(n) => if n < vector.len {
                        (Ok(written.saturating_add(n)), after)
                    } else {
                        gathered::<H, M>(after, memory, fd, array, count, (index + 1) as u64, written.saturating_add(n))
                    },
                }
            },
        }
    }
}

/// What reading up to `len` bytes into `address` answers, the host state it
/// leaves, and the bytes it leaves in `image`: at most [`MAX_TRANSFER`] bytes
/// are asked of the host, what arrives is stored when all of it is mapped in
/// `mapped`, and it is `EFAULT` otherwise; a host error is passed on.
pub open spec fn received<H: HostIo, M: Memory>(
    host: H::State,
    mapped: M,
    image: spec_fn(int) -> u8,
    fd: i32,
    address: u64,
    len: u64,
) -> (SysResult, H::State, spec_fn(int) -> u8) {
    let (answer, after) = H::read_outcome(host, fd, capped(len) as nat);
    match answer {
        Err(error) => (Err(error), after, image),
        Ok(bytes) => if mapped.covers(address, bytes.len()) {
            (Ok(bytes.len() as u64), after, stored_image(image, address, bytes))
        } else {
            (Err(Errno::Fault), after, image)
        },
    }
}

/// What `readv` answers from the `index`th `iovec` on, having read `total`
/// bytes before it, the host state it leaves and the bytes it leaves in
/// `image`: each `iovec` is read from memory as the earlier ones left it, an
/// error ends the call, and so does a short read, with the count so far.
pub open spec fn scattered<H: HostIo, M: Memory>(
    host: H::State,
    mapped: M,
    image: spec_fn(int) -> u8,
    fd: i32,
    array: u64,
    count: u64,
    index: u64,
    total: u64,
) -> (SysResult, H::State, spec_fn(int) -> u8)
    decreases count - index,
{
    if index >= count {
        (Ok(total), host, image)
    } else {
        match iovec_in(mapped, image, array, index) {
            Err(error) => (Err(error), host, image),
            Ok(vector) => {
                let (reply, after, filled) = received::<H, M>(host, mapped, image, fd, vector.base, vector.len);
                match reply {
                    Err(error) => (Err(error), after, filled),
                    Ok(n) => if n < vector.len {
                        (Ok(total.saturating_add(n)), after, filled)
                    } else {
                        scattered::<H, M>(after, mapped, filled, fd, array, count, (index + 1) as u64, total.saturating_add(n))
                    },
                }
            },
        }
    }
}

/// What `openat` answers, and the host state it leaves: the path is the
/// string at the second argument, and a path that cannot be read is that
/// error, with the host not asked.
pub open spec fn opened<H: HostIo, M: Memory>(host: H::State, memory: M, args: Seq<u64>) -> (SysResult, H::State) {
    match c_string(memory, args[1], 0) {
        Ok(path) => H::open_outcome(host, path, args[2]),
        Err(error) => (Err(error), host),
    }
}

/// What `ioctl` on `fd` answers, and the host state it leaves: zero for a
/// terminal, `ENOTTY` otherwise.
pub open spec fn queried<H: HostIo>(host: H::State, fd: i32) -> (SysResult, H::State) {
    let (is_terminal, after) = H::terminal_outcome(host, fd);
    (if is_terminal { Ok(0) } else { Err(Errno::NoTty) }, after)
}

/// What `fstat` on `fd` answers when its buffer is `mapped` or not, the host
/// state it leaves, and whether the file is a terminal and its size: a size
/// the host refuses is that error, with nothing else asked.
pub open spec fn statted<H: HostIo>(host: H::State, fd: i32, mapped: bool) -> (SysResult, H::State, (bool, u64)) {
    let (size, asked) = H::size_outcome(host, fd);
    match size {
        Err(error) => (Err(error), asked, (false, 0)),
        Ok(size) => {
            let (is_terminal, after) = H::terminal_outcome(asked, fd);
            (if mapped { Ok(0) } else { Err(Errno::Fault) }, after, (is_terminal, size))
        },
    }
}

/// `writev(fd, iov, iovcnt)` — musl's stdio writes through this, not `write`.
///
/// An entry that cannot be read, or whose address would pass the end of the
/// address space, is `EFAULT`; a short write ends the call, as on Linux.
fn writev<H: HostIo, M: Memory>(shim: &mut Shim<H>, memory: &M, args: &[u64; 6]) -> (r: SysResult)
    requires
        old(shim).well_formed(),
    ensures
        final(shim).well_formed(),
        final(shim).map == old(shim).map,
        final(shim).unhandled@ == old(shim).unhandled@,
        final(shim).unhandled == old(shim).unhandled,
        (r, final(shim).host.state())
            == gathered::<H, M>(old(shim).host.state(), *memory, low_i32(args@[0]), args@[1], args@[2], 0, 0),
{
    let mut written: u64 = 0;
    let mut index: u64 = 0;
    while index < args[2]
        invariant
            shim.well_formed(),
            shim.map == old(shim).map,
            shim.unhandled == old(shim).unhandled,
            index <= args@[2],
            gathered::<H, M>(old(shim).host.state(), *memory, low_i32(args@[0]), args@[1], args@[2], 0, 0)
                == gathered::<H, M>(shim.host.state(), *memory, low_i32(args@[0]), args@[1], args@[2], index, written),
        decreases args@[2] - index,
    {
        let vector = match iovec_at(memory, args[1], index) {
            Ok(vector) => vector,
            Err(error) => return Err(error),
        };
        if vector.len != 0 {
            let count = match transfer_out(shim, memory, as_i32(args[0]), (vector.base, vector.len)) {
                Ok(count) => count,
                Err(error) => return Err(error),
            };
            written = written.saturating_add(count);
            // A short write ends the call, as it does on Linux.
            if count < vector.len {
                return Ok(written);
            }
        }
        index = index + 1;
    }
    Ok(written)
}

/// The `index`th `iovec` at `array`, or `EFAULT` when it cannot be read or its
/// address would pass the end of the address space.
fn iovec_at<M: Memory>(memory: &M, array: u64, index: u64) -> (r: Result<structs::IoVec, Errno>)
    ensures
        r is Err ==> r == Err::<structs::IoVec, Errno>(Errno::Fault),
        r == iovec_in(*memory, image_of(*memory), array, index),
        r matches Ok(vector) ==> array + index * 16 + 16 <= u64::MAX && vector == (structs::IoVec {
            base: structs::word_at(*memory, array + index * 16, 8),
            len: structs::word_at(*memory, array + index * 16 + 8, 8),
        }),
{
    if index > (u64::MAX - 16) / 16 || array > u64::MAX - 16 - index * 16 {
        return Err(Errno::Fault);
    }
    let r = structs::read_iovec(memory, array, index);
    proof {
        let entry = array + index * 16;
        assert(Seq::new(8, |i: int| memory.byte_at(entry + i)) =~= Seq::new(8, |i: int| image_of(*memory)(entry + i)));
        assert(Seq::new(8, |i: int| memory.byte_at(entry + 8 + i))
            =~= Seq::new(8, |i: int| image_of(*memory)(entry + 8 + i)));
    }
    r
}

/// Copies `len` bytes out of guest memory to a descriptor, at most
/// [`MAX_TRANSFER`] of them.
fn transfer_out<H: HostIo, M: Memory>(shim: &mut Shim<H>, memory: &M, fd: i32, buffer: (u64, u64)) -> (r: SysResult)
    requires
        old(shim).well_formed(),
    ensures
        final(shim).well_formed(),
        final(shim).map == old(shim).map,
        final(shim).unhandled@ == old(shim).unhandled@,
        !memory.covers(buffer.0, (if buffer.1 < MAX_TRANSFER { buffer.1 } else { MAX_TRANSFER }) as nat)
            ==> r == Err::<u64, Errno>(Errno::Fault) && *final(shim) == *old(shim),
        final(shim).unhandled == old(shim).unhandled,
        (r, final(shim).host.state()) == sent::<H, M>(old(shim).host.state(), *memory, image_of(*memory), fd, buffer.0, buffer.1),
{
    let (address, len) = buffer;
    let len = if len < MAX_TRANSFER { len } else { MAX_TRANSFER };
    let bytes = match memory.read(address, len as usize) {
        Ok(bytes) => bytes,
        Err(_) => return Err(Errno::Fault),
    };
    assert(bytes@ =~= Seq::new(len as nat, |i: int| image_of(*memory)(address + i)));
    shim.host.write(fd, bytes.as_slice())
}

/// `readv(fd, iov, iovcnt)`.
fn readv<H: HostIo, M: Memory>(shim: &mut Shim<H>, memory: &mut M, args: &[u64; 6]) -> (r: SysResult)
    requires
        old(shim).well_formed(),
    ensures
        final(shim).well_formed(),
        final(shim).map == old(shim).map,
        final(shim).unhandled@ == old(shim).unhandled@,
        final(shim).unhandled == old(shim).unhandled,
        forall|a: u64, n: nat| #[trigger] final(memory).covers(a, n) == old(memory).covers(a, n),
        ({
            let (reply, host, image) = scattered::<H, M>(
                old(shim).host.state(),
                *old(memory),
                image_of(*old(memory)),
                low_i32(args@[0]),
                args@[1],
                args@[2],
                0,
                0,
            );
            &&& r == reply
            &&& final(shim).host.state() == host
            &&& forall|a: int| #[trigger] final(memory).byte_at(a) == image(a)
        }),
{
    let mut total: u64 = 0;
    let mut index: u64 = 0;
    while index < args[2]
        invariant
            shim.well_formed(),
            shim.map == old(shim).map,
            shim.unhandled == old(shim).unhandled,
            index <= args@[2],
            forall|a: u64, n: nat| #[trigger] memory.covers(a, n) == old(memory).covers(a, n),
            scattered::<H, M>(
                old(shim).host.state(),
                *old(memory),
                image_of(*old(memory)),
                low_i32(args@[0]),
                args@[1],
                args@[2],
                0,
                0,
            ) == scattered::<H, M>(
                shim.host.state(),
                *old(memory),
                image_of(*memory),
                low_i32(args@[0]),
                args@[1],
                args@[2],
                index,
                total,
            ),
        decreases args@[2] - index,
    {
        let vector = match iovec_at(memory, args[1], index) {
            Ok(vector) => vector,
            Err(error) => return Err(error),
        };
        let ghost host_before = shim.host.state();
        let ghost memory_before = *memory;
        let result = transfer_in(shim, memory, as_i32(args[0]), (vector.base, vector.len));
        proof {
            let (reply, host, filled) = received::<H, M>(
                host_before,
                memory_before,
                image_of(memory_before),
                low_i32(args@[0]),
                vector.base,
                vector.len,
            );
            assert(received::<H, M>(host_before, memory_before, image_of(memory_before), low_i32(args@[0]), vector.base, vector.len)
                == received::<H, M>(host_before, *old(memory), image_of(memory_before), low_i32(args@[0]), vector.base, vector.len));
            assert(image_of(*memory) =~= filled);
        }
        let count = match result {
            Ok(count) => count,
            Err(error) => return Err(error),
        };
        total = total.saturating_add(count);
        if count < vector.len {
            return Ok(total);
        }
        index = index + 1;
    }
    Ok(total)
}

/// Copies up to `len` bytes from a descriptor into guest memory, at most
/// [`MAX_TRANSFER`] of them, returning how many arrived.
fn transfer_in<H: HostIo, M: Memory>(shim: &mut Shim<H>, memory: &mut M, fd: i32, buffer: (u64, u64)) -> (r: SysResult)
    requires
        old(shim).well_formed(),
    ensures
        final(shim).well_formed(),
        final(shim).map == old(shim).map,
        final(shim).unhandled@ == old(shim).unhandled@,
        r matches Ok(count) ==> count <= buffer.1 && count <= MAX_TRANSFER && exists|bytes: Seq<u8>| bytes.len() == count
            && #[trigger] holds_after(*final(memory), *old(memory), buffer.0, bytes),
        r is Err ==> unchanged(*final(memory), *old(memory)),
        final(shim).unhandled == old(shim).unhandled,
        ({
            let (reply, host, image) = received::<H, M>(old(shim).host.state(), *old(memory), image_of(*old(memory)), fd, buffer.0, buffer.1);
            &&& r == reply
            &&& final(shim).host.state() == host
            &&& forall|a: int| #[trigger] final(memory).byte_at(a) == image(a)
        }),
{
    let (address, len) = buffer;
    let len = if len < MAX_TRANSFER { len } else { MAX_TRANSFER };
    let bytes = match shim.host.read(fd, len as usize) {
        Ok(bytes) => bytes,
        Err(error) => return Err(error),
    };
    match memory.write(address, bytes.as_slice()) {
        Ok(()) => {
            assert(holds_after(*memory, *old(memory), address, bytes@));
            Ok(bytes.len() as u64)
        },
        Err(_) => {
            assert(unchanged(*memory, *old(memory)));
            Err(Errno::Fault)
        },
    }
}

/// `openat(dirfd, path, flags, mode)`.
fn open<H: HostIo, M: Memory>(shim: &mut Shim<H>, memory: &M, args: &[u64; 6]) -> (r: SysResult)
    requires
        old(shim).well_formed(),
    ensures
        final(shim).well_formed(),
        final(shim).map == old(shim).map,
        final(shim).unhandled@ == old(shim).unhandled@,
        final(shim).unhandled == old(shim).unhandled,
        (r, final(shim).host.state()) == opened::<H, M>(old(shim).host.state(), *memory, args@),
{
    let path = match read_c_string(memory, args[1]) {
        Ok(path) => path,
        Err(error) => return Err(error),
    };
    shim.host.open(path.as_slice(), args[2])
}

/// `fstat(fd, statbuf)` and the `newfstatat` form that names one.
fn fstat<H: HostIo, M: Memory>(shim: &mut Shim<H>, memory: &mut M, fd: i32, address: u64) -> (r: SysResult)
    requires
        old(shim).well_formed(),
    ensures
        final(shim).well_formed(),
        final(shim).map == old(shim).map,
        final(shim).unhandled@ == old(shim).unhandled@,
        r matches Ok(value) ==> value == 0 && exists|is_terminal: bool, size: u64|
            #[trigger] holds_after(*final(memory), *old(memory), address, stat_image(is_terminal, size)),
        r is Err ==> unchanged(*final(memory), *old(memory)),
        !old(memory).covers(address, STAT_BYTES as nat) ==> r is Err,
        final(shim).unhandled == old(shim).unhandled,
        ({
            let (reply, host, file) = statted::<H>(old(shim).host.state(), fd, old(memory).covers(address, STAT_BYTES as nat));
            &&& r == reply
            &&& final(shim).host.state() == host
            &&& r is Ok ==> holds_after(*final(memory), *old(memory), address, stat_image(file.0, file.1))
        }),
{
    let size = match shim.host.size_of(fd) {
        Ok(size) => size,
        Err(error) => {
            assert(unchanged(*memory, *old(memory)));
            return Err(error);
        },
    };
    let is_terminal = shim.host.is_terminal(fd);
    match structs::write_stat(memory, address, (is_terminal, size)) {
        Ok(()) => Ok(0),
        Err(error) => Err(error),
    }
}

/// `getrandom(buf, buflen, flags)`, at most [`MAX_TRANSFER`] bytes.
fn getrandom<H: HostIo, M: Memory>(shim: &mut Shim<H>, memory: &mut M, args: &[u64; 6]) -> (r: SysResult)
    requires
        old(shim).well_formed(),
    ensures
        final(shim).well_formed(),
        final(shim).map == old(shim).map,
        final(shim).unhandled@ == old(shim).unhandled@,
        ({
            let len = capped(args@[1]);
            &&& r is Ok <==> old(memory).covers(args@[0], len as nat)
            &&& r is Ok ==> r == Ok::<u64, Errno>(len) && exists|bytes: Seq<u8>| bytes.len() == len
                && #[trigger] holds_after(*final(memory), *old(memory), args@[0], bytes)
            &&& r is Err ==> r == Err::<u64, Errno>(Errno::Fault) && unchanged(*final(memory), *old(memory))
        }),
{
    let len = if args[1] < MAX_TRANSFER { args[1] } else { MAX_TRANSFER };
    let bytes = shim.host.random(len as usize);
    match memory.write(args[0], bytes.as_slice()) {
        Ok(()) => {
            assert(holds_after(*memory, *old(memory), args@[0], bytes@));
            Ok(len)
        },
        Err(_) => {
            assert(unchanged(*memory, *old(memory)));
            Err(Errno::Fault)
        },
    }
}

/// `ioctl(fd, request, ...)`.
///
/// Only the terminal query matters: libc issues `TCGETS` to decide whether
/// stdout is line-buffered, and expects `ENOTTY` when it is not a terminal.
fn ioctl<H: HostIo>(shim: &mut Shim<H>, args: &[u64; 6]) -> (r: SysResult)
    requires
        old(shim).well_formed(),
    ensures
        final(shim).well_formed(),
        final(shim).map == old(shim).map,
        final(shim).unhandled@ == old(shim).unhandled@,
        final(shim).unhandled == old(shim).unhandled,
        (r, final(shim).host.state()) == queried::<H>(old(shim).host.state(), low_i32(args@[0])),
{
    if shim.host.is_terminal(as_i32(args[0])) {
        Ok(0)
    } else {
        Err(Errno::NoTty)
    }
}

/// `sched_getaffinity(pid, cpusetsize, mask)` — one vCPU, so one bit.
fn affinity<M: Memory>(memory: &mut M, args: &[u64; 6]) -> (r: SysResult)
    ensures
        args@[1] < 8 ==> r == Err::<u64, Errno>(Errno::Inval) && *final(memory) == *old(memory),
        args@[1] >= 8 && old(memory).covers(args@[2], 8) ==> r == Ok::<u64, Errno>(8)
            && holds_after(*final(memory), *old(memory), args@[2], le_bytes(1, 8)),
        args@[1] >= 8 && !old(memory).covers(args@[2], 8) ==> r == Err::<u64, Errno>(Errno::Fault),
{
    if args[1] < 8 {
        return Err(Errno::Inval);
    }
    proof { crate::interp::memory::lemma_le_bytes_round_trip(1, 8); }
    match memory.write_uint(args[2], 8, 1) {
        Ok(()) => Ok(8),
        Err(_) => Err(Errno::Fault),
    }
}

/// The NUL-terminated string at `address` from `offset` on: the bytes before
/// the first zero, `EFAULT` if memory or the address space ends first,
/// `EINVAL` if no zero comes before [`MAX_PATH`].
pub open spec fn c_string<M: Memory>(memory: M, address: u64, offset: nat) -> Result<Seq<u8>, Errno>
    decreases MAX_PATH - offset,
{
    if offset >= MAX_PATH {
        Err(Errno::Inval)
    } else if address + offset > u64::MAX || !memory.covers((address + offset) as u64, 1) {
        Err(Errno::Fault)
    } else if memory.byte_at(address + offset) == 0 {
        Ok(Seq::empty())
    } else {
        match c_string(memory, address, offset + 1) {
            Ok(rest) => Ok(seq![memory.byte_at(address + offset)] + rest),
            Err(error) => Err(error),
        }
    }
}

/// Reads a NUL-terminated string from guest memory: the bytes before the
/// first zero, `EFAULT` if memory ends first, `EINVAL` if no zero comes
/// within [`MAX_PATH`] bytes.
fn read_c_string<M: Memory>(memory: &M, address: u64) -> (r: Result<std::vec::Vec<u8>, Errno>)
    ensures
        r matches Ok(bytes) ==> bytes@.len() < MAX_PATH
            && (forall|i: int| 0 <= i < bytes@.len() ==> bytes@[i] != 0 && #[trigger] bytes@[i] == memory.byte_at(address + i))
            && memory.byte_at(address + bytes@.len()) == 0,
        r is Err ==> r == Err::<std::vec::Vec<u8>, Errno>(Errno::Fault) || r == Err::<std::vec::Vec<u8>, Errno>(Errno::Inval),
        match c_string(*memory, address, 0) {
            Ok(text) => r matches Ok(bytes) && bytes@ == text,
            Err(error) => r == Err::<std::vec::Vec<u8>, Errno>(error),
        },
{
    let mut bytes: std::vec::Vec<u8> = std::vec::Vec::new();
    let mut offset: u64 = 0;
    while offset < MAX_PATH
        invariant
            offset <= MAX_PATH,
            bytes@.len() == offset,
            forall|i: int| 0 <= i < offset ==> bytes@[i] != 0 && #[trigger] bytes@[i] == memory.byte_at(address + i),
            c_string(*memory, address, 0) == match c_string(*memory, address, offset as nat) {
                Ok(rest) => Ok::<Seq<u8>, Errno>(bytes@ + rest),
                Err(error) => Err::<Seq<u8>, Errno>(error),
            },
        decreases MAX_PATH - offset,
    {
        if address > u64::MAX - offset {
            return Err(Errno::Fault);
        }
        let byte = match memory.read_uint(address + offset, 1) {
            Ok(value) => value,
            Err(_) => return Err(Errno::Fault),
        };
        proof {
            reveal_with_fuel(crate::interp::memory::little_endian, 2);
            let single = Seq::new(1, |i: int| memory.byte_at(address + offset + i));
            assert(single.drop_first() =~= Seq::<u8>::empty());
            assert(byte == single[0]);
        }
        if byte == 0 {
            return Ok(bytes);
        }
        let ghost before = bytes@;
        bytes.push(byte as u8);
        proof {
            assert forall|rest: Seq<u8>| #[trigger] (bytes@ + rest) =~= before + (seq![byte as u8] + rest) by {}
        }
        offset = offset + 1;
    }
    Err(Errno::Inval)
}

/// Successive `mmap` calls hand out disjoint ranges: when two calls in a row
/// both succeed, the first range, its length rounded up to whole pages, ends
/// at or below where the second begins, the second ends within the mmap
/// window, and the arena's next mapping has moved past both; neither call
/// moves the program break.
pub proof fn lemma_successive_mmaps_do_not_overlap<H: HostIo, M: Memory, S: TraceSink>(
    shim0: Shim<H>,
    shim1: Shim<H>,
    shim2: Shim<H>,
    cpu0: Cpu<M, S>,
    cpu1: Cpu<M, S>,
    cpu2: Cpu<M, S>,
    args1: Seq<u64>,
    args2: Seq<u64>,
    first: u64,
    second: u64,
)
    requires
        answered(shim0, shim1, cpu0, cpu1, sys::MMAP, args1, Outcome::Returned(Ok(first))),
        answered(shim1, shim2, cpu1, cpu2, sys::MMAP, args2, Outcome::Returned(Ok(second))),
    ensures
        args1[1] > 0 && args2[1] > 0,
        super::memory_map::page_rounded(args1[1]) >= args1[1],
        super::memory_map::page_rounded(args2[1]) >= args2[1],
        first == shim0.map.next_mapping(),
        first + super::memory_map::page_rounded(args1[1]) <= second,
        second + super::memory_map::page_rounded(args2[1]) <= shim0.map.arena().mmap_limit,
        shim2.map.next_mapping() == second + super::memory_map::page_rounded(args2[1]),
        shim2.map.current_brk() == shim0.map.current_brk(),
        shim2.map.arena() == shim0.map.arena(),
{
    assert(sys::MMAP != sys::EXIT && sys::MMAP != sys::EXIT_GROUP);
    assert(fixed_answer(sys::MMAP) is None);
    lemma_page_rounded_covers(args1[1]);
    lemma_page_rounded_covers(args2[1]);
}

/// Rounding a length up to whole pages never shortens it.
proof fn lemma_page_rounded_covers(length: u64)
    ensures
        super::memory_map::page_rounded(length) >= length,
{
    let pages = (length as int + 4095) / 4096;
    assert(pages * 4096 >= length) by (nonlinear_arith)
        requires pages == (length as int + 4095) / 4096, length >= 0;
}

} // verus!
