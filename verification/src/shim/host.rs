//! What the shim needs from outside the guest, and the errors it reports back.
//!
//! A trait rather than direct filesystem calls because this crate links to
//! `wasm32-unknown-unknown`, where there are no files at all. The native test
//! harness supplies one implementation; a browser host would supply another.
//! The surface is the narrowest one that runs a static musl binary, not a
//! filesystem abstraction.
use vstd::prelude::*;
use vstd::string::StringSliceAdditionalSpecFns;

verus! {

/// Linux error numbers the shim returns.
///
/// A syscall reports failure as `-errno` in `x0`, which is what musl's syscall
/// wrappers expect.
#[derive(Debug, Clone, Copy, PartialEq, Eq, Structural)]
pub enum Errno {
    /// Operation not permitted.
    Perm,
    /// No such file or directory.
    NoEnt,
    /// Bad file descriptor.
    BadFd,
    /// Try again.
    Again,
    /// Out of memory.
    NoMem,
    /// Bad address.
    Fault,
    /// Invalid argument.
    Inval,
    /// Too many open files.
    MFile,
    /// Inappropriate ioctl for device.
    NoTty,
    /// Function not implemented.
    NoSys,
}

impl Errno {
    /// The Linux number of this error.
    #[verifier::allow_in_spec]
    pub fn number(self) -> (r: u64)
        returns
            (match self {
                Errno::Perm => 1u64,
                Errno::NoEnt => 2u64,
                Errno::BadFd => 9u64,
                Errno::Again => 11u64,
                Errno::NoMem => 12u64,
                Errno::Fault => 14u64,
                Errno::Inval => 22u64,
                Errno::MFile => 24u64,
                Errno::NoTty => 25u64,
                Errno::NoSys => 38u64,
            }),
    {
        match self {
            Errno::Perm => 1,
            Errno::NoEnt => 2,
            Errno::BadFd => 9,
            Errno::Again => 11,
            Errno::NoMem => 12,
            Errno::Fault => 14,
            Errno::Inval => 22,
            Errno::MFile => 24,
            Errno::NoTty => 25,
            Errno::NoSys => 38,
        }
    }

    /// The value a failing syscall leaves in `x0`: `-errno`, as the 64-bit
    /// two's-complement pattern.
    #[verifier::allow_in_spec]
    pub fn to_return_value(self) -> (r: u64)
        returns
            (0x1_0000_0000_0000_0000 - self.number()) as u64,
    {
        0u64.wrapping_sub(self.number())
    }
}

/// A syscall's result: a value, or an error number.
pub type SysResult = Result<u64, Errno>;

/// The world outside the guest.
///
/// Every method may fail with an [`Errno`], which the shim passes straight
/// through to the guest rather than interpreting.
pub trait HostIo {
    /// What the host holds that decides its answers.
    type State;

    /// The host's present state.
    spec fn state(&self) -> Self::State;

    /// What writing `bytes` to `fd` answers from `state`, and the state it
    /// leaves.
    spec fn write_outcome(state: Self::State, fd: i32, bytes: Seq<u8>) -> (SysResult, Self::State);

    /// What reading up to `len` bytes from `fd` answers from `state`, and the
    /// state it leaves.
    spec fn read_outcome(state: Self::State, fd: i32, len: nat) -> (Result<Seq<u8>, Errno>, Self::State);

    /// What opening `path` answers from `state`, and the state it leaves.
    spec fn open_outcome(state: Self::State, path: Seq<u8>, flags: u64) -> (SysResult, Self::State);

    /// What asking the size of `fd` answers from `state`, and the state it
    /// leaves.
    spec fn size_outcome(state: Self::State, fd: i32) -> (SysResult, Self::State);

    /// Whether `fd` is a terminal in `state`, and the state asking leaves.
    spec fn terminal_outcome(state: Self::State, fd: i32) -> (bool, Self::State);

    /// Writes `bytes` to an open descriptor, returning the count written.
    fn write(&mut self, fd: i32, bytes: &[u8]) -> (r: SysResult)
        ensures
            (r, final(self).state()) == Self::write_outcome(old(self).state(), fd, bytes@);

    /// Reads up to `len` bytes, returning what was read. Empty means end of
    /// file.
    fn read(&mut self, fd: i32, len: usize) -> (r: Result<std::vec::Vec<u8>, Errno>)
        ensures
            r matches Ok(bytes) ==> bytes@.len() <= len,
            final(self).state() == Self::read_outcome(old(self).state(), fd, len as nat).1,
            match Self::read_outcome(old(self).state(), fd, len as nat).0 {
                Ok(bytes) => r matches Ok(read) && read@ == bytes,
                Err(error) => r == Err::<std::vec::Vec<u8>, Errno>(error),
            };

    /// Opens `path`, returning a descriptor.
    fn open(&mut self, path: &[u8], flags: u64) -> (r: SysResult)
        ensures
            (r, final(self).state()) == Self::open_outcome(old(self).state(), path@, flags);

    /// Closes a descriptor.
    fn close(&mut self, fd: i32) -> SysResult;

    /// Size in bytes of what `fd` refers to, for `fstat`.
    fn size_of(&mut self, fd: i32) -> (r: SysResult)
        ensures
            (r, final(self).state()) == Self::size_outcome(old(self).state(), fd);

    /// Whether `fd` is a terminal, which decides libc's buffering mode.
    fn is_terminal(&mut self, fd: i32) -> (r: bool)
        ensures
            (r, final(self).state()) == Self::terminal_outcome(old(self).state(), fd);

    /// `len` random bytes.
    fn random(&mut self, len: usize) -> (r: std::vec::Vec<u8>)
        ensures
            r@.len() == len;

    /// Nanoseconds since an unspecified fixed epoch.
    fn monotonic_nanos(&mut self) -> u64;

    /// The state recording that the guest called `exit` with `status`.
    spec fn exit_outcome(state: Self::State, status: i32) -> Self::State;

    /// Records that the guest called `exit` with `status`.
    fn exit(&mut self, status: i32)
        ensures
            final(self).state() == Self::exit_outcome(old(self).state(), status),
    ;
}

/// One step of the xorshift generator [`CapturingHost`] draws random bytes
/// from.
pub open spec fn xorshift(seed: u64) -> u64 {
    let a = seed ^ (seed << 13u64);
    let b = a ^ (a >> 7u64);
    b ^ (b << 17u64)
}

/// `count` successive outputs of [`xorshift`] from `seed`, each narrowed to its
/// low byte.
pub open spec fn xorshift_bytes(seed: u64, count: nat) -> Seq<u8>
    decreases count,
{
    if count == 0 {
        Seq::empty()
    } else {
        seq![(xorshift(seed) % 256) as u8] + xorshift_bytes(xorshift(seed), (count - 1) as nat)
    }
}

/// The generator state after `count` steps from `seed`.
pub open spec fn xorshift_after(seed: u64, count: nat) -> u64
    decreases count,
{
    if count == 0 {
        seed
    } else {
        xorshift_after(xorshift(seed), (count - 1) as nat)
    }
}

/// A host with no filesystem, capturing everything written to it.
///
/// The default for wasm, where there are no files, and what the interpreter
/// tests assert against: a test can read back exactly what the guest printed
/// without touching the real stdout.
#[derive(Debug)]
pub struct CapturingHost {
    /// Bytes the guest wrote to fd 1.
    pub stdout: std::vec::Vec<u8>,
    /// Bytes the guest wrote to fd 2.
    pub stderr: std::vec::Vec<u8>,
    /// Status passed to `exit`, once the guest has called it.
    pub exit_status: Option<i32>,
    /// State of the random-byte generator.
    pub seed: u64,
    /// The monotonic clock's last reading.
    pub nanos: u64,
}

/// The text `bytes` spell, when they are valid UTF-8.
#[verifier::external_body]
fn utf8_text(bytes: &[u8]) -> (r: Option<&str>)
    ensures
        r is Some <==> vstd::utf8::valid_utf8(bytes@),
        r matches Some(text) ==> text.spec_bytes() == bytes@,
{
    std::str::from_utf8(bytes).ok()
}

impl Default for CapturingHost {
    /// Empty capture buffers, no exit status, and a zero generator and clock.
    fn default() -> (r: CapturingHost)
        ensures
            r.stdout@ == Seq::<u8>::empty(),
            r.stderr@ == Seq::<u8>::empty(),
            r.exit_status is None,
            r.state().3 == 0,
            r.state().4 == 0,
    {
        CapturingHost {
            stdout: std::vec::Vec::new(),
            stderr: std::vec::Vec::new(),
            exit_status: None,
            seed: 0,
            nanos: 0,
        }
    }
}

impl CapturingHost {
    /// A host with empty capture buffers.
    pub fn new() -> (r: CapturingHost)
        ensures
            r.stdout@ == Seq::<u8>::empty(),
            r.stderr@ == Seq::<u8>::empty(),
            r.exit_status is None,
            r.state().3 == 0x2545_f491_4f6c_dd1d,
            r.state().4 == 0,
    {
        CapturingHost {
            stdout: std::vec::Vec::new(),
            stderr: std::vec::Vec::new(),
            exit_status: None,
            seed: 0x2545_f491_4f6c_dd1d,
            nanos: 0,
        }
    }

    /// What the guest wrote to fd 1, as UTF-8 where it is valid, and empty
    /// where it is not.
    pub fn stdout_text(&self) -> (r: &str)
        ensures
            vstd::utf8::valid_utf8(self.stdout@) ==> r.spec_bytes() == self.stdout@,
            !vstd::utf8::valid_utf8(self.stdout@) ==> r@ == Seq::<char>::empty(),
    {
        match utf8_text(self.stdout.as_slice()) {
            Some(text) => text,
            None => {
                proof { reveal_strlit(""); }
                ""
            },
        }
    }

    /// The generator's next output.
    fn next_random(&mut self) -> (r: u64)
        ensures
            r == xorshift(old(self).state().3),
            final(self).state().3 == r,
            final(self).stdout == old(self).stdout,
            final(self).stderr == old(self).stderr,
            final(self).exit_status == old(self).exit_status,
            final(self).state().4 == old(self).state().4,
    {
        self.seed = self.seed ^ (self.seed << 13u64);
        self.seed = self.seed ^ (self.seed >> 7u64);
        self.seed = self.seed ^ (self.seed << 17u64);
        self.seed
    }
}

impl HostIo for CapturingHost {
    /// Stdout, stderr, exit status, generator seed and clock.
    type State = (Seq<u8>, Seq<u8>, Option<i32>, u64, u64);

    open spec fn state(&self) -> Self::State {
        (self.stdout@, self.stderr@, self.exit_status, self.seed, self.nanos)
    }

    open spec fn write_outcome(state: Self::State, fd: i32, bytes: Seq<u8>) -> (SysResult, Self::State) {
        if fd == 1 {
            (Ok(bytes.len() as u64), (state.0 + bytes, state.1, state.2, state.3, state.4))
        } else if fd == 2 {
            (Ok(bytes.len() as u64), (state.0, state.1 + bytes, state.2, state.3, state.4))
        } else {
            (Err(Errno::BadFd), state)
        }
    }

    open spec fn read_outcome(state: Self::State, fd: i32, len: nat) -> (Result<Seq<u8>, Errno>, Self::State) {
        if fd == 0 {
            (Ok(Seq::empty()), state)
        } else {
            (Err(Errno::BadFd), state)
        }
    }

    open spec fn open_outcome(state: Self::State, path: Seq<u8>, flags: u64) -> (SysResult, Self::State) {
        (Err(Errno::NoEnt), state)
    }

    open spec fn size_outcome(state: Self::State, fd: i32) -> (SysResult, Self::State) {
        (if 0 <= fd <= 2 { Ok(0) } else { Err(Errno::BadFd) }, state)
    }

    open spec fn terminal_outcome(state: Self::State, fd: i32) -> (bool, Self::State) {
        (0 <= fd <= 2, state)
    }

    open spec fn exit_outcome(state: Self::State, status: i32) -> Self::State {
        (state.0, state.1, Some(status), state.3, state.4)
    }

    /// Appends to the captured stdout or stderr; any other descriptor is bad.
    fn write(&mut self, fd: i32, bytes: &[u8]) -> (r: SysResult)
        ensures
            fd == 1 ==> r == Ok::<u64, Errno>(bytes@.len() as u64) && final(self).stdout@ == old(self).stdout@ + bytes@
                && final(self).stderr@ == old(self).stderr@,
            fd == 2 ==> r == Ok::<u64, Errno>(bytes@.len() as u64) && final(self).stderr@ == old(self).stderr@ + bytes@
                && final(self).stdout@ == old(self).stdout@,
            fd != 1 && fd != 2 ==> r == Err::<u64, Errno>(Errno::BadFd) && final(self).stdout@ == old(self).stdout@
                && final(self).stderr@ == old(self).stderr@,
            final(self).state().3 == old(self).state().3 && final(self).state().4 == old(self).state().4,
            final(self).exit_status == old(self).exit_status,
    {
        if fd == 1 {
            let ghost before = self.stdout@;
            self.stdout.extend_from_slice(bytes);
            assert(self.stdout@ =~= before + bytes@);
        } else if fd == 2 {
            let ghost before = self.stderr@;
            self.stderr.extend_from_slice(bytes);
            assert(self.stderr@ =~= before + bytes@);
        } else {
            return Err(Errno::BadFd);
        }
        Ok(bytes.len() as u64)
    }

    /// Stdin is always at end of file; there is nothing else to read from.
    fn read(&mut self, fd: i32, len: usize) -> (r: Result<std::vec::Vec<u8>, Errno>)
        ensures
            fd == 0 ==> (r matches Ok(bytes) && bytes@.len() == 0),
            fd != 0 ==> r == Err::<std::vec::Vec<u8>, Errno>(Errno::BadFd),
    {
        if fd == 0 {
            Ok(std::vec::Vec::new())
        } else {
            Err(Errno::BadFd)
        }
    }

    /// There are no files to open.
    fn open(&mut self, path: &[u8], flags: u64) -> (r: SysResult)
        ensures
            r == Err::<u64, Errno>(Errno::NoEnt),
    {
        Err(Errno::NoEnt)
    }

    /// Only the three standard descriptors exist.
    fn close(&mut self, fd: i32) -> (r: SysResult)
        ensures
            r == (if 0 <= fd <= 2 { Ok::<u64, Errno>(0) } else { Err::<u64, Errno>(Errno::BadFd) }),
    {
        if 0 <= fd && fd <= 2 {
            Ok(0)
        } else {
            Err(Errno::BadFd)
        }
    }

    /// The standard descriptors are empty terminals.
    fn size_of(&mut self, fd: i32) -> (r: SysResult)
        ensures
            r == (if 0 <= fd <= 2 { Ok::<u64, Errno>(0) } else { Err::<u64, Errno>(Errno::BadFd) }),
    {
        if 0 <= fd && fd <= 2 {
            Ok(0)
        } else {
            Err(Errno::BadFd)
        }
    }

    /// The standard descriptors, and only they, are terminals.
    fn is_terminal(&mut self, fd: i32) -> (r: bool)
        ensures
            r == (0 <= fd <= 2),
    {
        0 <= fd && fd <= 2
    }

    /// Successive low bytes of the xorshift generator.
    fn random(&mut self, len: usize) -> (r: std::vec::Vec<u8>)
        ensures
            r@ == xorshift_bytes(old(self).state().3, len as nat),
            final(self).state().3 == xorshift_after(old(self).state().3, len as nat),
    {
        let mut bytes: std::vec::Vec<u8> = std::vec::Vec::new();
        let ghost start = self.seed;
        let mut index: usize = 0;
        while index < len
            invariant
                index <= len,
                bytes@.len() == index,
                bytes@ + xorshift_bytes(self.seed, (len - index) as nat) == xorshift_bytes(start, len as nat),
                xorshift_after(self.seed, (len - index) as nat) == xorshift_after(start, len as nat),
            decreases len - index,
        {
            let ghost before = bytes@;
            let ghost seed = self.seed;
            let value = self.next_random();
            bytes.push((value % 256) as u8);
            assert(before + xorshift_bytes(seed, (len - index) as nat) =~= bytes@ + xorshift_bytes(
                self.seed,
                (len - index - 1) as nat,
            ));
            index = index + 1;
        }
        assert(bytes@ + xorshift_bytes(self.seed, 0) =~= bytes@);
        bytes
    }

    /// Advances by a microsecond per reading: monotonic and cheap. A guest
    /// that measures elapsed time sees it advance.
    fn monotonic_nanos(&mut self) -> (r: u64)
        ensures
            r == final(self).state().4,
            r == (old(self).state().4 + 1000) % 0x1_0000_0000_0000_0000,
    {
        self.nanos = self.nanos.wrapping_add(1000);
        self.nanos
    }

    /// Keeps the status.
    fn exit(&mut self, status: i32)
        ensures
            final(self).exit_status == Some(status),
    {
        self.exit_status = Some(status);
    }
}

} // verus!
