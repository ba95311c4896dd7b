//! The inferior controller: the one module that touches the traced child
//! process, through trace primitives of the `nix` crate kept behind trusted
//! wrappers. Everything above the raw calls — byte patching, breakpoint
//! installation, the step-over sequencing on resume, and lifecycle
//! bookkeeping — is verified.

use vstd::prelude::*;

use crate::breakpoint::BreakpointTable;

verus! {

/// The single-byte instruction that raises a debug trap when executed.
pub const TRAP_OPCODE: u8 = 0xcc;

/// The signal number the OS reports for a debug trap.
pub const TRAP_SIGNAL: i32 = 5;

/// Outcome of waiting on the inferior.
#[derive(Clone, Copy, PartialEq, Eq, Structural, Debug)]
pub enum Status {
    /// Stopped by a signal; carries the signal number and the instruction
    /// pointer the process is stopped at.
    Stopped(i32, usize),
    /// Exited normally with the given exit code.
    Exited(i32),
    /// Killed by the given signal.
    Signaled(i32),
}

/// Failure of a trace primitive after a process existed.
#[derive(Clone, Copy, PartialEq, Eq, Structural, Debug)]
pub enum TraceError {
    /// The OS refused the operation; carries the error number.
    Os(i32),
    /// The wait primitive reported a state this debugger does not handle.
    UnexpectedStatus,
}

/// What the OS reported when waiting on the child, before registers are read.
#[derive(Clone, Copy, PartialEq, Eq, Structural, Debug)]
pub enum RawWait {
    Exited(i32),
    Signaled(i32),
    Stopped(i32),
    /// Any report other than an exit, a termination by signal, or a stop.
    Other,
}

/// Relies on nix::sys::ptrace::cont: restarts the stopped tracee, optionally
/// delivering the given signal. Nothing is promised of the child's behaviour.
#[verifier::external_body]
fn trace_cont(pid: i32, sig: Option<i32>) -> (r: Result<(), i32>) {
    let s = match sig {
        None => None,
        Some(n) => match nix::sys::signal::Signal::try_from(n) {
            Ok(x) => Some(x),
            Err(e) => return Err(e as i32),
        },
    };
    nix::sys::ptrace::cont(nix::unistd::Pid::from_raw(pid), s).map_err(|e| e as i32)
}

/// Relies on nix::sys::ptrace::step: moves the stopped tracee forward by one
/// instruction, optionally delivering the given signal.
#[verifier::external_body]
fn trace_step(pid: i32, sig: Option<i32>) -> (r: Result<(), i32>) {
    let s = match sig {
        None => None,
        Some(n) => match nix::sys::signal::Signal::try_from(n) {
            Ok(x) => Some(x),
            Err(e) => return Err(e as i32),
        },
    };
    nix::sys::ptrace::step(nix::unistd::Pid::from_raw(pid), s).map_err(|e| e as i32)
}

/// Relies on nix::sys::wait::waitpid: blocks until the child changes state
/// and tells an exit, a termination by signal, and a stop apart. Every report
/// outside those three is handed back as `RawWait::Other`.
#[verifier::external_body]
fn wait_child(pid: i32) -> (r: Result<RawWait, i32>) {
    match nix::sys::wait::waitpid(nix::unistd::Pid::from_raw(pid), None).map_err(|e| e as i32)? {
        nix::sys::wait::WaitStatus::Exited(_, code) => Ok(RawWait::Exited(code)),
        nix::sys::wait::WaitStatus::Signaled(_, sig, _) => Ok(RawWait::Signaled(sig as i32)),
        nix::sys::wait::WaitStatus::Stopped(_, sig) => Ok(RawWait::Stopped(sig as i32)),
        _ => Ok(RawWait::Other),
    }
}

/// Relies on nix::sys::ptrace::getregs: reads the stopped tracee's register
/// snapshot; hands back the instruction pointer and the frame pointer.
#[verifier::external_body]
fn read_ip_fp(pid: i32) -> (r: Result<(usize, usize), i32>) {
    let regs = nix::sys::ptrace::getregs(nix::unistd::Pid::from_raw(pid)).map_err(|e| e as i32)?;
    Ok((regs.rip as usize, regs.rbp as usize))
}

/// Relies on nix::sys::ptrace::getregs and nix::sys::ptrace::setregs: rewrites
/// the stopped tracee's instruction pointer, leaving the other registers as
/// they were read.
#[verifier::external_body]
fn write_ip(pid: i32, ip: usize) -> (r: Result<(), i32>) {
    let p = nix::unistd::Pid::from_raw(pid);
    let mut regs = nix::sys::ptrace::getregs(p).map_err(|e| e as i32)?;
    regs.rip = ip as u64;
    nix::sys::ptrace::setregs(p, regs).map_err(|e| e as i32)
}

/// Relies on nix::sys::ptrace::read: reads one word of the tracee's memory at
/// the given address.
#[verifier::external_body]
fn peek_word(pid: i32, addr: usize) -> (r: Result<u64, i32>) {
    nix::sys::ptrace::read(nix::unistd::Pid::from_raw(pid), addr as nix::sys::ptrace::AddressType)
        .map(|w| w as u64)
        .map_err(|e| e as i32)
}

/// Relies on nix::sys::ptrace::write: writes one word into the tracee's
/// memory at the given address.
#[verifier::external_body]
fn poke_word(pid: i32, addr: usize, word: u64) -> (r: Result<(), i32>) {
    nix::sys::ptrace::write(
        nix::unistd::Pid::from_raw(pid),
        addr as nix::sys::ptrace::AddressType,
        word as i64,
    )
        .map_err(|e| e as i32)
}

/// Relies on nix::sys::signal::kill: sends SIGKILL to the process.
#[verifier::external_body]
fn kill_child(pid: i32) -> (r: Result<(), i32>) {
    nix::sys::signal::kill(nix::unistd::Pid::from_raw(pid), nix::sys::signal::Signal::SIGKILL)
        .map_err(|e| e as i32)
}

/// How the OS wait report, together with the separately read registers,
/// becomes the session-facing status: the exit code and signals are kept,
/// a stop is paired with the read instruction pointer (or the register-read
/// error), and any report outside the three known shapes is an error.
pub open spec fn spec_interpret_wait(raw: RawWait, regs: Result<(usize, usize), i32>) -> Result<
    Status,
    TraceError,
> {
    match raw {
        RawWait::Exited(code) => Ok(Status::Exited(code)),
        RawWait::Signaled(sig) => Ok(Status::Signaled(sig)),
        RawWait::Stopped(sig) => match regs {
            Ok(pair) => Ok(Status::Stopped(sig, pair.0)),
            Err(e) => Err(TraceError::Os(e)),
        },
        RawWait::Other => Err(TraceError::UnexpectedStatus),
    }
}

/// Turns what the wait primitive reported, and what the register read
/// returned for a stop, into a `Status` — exactly as `spec_interpret_wait`
/// defines it. The register argument matters only for a stop.
pub fn interpret_wait(raw: RawWait, regs: Result<(usize, usize), i32>) -> (r: Result<
    Status,
    TraceError,
>)
    ensures
        r == spec_interpret_wait(raw, regs),
{
    match raw {
        RawWait::Exited(code) => Ok(Status::Exited(code)),
        RawWait::Signaled(sig) => Ok(Status::Signaled(sig)),
        RawWait::Stopped(sig) => match regs {
            Ok(pair) => Ok(Status::Stopped(sig, pair.0)),
            Err(e) => Err(TraceError::Os(e)),
        },
        RawWait::Other => Err(TraceError::UnexpectedStatus),
    }
}

/// Where a trap stop at `ip` is reported: at the address one byte before it
/// when that address carries an installed breakpoint (the trap there has
/// already executed), and at `ip` itself otherwise. The second component
/// says whether it was rewound.
pub open spec fn spec_cooked_stop(table: BreakpointTable, ip: usize) -> (usize, bool) {
    if ip >= 1 && table.installed_at((ip - 1) as usize) {
        ((ip - 1) as usize, true)
    } else {
        (ip, false)
    }
}

/// Computes where a trap stop at `ip` should be reported, exactly as
/// `spec_cooked_stop` defines it.
pub fn cook_stop(table: &BreakpointTable, ip: usize) -> (r: (usize, bool))
    ensures
        r == spec_cooked_stop(*table, ip),
{
    if ip >= 1 {
        match table.find_installed(ip - 1) {
            Some(_) => (ip - 1, true),
            None => (ip, false),
        }
    } else {
        (ip, false)
    }
}

/// The status a resume reports for what came back from its final wait: a
/// stop by the trap signal is re-addressed through `spec_cooked_stop`, and
/// every other status passes through unchanged.
pub open spec fn spec_report_status(table: BreakpointTable, st: Status) -> (Status, bool) {
    match st {
        Status::Stopped(sig, ip) => if sig == TRAP_SIGNAL {
            (Status::Stopped(sig, spec_cooked_stop(table, ip).0), spec_cooked_stop(table, ip).1)
        } else {
            (st, false)
        },
        _ => (st, false),
    }
}

/// Maps the status a wait returned to the status the operator is shown,
/// exactly as `spec_report_status` defines it; the second component says
/// whether the child's instruction pointer must be rewound to match.
pub fn report_status(table: &BreakpointTable, st: Status) -> (r: (Status, bool))
    ensures
        r == spec_report_status(*table, st),
{
    match st {
        Status::Stopped(sig, ip) => {
            if sig == TRAP_SIGNAL {
                let (cooked, rewound) = cook_stop(table, ip);
                (Status::Stopped(sig, cooked), rewound)
            } else {
                (st, false)
            }
        },
        _ => (st, false),
    }
}

/// The byte at position `k` (counted from the least significant end) of a
/// little-endian memory word.
pub open spec fn byte_of_word(word: u64, k: usize) -> u8 {
    ((word >> (8 * k as u64)) & 0xff) as u8
}

/// Replaces byte `offset` of `word` with `byte`. Returns the patched word and
/// the byte that was replaced; every other byte of the word is untouched.
pub fn patch_word(word: u64, offset: usize, byte: u8) -> (r: (u64, u8))
    requires
        offset < 8,
    ensures
        r.1 == byte_of_word(word, offset),
        byte_of_word(r.0, offset) == byte,
        forall|k: usize| k < 8 && k != offset ==> byte_of_word(r.0, k) == byte_of_word(word, k),
{
    let off: u64 = offset as u64;
    let shift: u64 = 8 * off;
    let orig: u8 = ((word >> shift) & 0xff) as u8;
    let patched: u64 = (word & !(0xffu64 << shift)) | ((byte as u64) << shift);
    proof {
        let b = byte as u64;
        assert(((patched >> (8 * off)) & 0xff) as u8 == byte && (forall|k: u64|
            k < 8 && k != off ==> (#[trigger] (patched >> (8 * k)) & 0xff) == ((word >> (8 * k))
                & 0xff)))
            by (bit_vector)
            requires
                patched == (word & !(0xffu64 << (8 * off))) | (b << (8 * off)),
                b == byte as u64,
                b < 256,
                off < 8,
        ;
        assert(forall|k: usize|
            k < 8 && k != offset ==> byte_of_word(patched, k) == byte_of_word(word, k)) by {
            assert forall|k: usize| k < 8 && k != offset implies byte_of_word(patched, k)
                == byte_of_word(word, k) by {
                assert((k as u64) < 8 && (k as u64) != off);
            }
        }
    }
    (patched, orig)
}

/// Overwrites the single byte at `addr` in the child's memory, reading and
/// rewriting the containing word. Returns the byte previously stored there,
/// or the OS error number if the address is unmapped or access is denied.
pub(crate) fn write_byte(pid: i32, addr: usize, byte: u8) -> (r: Result<u8, i32>) {
    let aligned: usize = addr & !0x7usize;
    assert(addr & !0x7usize <= addr && addr - (addr & !0x7usize) < 8) by (bit_vector);
    let offset: usize = addr - aligned;
    let word = match peek_word(pid, aligned) {
        Ok(w) => w,
        Err(e) => return Err(e),
    };
    let (patched, orig) = patch_word(word, offset, byte);
    match poke_word(pid, aligned, patched) {
        Ok(()) => Ok(orig),
        Err(e) => Err(e),
    }
}

/// The child process currently under trace control, identified by its OS
/// process id. `alive` records whether a terminal status has been observed.
pub struct Inferior {
    pid: i32,
    alive: bool,
}

impl Inferior {
    /// The process has neither exited nor been killed, as far as the
    /// controller has observed.
    pub closed spec fn alive(self) -> bool {
        self.alive
    }

    pub closed spec fn spec_pid(self) -> i32 {
        self.pid
    }

    /// Adopts a freshly spawned, trace-enabled child that has not yet been
    /// waited on.
    pub fn from_pid(pid: i32) -> (inf: Inferior)
        ensures
            inf.alive(),
            inf.spec_pid() == pid,
    {
        Inferior { pid, alive: true }
    }

    /// Returns the process id of this inferior.
    pub fn pid(&self) -> (p: i32)
        ensures
            p == self.spec_pid(),
    {
        self.pid
    }

    /// Blocks until the OS reports a state change and maps the report to a
    /// `Status` exactly as `spec_interpret_wait` defines it, reading the
    /// stopped instruction pointer for a stop; a failure of the wait
    /// primitive itself is handed back as its OS error number. Marks the
    /// inferior dead on a terminal status.
    pub fn wait(&mut self) -> (r: Result<Status, TraceError>)
        ensures
            final(self).spec_pid() == old(self).spec_pid(),
            match r {
                Ok(st) => final(self).alive() == (old(self).alive() && st is Stopped),
                Err(_) => final(self).alive() == old(self).alive(),
            },
    {
        let raw = match wait_child(self.pid) {
            Ok(raw) => raw,
            Err(e) => return Err(TraceError::Os(e)),
        };
        let regs: Result<(usize, usize), i32> = match raw {
            RawWait::Stopped(_) => read_ip_fp(self.pid),
            _ => Ok((0, 0)),
        };
        match interpret_wait(raw, regs) {
            Ok(st) => {
                match st {
                    Status::Stopped(_, _) => {},
                    _ => {
                        self.alive = false;
                    },
                }
                Ok(st)
            },
            Err(e) => Err(e),
        }
    }

    /// Reads the stopped child's instruction and frame pointers.
    pub fn registers(&self) -> (r: Result<(usize, usize), TraceError>) {
        match read_ip_fp(self.pid) {
            Ok(pair) => Ok(pair),
            Err(e) => Err(TraceError::Os(e)),
        }
    }

    /// Reads one word of the child's memory; `None` when the address is
    /// unmapped or access is denied.
    pub fn read_word(&self, addr: usize) -> (r: Option<u64>) {
        match peek_word(self.pid, addr) {
            Ok(w) => Some(w),
            Err(_) => None,
        }
    }

    /// Writes the trap opcode over every breakpoint in the table, in request
    /// order, recording the byte each one replaced. A failed write (address
    /// unmapped, access denied) leaves that breakpoint uninstalled and moves
    /// on to the next. Returns each attempted address, in request order,
    /// paired with whether its installation succeeded.
    pub fn install_breakpoints(&self, table: &mut BreakpointTable) -> (results: Vec<
        (usize, bool),
    >)
        ensures
            final(table)@.len() == old(table)@.len(),
            forall|m: int|
                0 <= m < old(table)@.len() ==> (#[trigger] final(table)@[m]).address == old(table)@[m].address,
            results@.len() == old(table)@.len(),
            forall|m: int|
                0 <= m < results@.len() ==> (#[trigger] results@[m]).0 == old(table)@[m].address,
            forall|m: int|
                0 <= m < results@.len() ==> (#[trigger] results@[m]).1 == final(table)@[m].installed(),
    {
        let ghost orig = table@;
        let mut results: Vec<(usize, bool)> = Vec::new();
        let n = table.len();
        let mut k: usize = 0;
        while k < n
            invariant
                n == orig.len(),
                k <= n,
                table@.len() == orig.len(),
                forall|m: int|
                    0 <= m < orig.len() ==> (#[trigger] table@[m]).address == orig[m].address,
                results@.len() == k,
                forall|m: int|
                    0 <= m < k ==> (#[trigger] results@[m]).0 == orig[m].address,
                forall|m: int|
                    0 <= m < k ==> (#[trigger] results@[m]).1 == table@[m].installed(),
            decreases n - k,
        {
            let addr = table.get(k).address;
            match write_byte(self.pid, addr, TRAP_OPCODE) {
                Ok(b) => {
                    table.set_saved(k, Some(b));
                    results.push((addr, true));
                },
                Err(_) => {
                    table.set_saved(k, None);
                    results.push((addr, false));
                },
            }
            k += 1;
        }
        results
    }

    /// Resumes the stopped child and blocks until the OS reports the next
    /// state change.
    ///
    /// If the child is stopped exactly at an installed breakpoint, the
    /// original byte is restored, the real instruction is single-stepped, and
    /// the trap is re-armed before execution continues — so the same address
    /// cannot trap again without the child actually moving past it. A stop by
    /// a trap one byte past an installed breakpoint is reported at — and the
    /// child's instruction pointer rewound to — the breakpoint's own address.
    pub fn continue_run(&mut self, table: &mut BreakpointTable, signal: Option<i32>) -> (r: Result<
        Status,
        TraceError,
    >)
        requires
            old(self).alive(),
        ensures
            final(self).spec_pid() == old(self).spec_pid(),
            final(table)@.len() == old(table)@.len(),
            forall|m: int|
                0 <= m < old(table)@.len() ==> (#[trigger] final(table)@[m]).address == old(table)@[m].address,
            match r {
                Ok(st) => {
                    &&& final(self).alive() == (st is Stopped)
                    &&& (st is Stopped ==> forall|m: int|
                        0 <= m < old(table)@.len() ==> (#[trigger] final(table)@[m]).installed() == old(table)@[m].installed())
                },
                Err(_) => true,
            },
    {
        let pid = self.pid;
        let (rip, _fp) = match read_ip_fp(pid) {
            Ok(p) => p,
            Err(e) => return Err(TraceError::Os(e)),
        };
        if let Some(i) = table.find_installed(rip) {
            let bp = table.get(i);
            let orig = bp.saved_byte.unwrap();
            // Remove the trap so the real instruction can execute.
            match write_byte(pid, bp.address, orig) {
                Ok(_) => table.set_saved(i, None),
                Err(e) => return Err(TraceError::Os(e)),
            }
            if let Err(e) = trace_step(pid, None) {
                return Err(TraceError::Os(e));
            }
            let st = match self.wait() {
                Ok(st) => st,
                Err(e) => return Err(e),
            };
            match st {
                Status::Stopped(_, _) => {
                    // Re-arm the trap before continuing.
                    match write_byte(pid, bp.address, TRAP_OPCODE) {
                        Ok(b2) => table.set_saved(i, Some(b2)),
                        Err(e) => return Err(TraceError::Os(e)),
                    }
                },
                _ => {
                    return Ok(st);
                },
            }
        }
        if let Err(e) = trace_cont(pid, signal) {
            return Err(TraceError::Os(e));
        }
        let st = match self.wait() {
            Ok(st) => st,
            Err(e) => return Err(e),
        };
        let (reported, rewound) = report_status(table, st);
        if rewound {
            if let Status::Stopped(_, ip) = reported {
                if let Err(e) = write_ip(pid, ip) {
                    return Err(TraceError::Os(e));
                }
            }
        }
        Ok(reported)
    }

    /// Forcibly kills the process and waits for it to be reaped; a no-op if a
    /// terminal status was already observed. Returns whether a live process
    /// was killed.
    pub fn kill(&mut self) -> (killed: bool)
        ensures
            !final(self).alive(),
            final(self).spec_pid() == old(self).spec_pid(),
            killed == old(self).alive(),
    {
        if !self.alive {
            return false;
        }
        let _ = kill_child(self.pid);
        let _ = wait_child(self.pid);
        self.alive = false;
        true
    }
}

} // verus!
