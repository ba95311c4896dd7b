//! The session loop's state and decisions: one optional live inferior and the
//! breakpoint table, kept consistent across repeated launches. Each operator
//! command is handled here and answered with a `Report`; only the caller
//! turns reports into text, and only the caller spawns processes and resolves
//! symbols.

use vstd::prelude::*;

use crate::breakpoint::{Breakpoint, BreakpointTable};
use crate::parse::{parse_address, spec_parse_address};
use crate::trace::{write_byte, Inferior, Status, TraceError, TRAP_OPCODE};

verus! {

/// What a handled command reports back to the operator.
#[derive(Clone, Copy, PartialEq, Eq, Structural, Debug)]
pub enum Report {
    /// `continue` or `backtrace` with no live process.
    NotRunning,
    /// The outcome of resuming the child.
    Status(Status),
    /// A breakpoint was recorded (and installed, if a process is live).
    BreakpointSet { ordinal: usize, address: usize },
    /// The breakpoint was recorded, but its trap could not be written in the
    /// live process; it will be retried at the next spawn.
    InstallFailed { ordinal: usize, address: usize },
    /// A `break` argument that does not start with `*`.
    BreakSyntax,
    /// A `break` argument whose address part is not a valid address literal.
    InvalidAddress,
    /// A trace primitive failed after the process existed; the session gave
    /// the inferior up.
    Escalated(TraceError),
}

/// The interactive session: the breakpoint table and at most one live
/// inferior, which outlive any single traced process.
pub struct Session {
    table: BreakpointTable,
    inferior: Option<Inferior>,
}

impl Session {
    /// The recorded breakpoints.
    pub closed spec fn spec_table(self) -> Seq<Breakpoint> {
        self.table@
    }

    /// A process handle is currently held.
    pub closed spec fn has_inferior(self) -> bool {
        self.inferior is Some
    }

    /// Every held handle refers to a process that has not been observed to
    /// terminate.
    pub closed spec fn wf(self) -> bool {
        self.inferior matches Some(i) ==> i.alive()
    }

    pub fn new() -> (s: Session)
        ensures
            s.spec_table().len() == 0,
            !s.has_inferior(),
            s.wf(),
    {
        Session { table: BreakpointTable::new(), inferior: None }
    }

    /// Whether a process is currently live, as reported to the operator.
    pub fn is_running(&self) -> (b: bool)
        ensures
            b == self.has_inferior(),
    {
        self.inferior.is_some()
    }

    /// The number of breakpoints recorded so far.
    pub fn breakpoint_count(&self) -> (n: usize)
        ensures
            n == self.spec_table().len(),
    {
        self.table.len()
    }

    /// The address of breakpoint `i`.
    pub fn breakpoint_address(&self, i: usize) -> (a: usize)
        requires
            i < self.spec_table().len(),
        ensures
            a == self.spec_table()[i as int].address,
    {
        self.table.get(i).address
    }

    /// Kills and discards any live inferior; the first half of `run` and the
    /// whole of `quit`. Afterwards no process handle is held, so a fresh
    /// spawn can never coexist with an old process. Returns whether a live
    /// process was killed.
    pub fn prepare_run(&mut self) -> (killed: bool)
        requires
            old(self).wf(),
        ensures
            final(self).wf(),
            !final(self).has_inferior(),
            final(self).spec_table() == old(self).spec_table(),
            killed == old(self).has_inferior(),
    {
        match self.inferior.take() {
            None => false,
            Some(mut inf) => {
                inf.kill();
                true
            },
        }
    }

    /// Adopts a freshly spawned, trace-enabled child: waits for its load-time
    /// stop, installs every recorded breakpoint in request order, resumes it,
    /// and reports the resulting status. Returns the install attempts — each
    /// breakpoint address in request order, paired with whether its trap was
    /// written — alongside the report.
    pub fn attach_run(&mut self, pid: i32) -> (r: (Vec<(usize, bool)>, Report))
        requires
            old(self).wf(),
            !old(self).has_inferior(),
        ensures
            final(self).wf(),
            final(self).spec_table().len() == old(self).spec_table().len(),
            forall|m: int|
                0 <= m < old(self).spec_table().len() ==> (#[trigger] final(self).spec_table()[m]).address == old(self).spec_table()[m].address,
            r.0@.len() == 0 || r.0@.len() == old(self).spec_table().len(),
            forall|m: int|
                0 <= m < r.0@.len() ==> (#[trigger] r.0@[m]).0 == old(self).spec_table()[m].address,
            match r.1 {
                Report::Status(st) => final(self).has_inferior() == (st is Stopped),
                Report::Escalated(_) => !final(self).has_inferior(),
                _ => false,
            },
    {
        let mut inf = Inferior::from_pid(pid);
        match inf.wait() {
            Ok(Status::Stopped(_, _)) => {},
            Ok(st) => {
                return (Vec::new(), Report::Status(st));
            },
            Err(e) => {
                inf.kill();
                return (Vec::new(), Report::Escalated(e));
            },
        }
        let results = inf.install_breakpoints(&mut self.table);
        match inf.continue_run(&mut self.table, None) {
            Ok(st) => {
                match st {
                    Status::Stopped(_, _) => {
                        self.inferior = Some(inf);
                    },
                    _ => {},
                }
                (results, Report::Status(st))
            },
            Err(e) => {
                inf.kill();
                (results, Report::Escalated(e))
            },
        }
    }

    /// Resumes the live inferior, or reports "not running" — with no state
    /// change at all — when none is held. A terminal status discards the
    /// handle.
    pub fn handle_continue(&mut self) -> (rep: Report)
        requires
            old(self).wf(),
        ensures
            final(self).wf(),
            !old(self).has_inferior() ==> rep == Report::NotRunning && *final(self) == *old(self),
            old(self).has_inferior() ==> {
                &&& final(self).spec_table().len() == old(self).spec_table().len()
                &&& forall|m: int|
                    0 <= m < old(self).spec_table().len() ==> (#[trigger] final(self).spec_table()[m]).address == old(self).spec_table()[m].address
                &&& match rep {
                    Report::Status(st) => final(self).has_inferior() == (st is Stopped),
                    Report::Escalated(_) => !final(self).has_inferior(),
                    _ => false,
                }
            },
    {
        match self.inferior.take() {
            None => Report::NotRunning,
            Some(mut inf) => {
                match inf.continue_run(&mut self.table, None) {
                    Ok(st) => {
                        match st {
                            Status::Stopped(_, _) => {
                                self.inferior = Some(inf);
                            },
                            _ => {},
                        }
                        Report::Status(st)
                    },
                    Err(e) => {
                        inf.kill();
                        Report::Escalated(e)
                    },
                }
            },
        }
    }

    /// The process to walk the stack of, or `None` when nothing is live —
    /// in which case the operator is told "not running" and nothing is
    /// touched.
    pub fn inferior_ref(&self) -> (r: Option<&Inferior>)
        ensures
            r is Some <==> self.has_inferior(),
    {
        self.inferior.as_ref()
    }

    /// Handles `break <arg>`. The argument must be `*` followed by an
    /// address literal; anything else is rejected without touching the
    /// breakpoint table. A valid address is always recorded, with the next
    /// ordinal; when a process is live its trap is also written immediately,
    /// and a failed write is reported softly, leaving the request to be
    /// installed at the next spawn.
    pub fn handle_break(&mut self, arg: &str) -> (rep: Report)
        requires
            old(self).wf(),
        ensures
            final(self).wf(),
            final(self).has_inferior() == old(self).has_inferior(),
            arg@.len() == 0 || arg@[0] != '*' ==> rep == Report::BreakSyntax && final(self).spec_table() == old(self).spec_table(),
            arg@.len() >= 1 && arg@[0] == '*' ==> match spec_parse_address(arg@.skip(1)) {
                None => rep == Report::InvalidAddress && final(self).spec_table() == old(self).spec_table(),
                Some(a) => {
                    &&& final(self).spec_table().len() == old(self).spec_table().len() + 1
                    &&& forall|m: int|
                        0 <= m < old(self).spec_table().len() ==> final(self).spec_table()[m]
                            == old(self).spec_table()[m]
                    &&& final(self).spec_table().last().address == a
                    &&& match rep {
                        Report::BreakpointSet { ordinal, address } => {
                            &&& ordinal == old(self).spec_table().len()
                            &&& address == a
                            &&& final(self).spec_table().last().installed() == old(
                                self,
                            ).has_inferior()
                        },
                        Report::InstallFailed { ordinal, address } => {
                            &&& ordinal == old(self).spec_table().len()
                            &&& address == a
                            &&& old(self).has_inferior()
                            &&& !final(self).spec_table().last().installed()
                        },
                        _ => false,
                    }
                },
            },
    {
        let n = arg.unicode_len();
        if n == 0 || arg.get_char(0) != '*' {
            return Report::BreakSyntax;
        }
        let rest = arg.substring_char(1, n);
        assert(rest@ =~= arg@.skip(1));
        match parse_address(rest) {
            None => Report::InvalidAddress,
            Some(a) => {
                let ordinal = self.table.request(a);
                match self.inferior.take() {
                    None => Report::BreakpointSet { ordinal, address: a },
                    Some(inf) => {
                        let rep = match write_byte(inf.pid(), a, TRAP_OPCODE) {
                            Ok(b) => {
                                self.table.set_saved(ordinal, Some(b));
                                Report::BreakpointSet { ordinal, address: a }
                            },
                            Err(_) => Report::InstallFailed { ordinal, address: a },
                        };
                        self.inferior = Some(inf);
                        rep
                    },
                }
            },
        }
    }

    /// Handles `quit`: kills and discards any live inferior. Returns whether
    /// a live process was killed.
    pub fn handle_quit(&mut self) -> (killed: bool)
        requires
            old(self).wf(),
        ensures
            final(self).wf(),
            !final(self).has_inferior(),
            final(self).spec_table() == old(self).spec_table(),
            killed == old(self).has_inferior(),
    {
        self.prepare_run()
    }
}

/// Breakpoints requested before any run are attempted in request order, each
/// exactly once, when first installed into a fresh child: the attempt list
/// handed back by installation mirrors the table's addresses.
pub proof fn lemma_install_follows_requests(table: Seq<Breakpoint>, results: Seq<(usize, bool)>)
    requires
        results.len() == table.len(),
        forall|m: int| 0 <= m < results.len() ==> (#[trigger] results[m]).0 == table[m].address,
    ensures
        results.map_values(|p: (usize, bool)| p.0) =~= table.map_values(
            |b: Breakpoint| b.address,
        ),
{
}

} // verus!
