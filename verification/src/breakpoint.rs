//! The breakpoint table: an ordered list of requested instruction-address
//! breakpoints, together with the original byte each installed breakpoint
//! replaced in the traced child's memory.
//!
//! Requests are recorded independently of any running process; installation
//! state (`saved_byte`) is bookkeeping for the currently traced child, if any.

use vstd::prelude::*;

verus! {

/// One breakpoint request. `saved_byte` is `None` until the trap opcode has
/// been written into a live child at `address`; it then holds the original
/// byte so the trap can be removed and restored.
#[derive(Clone, Copy, PartialEq, Eq, Structural, Debug)]
pub struct Breakpoint {
    pub address: usize,
    pub saved_byte: Option<u8>,
}

impl Breakpoint {
    /// The trap opcode has been written over the byte at `address`.
    pub open spec fn installed(self) -> bool {
        self.saved_byte is Some
    }
}

/// Ordered list of breakpoint requests. A breakpoint's id is its index, the
/// ordinal shown to the operator; duplicate addresses are allowed and each
/// request keeps its own id.
pub struct BreakpointTable {
    points: Vec<Breakpoint>,
}

impl View for BreakpointTable {
    type V = Seq<Breakpoint>;

    closed spec fn view(&self) -> Seq<Breakpoint> {
        self.points@
    }
}

impl BreakpointTable {
    /// The requested addresses, in request order.
    pub open spec fn addresses(self) -> Seq<usize> {
        self@.map_values(|b: Breakpoint| b.address)
    }

    /// Some breakpoint at `ip` currently has its trap byte active.
    pub open spec fn installed_at(self, ip: usize) -> bool {
        exists|k: int|
            0 <= k < self@.len() && (#[trigger] self@[k]).address == ip && self@[k].installed()
    }

    pub fn new() -> (t: BreakpointTable)
        ensures
            t@ =~= Seq::<Breakpoint>::empty(),
    {
        BreakpointTable { points: Vec::new() }
    }

    pub fn len(&self) -> (n: usize)
        ensures
            n == self@.len(),
    {
        self.points.len()
    }

    /// Records a new breakpoint request and returns its id. Always succeeds;
    /// the new breakpoint is appended, not installed.
    pub fn request(&mut self, address: usize) -> (id: usize)
        ensures
            final(self)@ == old(self)@.push(Breakpoint { address, saved_byte: None }),
            id == old(self)@.len(),
    {
        let id = self.points.len();
        self.points.push(Breakpoint { address, saved_byte: None });
        id
    }

    pub fn get(&self, i: usize) -> (b: Breakpoint)
        requires
            i < self@.len(),
        ensures
            b == self@[i as int],
    {
        self.points[i]
    }

    /// Replaces the installation record of breakpoint `i`, leaving its
    /// address and every other breakpoint unchanged.
    pub fn set_saved(&mut self, i: usize, saved: Option<u8>)
        requires
            i < old(self)@.len(),
        ensures
            final(self)@ == old(self)@.update(
                i as int,
                Breakpoint { address: old(self)@[i as int].address, saved_byte: saved },
            ),
    {
        let address = self.points[i].address;
        self.points[i] = Breakpoint { address, saved_byte: saved };
    }

    /// Finds the first breakpoint whose trap byte is active at `ip`.
    pub fn find_installed(&self, ip: usize) -> (r: Option<usize>)
        ensures
            match r {
                Some(i) => {
                    &&& i < self@.len()
                    &&& self@[i as int].address == ip
                    &&& self@[i as int].installed()
                    &&& forall|k: int|
                        0 <= k < i ==> !((#[trigger] self@[k]).address == ip && self@[k].installed())
                },
                None => !self.installed_at(ip),
            },
    {
        let n = self.points.len();
        let mut k: usize = 0;
        while k < n
            invariant
                n == self@.len(),
                k <= n,
                forall|m: int|
                    0 <= m < k ==> !((#[trigger] self@[m]).address == ip && self@[m].installed()),
            decreases n - k,
        {
            let b = self.points[k];
            if b.address == ip && b.saved_byte.is_some() {
                return Some(k);
            }
            k += 1;
        }
        None
    }
}

} // verus!
