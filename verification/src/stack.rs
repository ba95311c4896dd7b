//! The stack walker: reconstructs the call chain of a stopped child by
//! following saved-frame-pointer links. Symbol resolution belongs to an
//! outside lookup service, so the walk is driven one frame at a time: the
//! caller reports what the service said about the current instruction
//! pointer, and the walker decides whether and where to continue.

use vstd::prelude::*;

use crate::trace::Inferior;

verus! {

/// One reconstructed activation record; derived during a walk, never stored.
#[derive(Clone, Copy, PartialEq, Eq, Structural, Debug)]
pub struct StackFrame {
    pub instruction_pointer: usize,
    pub frame_pointer: usize,
}

/// A stack walk in progress, from the stopped child's current registers back
/// towards the program's entry function.
pub struct StackWalk {
    /// The frames emitted so far, outermost last.
    pub frames: Vec<StackFrame>,
    /// The instruction pointer of the frame being examined.
    pub ip: usize,
    /// The frame pointer of the frame being examined.
    pub fp: usize,
    /// No further frames will be emitted.
    pub finished: bool,
}

impl StackWalk {
    /// Starts a walk at the given register snapshot.
    pub fn begin(ip: usize, fp: usize) -> (w: StackWalk)
        ensures
            w.frames@ =~= Seq::<StackFrame>::empty(),
            w.ip == ip,
            w.fp == fp,
            !w.finished,
    {
        StackWalk { frames: Vec::new(), ip, fp, finished: false }
    }

    /// One step of the walk. `resolved` says whether the symbol service knew
    /// the current instruction pointer; `is_entry` whether it resolved to the
    /// program's entry function; `words` carries the two words read from the
    /// child's stack at the frame pointer — the caller's saved frame pointer
    /// and the return address — or `None` if the read failed.
    ///
    /// A resolvable frame is emitted; then the walk stops at the entry
    /// function, at a null frame pointer, at an unresolvable address, or at a
    /// failed read — keeping the partial trace — and otherwise moves to the
    /// caller's frame.
    pub fn advance(&mut self, resolved: bool, is_entry: bool, words: Option<(usize, usize)>)
        requires
            !old(self).finished,
        ensures
            resolved ==> final(self).frames@ == old(self).frames@.push(
                StackFrame { instruction_pointer: old(self).ip, frame_pointer: old(self).fp },
            ),
            !resolved ==> final(self).frames@ == old(self).frames@ && final(self).finished,
            resolved && is_entry ==> final(self).finished,
            resolved && !is_entry && old(self).fp == 0 ==> final(self).finished,
            resolved && !is_entry && old(self).fp != 0 ==> match words {
                None => final(self).finished,
                Some(w) => {
                    &&& !final(self).finished
                    &&& final(self).fp == w.0
                    &&& final(self).ip == w.1
                },
            },
    {
        if !resolved {
            self.finished = true;
            return;
        }
        let frame = StackFrame { instruction_pointer: self.ip, frame_pointer: self.fp };
        self.frames.push(frame);
        if is_entry || self.fp == 0 {
            self.finished = true;
            return;
        }
        match words {
            None => {
                self.finished = true;
            },
            Some((saved_fp, ret)) => {
                self.fp = saved_fp;
                self.ip = ret;
            },
        }
    }

    /// One step against the live child: reads the saved frame pointer at
    /// `[fp]` and the return address at `[fp + word size]` from its memory,
    /// treating an unreadable (or nearly address-space-ending) frame pointer
    /// as the end of the chain.
    pub fn advance_in_child(&mut self, inf: &Inferior, resolved: bool, is_entry: bool)
        requires
            !old(self).finished,
        ensures
            resolved ==> final(self).frames@ == old(self).frames@.push(
                StackFrame { instruction_pointer: old(self).ip, frame_pointer: old(self).fp },
            ),
            !resolved ==> final(self).frames@ == old(self).frames@ && final(self).finished,
            resolved && is_entry ==> final(self).finished,
            resolved && !is_entry && old(self).fp == 0 ==> final(self).finished,
    {
        let words: Option<(usize, usize)> = if resolved && !is_entry && self.fp != 0 && self.fp
            <= usize::MAX - 8 {
            match (inf.read_word(self.fp), inf.read_word(self.fp + 8)) {
                (Some(saved_fp), Some(ret)) => Some(
                    (
                        #[verifier::truncate] (saved_fp as usize),
                        #[verifier::truncate] (ret as usize),
                    ),
                ),
                _ => None,
            }
        } else {
            None
        };
        self.advance(resolved, is_entry, words);
    }
}

} // verus!
