//! The pipeline's durable cursor: a single checkpoint timestamp
//! marking the boundary between extracted and pending time.
//!
//! Reading and writing the checkpoint file is the shell's business;
//! this type holds the cursor value and the rules of its movement.

use vstd::prelude::*;

use crate::times::{utc_now, valid_stamp, MAX_STAMP};

verus! {

/// The pipeline state: the extraction cursor, and the filesystem
/// path the shell persists it under.
pub struct State {
    pub start_from: i64,
    pub path: String,
}

impl State {
    /// The cursor stays within the range the pipeline works over.
    pub open spec fn wf(self) -> bool {
        valid_stamp(self.start_from as int)
    }

    /// A fresh state: the cursor starts at the present moment,
    /// clamped into the pipeline's range.
    pub fn new(path: String) -> (r: State)
        ensures
            r.wf(),
            r.path@ == path@,
    {
        let now = utc_now();
        let start_from = if now < 0 {
            0
        } else if now > MAX_STAMP {
            MAX_STAMP
        } else {
            now
        };
        State { start_from, path }
    }

    /// A state restored from storage, or begun at an operator-chosen
    /// point.
    pub fn with_start(path: String, start_from: i64) -> (r: State)
        requires
            valid_stamp(start_from as int),
        ensures
            r.wf(),
            r.start_from == start_from,
            r.path@ == path@,
    {
        State { start_from, path }
    }

    /// Advance the cursor to the right edge of a successfully loaded
    /// window. The cursor never moves backward.
    pub fn advance(&mut self, to: i64)
        requires
            old(self).wf(),
            old(self).start_from <= to,
            valid_stamp(to as int),
        ensures
            final(self).wf(),
            final(self).start_from == to,
            final(self).start_from >= old(self).start_from,
            final(self).path == old(self).path,
    {
        self.start_from = to;
    }
}

} // verus!
