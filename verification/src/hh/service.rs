//! Orchestration of one pipeline run: the backlog between the
//! checkpoint and the present is cut into fixed-width windows, walked
//! oldest first, and the checkpoint advances to a window's right edge
//! only once that window's load has succeeded.
//!
//! The shell drives the loop: it fetches and loads each window, and
//! reports each success here. On a load failure it stops the run
//! without calling back, so the cursor keeps its value and the same
//! window is retried on the next invocation.

use vstd::prelude::*;

use crate::hh::state::State;
use crate::times::valid_stamp;

verus! {

/// One extraction window: the half-open time range `[left, right)`.
#[derive(Clone, Copy, Debug, PartialEq, Eq, Structural)]
pub struct Window {
    pub left: i64,
    pub right: i64,
}

impl Window {
    /// A window is a forward, in-range time step.
    pub open spec fn wf(self) -> bool {
        valid_stamp(self.left as int) && valid_stamp(self.right as int) && self.left < self.right
    }
}

/// The windows of `ws` form one contiguous forward walk.
pub open spec fn contiguous(ws: Seq<Window>) -> bool {
    &&& forall|k: int| 0 <= k < ws.len() ==> (#[trigger] ws[k]).wf()
    &&& forall|k: int| 0 <= k < ws.len() - 1 ==> (#[trigger] ws[k]).right == ws[k + 1].left
}

/// Cut the backlog between the cursor and the anchor into fixed-width
/// windows, oldest first. Only whole windows are planned: the ragged
/// remainder shorter than `width` stays pending.
pub fn plan_windows(start_from: i64, now: i64, width: i64) -> (r: Vec<Window>)
    requires
        width > 0,
        valid_stamp(start_from as int),
        valid_stamp(now as int),
    ensures
        contiguous(r@),
        forall|k: int|
            0 <= k < r@.len() ==> (#[trigger] r@[k]).left == start_from + k * width && r@[k].right
                == start_from + (k + 1) * width,
        r@.len() > 0 ==> r@[0].left == start_from,
        now >= start_from ==> start_from + r@.len() * width <= now < start_from + (r@.len() + 1)
            * width,
        now < start_from ==> r@.len() == 0,
{
    let mut out: Vec<Window> = Vec::new();
    if now < start_from {
        return out;
    }
    let mut cur: i64 = start_from;
    proof {
        assert(start_from + out@.len() * width == start_from) by (nonlinear_arith)
            requires
                out@.len() == 0,
        ;
    }
    while (cur as i128) + (width as i128) <= now as i128
        invariant
            width > 0,
            valid_stamp(start_from as int),
            valid_stamp(now as int),
            start_from <= cur <= now,
            cur == start_from + out@.len() * width,
            contiguous(out@),
            forall|k: int|
                0 <= k < out@.len() ==> (#[trigger] out@[k]).left == start_from + k * width
                    && out@[k].right == start_from + (k + 1) * width,
        decreases now - cur,
    {
        let next = cur + width;
        let ghost n = out@.len() as int;
        out.push(Window { left: cur, right: next });
        proof {
            assert(start_from + (n + 1) * width == start_from + n * width + width) by (
            nonlinear_arith);
            assert(start_from + (n + 2) * width == start_from + (n + 1) * width + width) by (
            nonlinear_arith);
        }
        cur = next;
    }
    proof {
        let n = out@.len() as int;
        assert(start_from + (n + 1) * width == start_from + n * width + width) by (nonlinear_arith);
    }
    out
}

/// One run of the pipeline: the checkpoint state, the planned
/// windows, and how many of them have loaded so far.
pub struct Pipeline {
    pub state: State,
    pub windows: Vec<Window>,
    pub next: usize,
}

impl Pipeline {
    /// The run is consistent: the windows form a contiguous forward
    /// walk, every loaded window lies behind the cursor, and the
    /// cursor sits at the right edge of the last loaded window.
    pub open spec fn wf(self) -> bool {
        &&& self.state.wf()
        &&& self.next <= self.windows@.len()
        &&& contiguous(self.windows@)
        &&& (self.next > 0 ==> self.state.start_from == self.windows@[self.next - 1].right)
        &&& (self.next < self.windows@.len() ==> self.state.start_from
            <= self.windows@[self.next as int].left)
    }

    /// Plan a run from a restored state: the backlog up to `now` is
    /// cut into windows of `width` seconds.
    pub fn new(state: State, now: i64, width: i64) -> (r: Pipeline)
        requires
            state.wf(),
            width > 0,
            valid_stamp(now as int),
        ensures
            r.wf(),
            r.state == state,
            r.next == 0,
            forall|k: int|
                0 <= k < r.windows@.len() ==> (#[trigger] r.windows@[k]).left == state.start_from
                    + k * width && r.windows@[k].right == state.start_from + (k + 1) * width,
            now >= state.start_from ==> state.start_from + r.windows@.len() * width <= now < state
                .start_from + (r.windows@.len() + 1) * width,
            now < state.start_from ==> r.windows@.len() == 0,
    {
        let windows = plan_windows(state.start_from, now, width);
        Pipeline { state, windows, next: 0 }
    }

    /// The window the run works on now, if any is left.
    pub fn current_window(&self) -> (r: Option<Window>)
        requires
            self.wf(),
        ensures
            (r is Some) == (self.next < self.windows@.len()),
            r matches Some(w) ==> w == self.windows@[self.next as int],
    {
        if self.next < self.windows.len() {
            Some(self.windows[self.next])
        } else {
            None
        }
    }

    /// Record that the current window's batch was durably loaded: the
    /// cursor advances to that window's right edge and never moves
    /// backward.
    pub fn on_window_loaded(&mut self)
        requires
            old(self).wf(),
            old(self).next < old(self).windows@.len(),
        ensures
            final(self).wf(),
            final(self).windows == old(self).windows,
            final(self).next == old(self).next + 1,
            final(self).state.start_from == old(self).windows@[old(self).next as int].right,
            final(self).state.start_from >= old(self).state.start_from,
            final(self).state.path == old(self).state.path,
    {
        let w = self.windows[self.next];
        self.state.advance(w.right);
        proof {
            // the index stays within the vector's length, so the
            // increment cannot overflow
            assert(self.next < self.windows.len());
        }
        self.next = self.next + 1;
    }
}

/// The cursor's value after the first `k` windows of a plan have
/// loaded, starting from `start`.
pub open spec fn cursor_after(start: int, ws: Seq<Window>, k: int) -> int {
    if k <= 0 {
        start
    } else {
        ws[k - 1].right as int
    }
}

/// In a contiguous plan, right edges never decrease.
proof fn lemma_chain_monotonic(ws: Seq<Window>, a: int, b: int)
    requires
        contiguous(ws),
        0 <= a <= b < ws.len(),
    ensures
        ws[a].right <= ws[b].right,
    decreases b - a,
{
    if a < b {
        lemma_chain_monotonic(ws, a, b - 1);
        assert(ws[b - 1].right == ws[b].left);
    }
}

/// For any sequence of successful window loads, the checkpoint cursor
/// is non-decreasing: whatever two points of the run are compared,
/// the later one is at least the earlier one. A window that fails to
/// load ends the run without moving the cursor, so the cursor after a
/// failure equals its value before that window.
pub proof fn lemma_checkpoint_monotonic(start: int, ws: Seq<Window>, k1: int, k2: int)
    requires
        contiguous(ws),
        0 <= k1 <= k2 <= ws.len(),
        ws.len() > 0 ==> start <= ws[0].left,
    ensures
        cursor_after(start, ws, k1) <= cursor_after(start, ws, k2),
{
    if k1 == 0 && k2 > 0 {
        lemma_chain_monotonic(ws, 0, k2 - 1);
        assert(start <= ws[0].left < ws[0].right);
    } else if k1 > 0 && k2 > k1 {
        lemma_chain_monotonic(ws, k1 - 1, k2 - 1);
    }
}

} // verus!
