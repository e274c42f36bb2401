//! Repair windows: the cycles around the first failing cycle that a search
//! unrolls the system over.

use crate::testbench::StepInt;
use vstd::prelude::*;

verus! {

/// A window of `past_k` cycles before the failing cycle and `future_k`
/// cycles after it.
#[derive(Debug, Copy, Clone, Eq, PartialEq, Structural)]
pub struct RepairWindow {
    pub future_k: StepInt,
    pub past_k: StepInt,
}

/// The largest of `floor` and the entries of `failures`.
pub open spec fn latest(failures: Seq<StepInt>, floor: int) -> int
    decreases failures.len(),
{
    if failures.len() == 0 {
        floor
    } else {
        vstd::math::max(latest(failures.drop_last(), floor), failures.last() as int)
    }
}

pub proof fn lemma_latest(failures: Seq<StepInt>, floor: int)
    ensures
        floor <= latest(failures, floor),
        forall|i: int| 0 <= i < failures.len() ==> failures[i] <= latest(failures, floor),
        latest(failures, floor) == floor || exists|i: int|
            0 <= i < failures.len() && failures[i] == latest(failures, floor),
        floor <= u64::MAX ==> latest(failures, floor) <= u64::MAX,
    decreases failures.len(),
{
    if failures.len() > 0 {
        let front = failures.drop_last();
        lemma_latest(front, floor);
        assert(forall|i: int| 0 <= i < front.len() ==> front[i] == failures[i]);
        if latest(failures, floor) != floor {
            if latest(failures, floor) == failures.last() {
                assert(failures[failures.len() - 1] == latest(failures, floor));
            } else {
                let i = choose|i: int| 0 <= i < front.len() && front[i] == latest(front, floor);
                assert(failures[i] == latest(failures, floor));
            }
        }
    }
}

/// The window after a search in `w` that found no correct repair. Where a
/// candidate failed later than the window reaches, the window is taken out
/// to the latest such failure. Else it is moved `step_size` cycles further
/// into the past, but not before the first cycle.
pub open spec fn updated(
    w: RepairWindow,
    failures: Seq<StepInt>,
    fail_at: StepInt,
    step_size: StepInt,
) -> RepairWindow {
    let end = fail_at + w.future_k;
    let far = latest(failures, end);
    if far > end {
        RepairWindow { future_k: (far - fail_at) as StepInt, past_k: w.past_k }
    } else {
        RepairWindow {
            future_k: w.future_k,
            past_k: vstd::math::min(fail_at as int, w.past_k + step_size) as StepInt,
        }
    }
}

impl RepairWindow {
    /// The window lies within the cycles that can be numbered, and does not
    /// start before the first cycle.
    pub open spec fn wf(&self, fail_at: StepInt) -> bool {
        self.past_k <= fail_at && fail_at + self.future_k <= u64::MAX
    }

    /// The first cycle of the window.
    pub open spec fn start(&self, fail_at: StepInt) -> StepInt {
        if self.past_k < fail_at {
            (fail_at - self.past_k) as StepInt
        } else {
            0
        }
    }

    /// The last cycle of the window.
    pub open spec fn end(&self, fail_at: StepInt) -> int {
        fail_at + self.future_k
    }

    /// The window of the failing cycle alone.
    pub fn new() -> (r: Self)
        ensures
            r.past_k == 0,
            r.future_k == 0,
    {
        Self { future_k: 0, past_k: 0 }
    }

    /// Number of cycles besides the failing one.
    pub fn len(&self) -> (r: StepInt)
        requires
            self.past_k + self.future_k <= u64::MAX,
        ensures
            r == self.past_k + self.future_k,
    {
        self.past_k + self.future_k
    }

    /// The first and the last cycle of the window.
    pub fn get_step_range(&self, fail_at: StepInt) -> (r: (StepInt, StepInt))
        requires
            fail_at + self.future_k <= u64::MAX,
        ensures
            r.0 == self.start(fail_at),
            r.1 == self.end(fail_at),
            r.0 <= fail_at <= r.1,
    {
        let start = if self.past_k < fail_at {
            fail_at - self.past_k
        } else {
            0
        };
        let end = fail_at + self.future_k;
        (start, end)
    }

    /// Widens the window after a search that found no correct repair;
    /// `failures` holds the cycle at which each candidate failed. Returns
    /// whether the window changed.
    pub fn update(
        &mut self,
        failures: &[StepInt],
        original_failure: StepInt,
        past_step_size: StepInt,
        max_window_size: StepInt,
    ) -> (progress: bool)
        requires
            old(self).wf(original_failure),
        ensures
            *final(self) == updated(*old(self), failures@, original_failure, past_step_size),
            progress == (*final(self) != *old(self)),
            final(self).wf(original_failure),
    {
        let old_window = *self;
        let end = original_failure + self.future_k;
        // the latest failure after the end of the window
        let mut far: StepInt = end;
        let mut i: usize = 0;
        proof {
            assert(failures@.take(0) =~= Seq::<StepInt>::empty());
        }
        while i < failures.len()
            invariant
                i <= failures.len(),
                far == latest(failures@.take(i as int), end as int),
            decreases failures.len() - i,
        {
            proof {
                assert(failures@.take(i + 1).drop_last() =~= failures@.take(i as int));
            }
            if failures[i] > far {
                far = failures[i];
            }
            i += 1;
        }
        proof {
            assert(failures@.take(failures.len() as int) =~= failures@);
        }
        if far > end {
            self.future_k = far - original_failure;
        } else {
            // when no candidate leads to a later failure, we update the past K
            // in order to get a more accurate starting state
            let room = original_failure - self.past_k;
            if past_step_size >= room {
                self.past_k = original_failure;
            } else {
                self.past_k = self.past_k + past_step_size;
            }
        }
        self.future_k != old_window.future_k || self.past_k != old_window.past_k
    }
}

/// A widened window reaches at least as far as before in both directions,
/// stays within the testbench when every failure does, and, where it
/// changed, reaches further in one of them.
pub proof fn update_makes_progress(
    w: RepairWindow,
    failures: Seq<StepInt>,
    fail_at: StepInt,
    step_size: StepInt,
    rows: nat,
)
    requires
        w.wf(fail_at),
        w.end(fail_at) < rows,
        forall|i: int| 0 <= i < failures.len() ==> failures[i] < rows,
    ensures
        ({
            let n = updated(w, failures, fail_at, step_size);
            &&& n.wf(fail_at)
            &&& n.end(fail_at) < rows
            &&& w.past_k <= n.past_k
            &&& w.future_k <= n.future_k
            &&& n.start(fail_at) <= w.start(fail_at)
            &&& n != w ==> (n.past_k > w.past_k || n.future_k > w.future_k)
            &&& (fail_at - n.past_k) + (rows - n.end(fail_at)) <= (fail_at - w.past_k) + (rows
                - w.end(fail_at))
            &&& n != w ==> (fail_at - n.past_k) + (rows - n.end(fail_at)) < (fail_at - w.past_k)
                + (rows - w.end(fail_at))
        }),
{
    lemma_latest(failures, w.end(fail_at));
}

/// One window of the study of window sizes: `window_size` cycles, of which
/// `past_k` lie before the failing cycle and `future_k` after it.
#[derive(Debug, Copy, Clone, Eq, PartialEq, Structural)]
pub struct WindowConf {
    pub past_k: StepInt,
    pub future_k: StepInt,
    pub window_size: StepInt,
    pub offset: StepInt,
}

/// The window of `window_size` cycles that is moved `offset` cycles towards
/// the future.
pub open spec fn window_at(window_size: StepInt, offset: StepInt) -> WindowConf {
    WindowConf {
        past_k: (window_size - 1 - offset) as StepInt,
        future_k: offset,
        window_size,
        offset,
    }
}

/// The window lies within a testbench of `rows` cycles that fails at
/// `fail_at`: it starts at the first cycle or after it, and ends at one of
/// the cycles.
pub open spec fn window_fits(w: WindowConf, fail_at: StepInt, rows: nat) -> bool {
    w.past_k <= fail_at && fail_at + w.future_k < rows
}

impl WindowConf {
    /// The window with the given size and offset, where it fits the
    /// testbench.
    pub fn fitting(window_size: StepInt, offset: StepInt, fail_at: StepInt, rows: StepInt) -> (r:
        Option<WindowConf>)
        requires
            offset < window_size,
        ensures
            r == if window_fits(window_at(window_size, offset), fail_at, rows as nat) {
                Some(window_at(window_size, offset))
            } else {
                None
            },
    {
        // derive past and future k
        let past_k = window_size - 1 - offset;
        if past_k > fail_at {
            // window does not fit on the left
            return None;
        }
        let future_k = window_size - 1 - past_k;
        if future_k >= rows || fail_at >= rows - future_k {
            // window does not fit on the right
            return None;
        }
        Some(WindowConf { past_k, future_k, window_size, offset })
    }

    /// The first and the last cycle of the window.
    pub fn get_step_range(&self, fail_at: StepInt) -> (r: (StepInt, StepInt))
        requires
            fail_at + self.future_k <= u64::MAX,
        ensures
            r.0 == if self.past_k < fail_at {
                (fail_at - self.past_k) as StepInt
            } else {
                0
            },
            r.1 == fail_at + self.future_k,
    {
        let start = if self.past_k < fail_at {
            fail_at - self.past_k
        } else {
            0
        };
        let end = fail_at + self.future_k;
        (start, end)
    }
}

/// The size and offset that follow `(window_size, offset)` in the order in
/// which the study goes through the windows: all offsets of one size, then
/// the next size, up to `max_size`.
pub open spec fn successor(window_size: StepInt, offset: StepInt, max_size: StepInt) -> Option<
    (StepInt, StepInt),
> {
    if offset + 1 < window_size {
        Some((window_size, (offset + 1) as StepInt))
    } else if window_size < max_size {
        Some(((window_size + 1) as StepInt, 0))
    } else {
        None
    }
}

/// Size and offset of the window to try after `(window_size, offset)`.
pub fn next_size_and_offset(window_size: StepInt, offset: StepInt, max_size: StepInt) -> (r: Option<
    (StepInt, StepInt),
>)
    requires
        offset < window_size,
    ensures
        r == successor(window_size, offset, max_size),
        r is Some ==> r.unwrap().1 < r.unwrap().0,
{
    if offset < window_size - 1 {
        Some((window_size, offset + 1))
    } else if window_size < max_size {
        Some((window_size + 1, 0))
    } else {
        None
    }
}

} // verus!
