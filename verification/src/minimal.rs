//! The search for a repair with the fewest changes over a range of cycles.
//!
//! The system is encoded from the first cycle of the range, its starting
//! state is pinned to that of the simulator, the encoding is unrolled to the
//! last cycle, and the testbench is asserted. Where that can be satisfied,
//! the change count is tried from 1 upwards until a count can be satisfied.

use crate::protocol::Command;
use crate::protocol::Reply;
use crate::protocol::ReplyView;
use crate::protocol::Response;
use crate::repair::AssignmentView;
use crate::testbench::StepInt;
use vstd::prelude::*;

verus! {

/// Where a search for a minimal repair stands: the command that was handed
/// out last, or how the search ended.
#[derive(Debug, Clone, Copy, PartialEq, Eq, Structural)]
pub enum MinimalPhase {
    /// Nothing was handed out yet.
    Idle,
    /// `InitAt` was handed out.
    Init,
    /// `PinStartState` was handed out.
    Pin,
    /// `Unroll` was handed out, and `left` more are to follow.
    Unrolling { left: StepInt },
    /// `ConstrainTestbench` was handed out.
    Constrain,
    /// `Check` was handed out.
    Feasible,
    /// `CheckChangeCount` was handed out for `count`.
    Minimize { count: u32 },
    /// `EndAssuming` was handed out after `count` could not be satisfied.
    Retract { count: u32 },
    /// `ReadAssignment` was handed out after `count` could be satisfied.
    Read { count: u32 },
    /// `EndAssuming` was handed out after the assignment was read.
    Release { count: u32 },
    /// Ended: a repair with `count` changes was found.
    Found { count: u32 },
    /// Ended: there is no repair over this range.
    NoRepair,
    /// Ended: a reply came that the phase does not wait for.
    OutOfTurn,
}

impl MinimalPhase {
    /// The search has ended.
    pub open spec fn ended(&self) -> bool {
        matches!(
            *self,
            MinimalPhase::Found { .. } | MinimalPhase::NoRepair | MinimalPhase::OutOfTurn
        )
    }
}

/// The phase after `reply` came in `phase`, and the command to hand out, for
/// a search over the cycles `start` to `end` that tries at most `max_changes`
/// changes.
pub open spec fn minimal_next(
    start: StepInt,
    end: StepInt,
    max_changes: u32,
    phase: MinimalPhase,
    reply: ReplyView,
) -> (MinimalPhase, Command) {
    match (phase, reply) {
        (MinimalPhase::Idle, ReplyView::Start) => (
            MinimalPhase::Init,
            Command::InitAt { step: start },
        ),
        (MinimalPhase::Init, ReplyView::Done) => (
            MinimalPhase::Pin,
            Command::PinStartState { step: start },
        ),
        (MinimalPhase::Pin, ReplyView::Done) => if start < end {
            (MinimalPhase::Unrolling { left: (end - start - 1) as StepInt }, Command::Unroll)
        } else {
            (MinimalPhase::Constrain, Command::ConstrainTestbench { start, end })
        },
        (MinimalPhase::Unrolling { left }, ReplyView::Done) => if left > 0 {
            (MinimalPhase::Unrolling { left: (left - 1) as StepInt }, Command::Unroll)
        } else {
            (MinimalPhase::Constrain, Command::ConstrainTestbench { start, end })
        },
        (MinimalPhase::Constrain, ReplyView::Done) => (MinimalPhase::Feasible, Command::Check),
        (MinimalPhase::Feasible, ReplyView::Response(Response::Sat)) => if max_changes >= 1 {
            (
                MinimalPhase::Minimize { count: 1 },
                Command::CheckChangeCount { count: 1, step: start },
            )
        } else {
            (MinimalPhase::NoRepair, Command::Finish)
        },
        (MinimalPhase::Feasible, ReplyView::Response(_)) => (
            MinimalPhase::NoRepair,
            Command::Finish,
        ),
        (MinimalPhase::Minimize { count }, ReplyView::Response(Response::Sat)) => (
            MinimalPhase::Read { count },
            Command::ReadAssignment { step: start },
        ),
        (MinimalPhase::Minimize { count }, ReplyView::Response(Response::Unsat)) => (
            MinimalPhase::Retract { count },
            Command::EndAssuming,
        ),
        (MinimalPhase::Retract { count }, ReplyView::Done) => if count < max_changes {
            (
                MinimalPhase::Minimize { count: (count + 1) as u32 },
                Command::CheckChangeCount { count: (count + 1) as u32, step: start },
            )
        } else {
            (MinimalPhase::NoRepair, Command::Finish)
        },
        (MinimalPhase::Read { count }, ReplyView::Assignment(_)) => (
            MinimalPhase::Release { count },
            Command::EndAssuming,
        ),
        (MinimalPhase::Release { count }, ReplyView::Done) => (
            MinimalPhase::Found { count },
            Command::Finish,
        ),
        (MinimalPhase::Found { count }, _) => (MinimalPhase::Found { count }, Command::Finish),
        (MinimalPhase::NoRepair, _) => (MinimalPhase::NoRepair, Command::Finish),
        _ => (MinimalPhase::OutOfTurn, Command::Finish),
    }
}

/// The candidate after `reply` came in `phase`: the assignment that was read
/// from the model, once it was read.
pub open spec fn minimal_candidate(
    phase: MinimalPhase,
    candidate: Option<AssignmentView>,
    reply: ReplyView,
) -> Option<AssignmentView> {
    match (phase, reply) {
        (MinimalPhase::Read { count }, ReplyView::Assignment(a)) => Some(a),
        _ => candidate,
    }
}

/// The reply is one that a search in `phase` goes on with: the solver knows
/// whether the count that the search asked for can be satisfied. A search
/// for the fewest changes cannot go on with a solver that does not know.
pub open spec fn answers(phase: MinimalPhase, reply: ReplyView) -> bool {
    !(phase is Minimize && reply == ReplyView::Response(Response::Unknown))
}

/// What the response of the solver to the check of `count` changes means
/// for the minimization: with a repair of so many changes the search reads
/// it; without one it withdraws the assumption, to go on with one change
/// more.
pub fn minimize_changes(count: u32, response: Response) -> (r: MinimalPhase)
    requires
        response != Response::Unknown,
    ensures
        r == match response {
            Response::Sat => MinimalPhase::Read { count },
            _ => MinimalPhase::Retract { count },
        },
{
    match response {
        Response::Sat => MinimalPhase::Read { count },
        _ => MinimalPhase::Retract { count },
    }
}

/// Whether the reply is one that a search in `phase` goes on with.
pub fn phase_admits(phase: MinimalPhase, reply: &Reply) -> (r: bool)
    ensures
        r == answers(phase, reply@),
{
    match (phase, reply) {
        (MinimalPhase::Minimize { .. }, Reply::Response(Response::Unknown)) => false,
        _ => true,
    }
}

/// A search for a minimal repair over the cycles `start` to `end`.
pub struct MinimalRepair {
    pub start: StepInt,
    pub end: StepInt,
    /// The largest number of changes to try.
    pub max_changes: u32,
    pub phase: MinimalPhase,
}

impl MinimalRepair {
    /// A search that has not begun.
    pub fn new(start: StepInt, end: StepInt, max_changes: u32) -> (r: Self)
        ensures
            r.start == start,
            r.end == end,
            r.max_changes == max_changes,
            r.phase == MinimalPhase::Idle,
    {
        Self { start, end, max_changes, phase: MinimalPhase::Idle }
    }

    /// Runs the search on from the reply to its last command, and hands out
    /// its next command; `Finish` when the search has ended. The assignment
    /// that comes as the reply to `ReadAssignment` is the repair that the
    /// search finds.
    pub fn run(&mut self, reply: &Reply) -> (command: Command)
        requires
            answers(old(self).phase, reply@),
        ensures
            (final(self).phase, command) == minimal_next(
                old(self).start,
                old(self).end,
                old(self).max_changes,
                old(self).phase,
                reply@,
            ),
            final(self).start == old(self).start,
            final(self).end == old(self).end,
            final(self).max_changes == old(self).max_changes,
    {
        let start = self.start;
        let end = self.end;
        let (phase, command) = match (self.phase, reply) {
            (MinimalPhase::Idle, Reply::Start) => (
                MinimalPhase::Init,
                Command::InitAt { step: start },
            ),
            (MinimalPhase::Init, Reply::Done) => (
                MinimalPhase::Pin,
                Command::PinStartState { step: start },
            ),
            (MinimalPhase::Pin, Reply::Done) => if start < end {
                (MinimalPhase::Unrolling { left: end - start - 1 }, Command::Unroll)
            } else {
                (MinimalPhase::Constrain, Command::ConstrainTestbench { start, end })
            },
            (MinimalPhase::Unrolling { left }, Reply::Done) => if left > 0 {
                (MinimalPhase::Unrolling { left: left - 1 }, Command::Unroll)
            } else {
                (MinimalPhase::Constrain, Command::ConstrainTestbench { start, end })
            },
            (MinimalPhase::Constrain, Reply::Done) => (MinimalPhase::Feasible, Command::Check),
            (MinimalPhase::Feasible, Reply::Response(Response::Sat)) => if self.max_changes >= 1 {
                (
                    MinimalPhase::Minimize { count: 1 },
                    Command::CheckChangeCount { count: 1, step: start },
                )
            } else {
                (MinimalPhase::NoRepair, Command::Finish)
            },
            // cannot find a repair
            (MinimalPhase::Feasible, Reply::Response(_)) => (
                MinimalPhase::NoRepair,
                Command::Finish,
            ),
            (MinimalPhase::Minimize { count }, Reply::Response(response)) => {
                let phase = minimize_changes(count, *response);
                let command = match phase {
                    // found a solution
                    MinimalPhase::Read { .. } => Command::ReadAssignment { step: start },
                    // remove assertion for next round
                    MinimalPhase::Retract { .. } => Command::EndAssuming,
                    _ => Command::Finish,
                };
                (phase, command)
            },
            (MinimalPhase::Retract { count }, Reply::Done) => if count < self.max_changes {
                (
                    MinimalPhase::Minimize { count: count + 1 },
                    Command::CheckChangeCount { count: count + 1, step: start },
                )
            } else {
                (MinimalPhase::NoRepair, Command::Finish)
            },
            (MinimalPhase::Read { count }, Reply::Assignment(_)) => (
                MinimalPhase::Release { count },
                Command::EndAssuming,
            ),
            (MinimalPhase::Release { count }, Reply::Done) => (
                MinimalPhase::Found { count },
                Command::Finish,
            ),
            (MinimalPhase::Found { count }, _) => (MinimalPhase::Found { count }, Command::Finish),
            (MinimalPhase::NoRepair, _) => (MinimalPhase::NoRepair, Command::Finish),
            _ => (MinimalPhase::OutOfTurn, Command::Finish),
        };
        self.phase = phase;
        command
    }
}

/// The phase of a search that began and was given `replies`, one after the
/// other.
pub open spec fn phase_after(
    start: StepInt,
    end: StepInt,
    max_changes: u32,
    replies: Seq<ReplyView>,
) -> MinimalPhase
    decreases replies.len(),
{
    if replies.len() == 0 {
        MinimalPhase::Idle
    } else {
        minimal_next(
            start,
            end,
            max_changes,
            phase_after(start, end, max_changes, replies.drop_last()),
            replies.last(),
        ).0
    }
}

/// Among `replies` is the answer `answer` to the check of the change count
/// `count`.
pub open spec fn answered(
    start: StepInt,
    end: StepInt,
    max_changes: u32,
    replies: Seq<ReplyView>,
    count: u32,
    answer: Response,
) -> bool {
    exists|i: int|
        0 <= i < replies.len() && #[trigger] phase_after(start, end, max_changes, replies.take(i))
            == (MinimalPhase::Minimize { count }) && replies[i] == ReplyView::Response(answer)
}

/// What the phase of a search says of the replies that led to it.
pub open spec fn counts_tried(
    start: StepInt,
    end: StepInt,
    max_changes: u32,
    replies: Seq<ReplyView>,
) -> bool {
    match phase_after(start, end, max_changes, replies) {
        MinimalPhase::Minimize { count } => {
            &&& 1 <= count <= max_changes
            &&& forall|c: u32|
                1 <= c < count ==> answered(start, end, max_changes, replies, c, Response::Unsat)
        },
        MinimalPhase::Retract { count } => {
            &&& 1 <= count <= max_changes
            &&& forall|c: u32|
                1 <= c <= count ==> answered(start, end, max_changes, replies, c, Response::Unsat)
        },
        MinimalPhase::Read { count } | MinimalPhase::Release { count } | MinimalPhase::Found {
            count,
        } => {
            &&& 1 <= count <= max_changes
            &&& forall|c: u32|
                1 <= c < count ==> answered(start, end, max_changes, replies, c, Response::Unsat)
            &&& answered(start, end, max_changes, replies, count, Response::Sat)
        },
        _ => true,
    }
}

/// An answer among the replies so far is still among them after one more.
proof fn lemma_answered_stays(
    start: StepInt,
    end: StepInt,
    max_changes: u32,
    replies: Seq<ReplyView>,
    count: u32,
    answer: Response,
)
    requires
        replies.len() > 0,
        answered(start, end, max_changes, replies.drop_last(), count, answer),
    ensures
        answered(start, end, max_changes, replies, count, answer),
{
    let front = replies.drop_last();
    let i = choose|i: int|
        0 <= i < front.len() && #[trigger] phase_after(start, end, max_changes, front.take(i))
            == (MinimalPhase::Minimize { count }) && front[i] == ReplyView::Response(answer);
    assert(replies.take(i) =~= front.take(i));
    assert(phase_after(start, end, max_changes, replies.take(i)) == (MinimalPhase::Minimize {
        count,
    }));
}

/// The last reply is an answer to the check that the phase before it waits
/// for.
proof fn lemma_answered_now(
    start: StepInt,
    end: StepInt,
    max_changes: u32,
    replies: Seq<ReplyView>,
    count: u32,
    answer: Response,
)
    requires
        replies.len() > 0,
        phase_after(start, end, max_changes, replies.drop_last()) == (MinimalPhase::Minimize {
            count,
        }),
        replies.last() == ReplyView::Response(answer),
    ensures
        answered(start, end, max_changes, replies, count, answer),
{
    let i = replies.len() - 1;
    assert(replies.take(i) =~= replies.drop_last());
    assert(phase_after(start, end, max_changes, replies.take(i)) == (MinimalPhase::Minimize {
        count,
    }));
}

proof fn lemma_counts_tried(start: StepInt, end: StepInt, max_changes: u32, replies: Seq<ReplyView>)
    ensures
        counts_tried(start, end, max_changes, replies),
    decreases replies.len(),
{
    if replies.len() > 0 {
        let front = replies.drop_last();
        lemma_counts_tried(start, end, max_changes, front);
        let before = phase_after(start, end, max_changes, front);
        let after = phase_after(start, end, max_changes, replies);
        // the counts below `bound` that were refuted before are refuted still
        let bound: int = match before {
            MinimalPhase::Minimize { count } => count as int,
            MinimalPhase::Retract { count } => count + 1,
            MinimalPhase::Read { count } => count as int,
            MinimalPhase::Release { count } => count as int,
            MinimalPhase::Found { count } => count as int,
            _ => 0,
        };
        assert forall|c: u32| 1 <= c < bound implies answered(
            start,
            end,
            max_changes,
            replies,
            c,
            Response::Unsat,
        ) by {
            assert(answered(start, end, max_changes, front, c, Response::Unsat));
            lemma_answered_stays(start, end, max_changes, replies, c, Response::Unsat);
        }
        match before {
            MinimalPhase::Minimize { count } => {
                match replies.last() {
                    ReplyView::Response(answer) => {
                        lemma_answered_now(start, end, max_changes, replies, count, answer);
                    },
                    _ => {},
                }
            },
            MinimalPhase::Read { count } | MinimalPhase::Release { count } | MinimalPhase::Found {
                count,
            } => {
                lemma_answered_stays(start, end, max_changes, replies, count, Response::Sat);
            },
            _ => {},
        }
    }
}

/// A search that ends with a repair of `count` changes has asked the solver
/// for every smaller number of changes, from 1 on, and was told that there
/// is no repair with so many; and it was told that there is one with `count`
/// changes.
pub proof fn found_count_is_minimal(
    start: StepInt,
    end: StepInt,
    max_changes: u32,
    replies: Seq<ReplyView>,
    count: u32,
)
    requires
        phase_after(start, end, max_changes, replies) == (MinimalPhase::Found { count }),
    ensures
        1 <= count <= max_changes,
        forall|c: u32|
            1 <= c < count ==> answered(start, end, max_changes, replies, c, Response::Unsat),
        answered(start, end, max_changes, replies, count, Response::Sat),
{
    lemma_counts_tried(start, end, max_changes, replies);
}

} // verus!
