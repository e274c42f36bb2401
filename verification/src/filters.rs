//! A quick check, without unrolling, that can tell that there is no way to
//! repair the system with its repair variables: the system is started from
//! an arbitrary state at the failing cycle, and the solver is asked whether
//! any state and any values of the repair variables give the outputs that
//! the testbench expects in that cycle.

use crate::protocol::Command;
use crate::protocol::Response;
use crate::testbench::StepInt;
use vstd::prelude::*;

verus! {

/// The place of `Check` among the commands of the filter.
pub const FILTER_CHECK: usize = 3;

/// The commands of the filter for the failing cycle `fail_at`, in their
/// order. They are the same whatever the replies; the reply to the check
/// decides.
pub open spec fn filter_script(fail_at: StepInt) -> Seq<Command> {
    seq![
        Command::Push,
        Command::InitAt { step: fail_at },
        Command::ConstrainTestbench { start: fail_at, end: fail_at },
        Command::Check,
        Command::Pop,
    ]
}

/// The commands of the filter.
pub fn filter_commands(fail_at: StepInt) -> (r: Vec<Command>)
    ensures
        r@ == filter_script(fail_at),
        r[FILTER_CHECK as int] == Command::Check,
{
    let mut out: Vec<Command> = Vec::new();
    // start new SMT context to make it easy to later revert everything
    out.push(Command::Push);
    // start encoding
    out.push(Command::InitAt { step: fail_at });
    // apply output / input constraints
    out.push(Command::ConstrainTestbench { start: fail_at, end: fail_at });
    // let's see if a solution exists
    out.push(Command::Check);
    // clean up
    out.push(Command::Pop);
    proof {
        assert(out@ =~= filter_script(fail_at));
    }
    out
}

/// What the response to the check of the filter says: only when the check
/// cannot be satisfied is there no way to repair the system.
pub fn can_be_repaired_from_arbitrary_state(response: Response) -> (r: bool)
    ensures
        r == (response != Response::Unsat),
{
    match response {
        Response::Sat | Response::Unknown => true,  // can maybe be repaired
        Response::Unsat => false,  // there is no way this system can be repaired!
    }
}

} // verus!
