//! The choices of a run: the solver and its logic, how signals without a
//! value are initialised, and which search is used.

use crate::system::bytes_equal;
use crate::system::name_bytes;
use vstd::prelude::*;

verus! {

/// The solvers that a run can use.
#[derive(Debug, Copy, Clone, PartialEq, Eq, Structural)]
pub enum Solver {
    Bitwuzla,
    Yices2,
}

/// How signals without a value are initialised.
#[derive(Debug, Copy, Clone, PartialEq, Eq, Structural)]
pub enum Init {
    Zero,
    Random,
    /// Not supported: random values are used in its place.
    Any,
}

/// Zero, or random values from a seed.
#[derive(Debug, Copy, Clone, PartialEq, Eq, Structural)]
pub enum InitKind {
    Zero,
    Random(u64),
}

/// How to initialise the simulator and how to fill the inputs of the
/// testbench that have no value.
pub struct InitPlan {
    pub sim: InitKind,
    pub testbench: InitKind,
    /// The choice is not supported as such, and the user is to be told.
    pub warn: bool,
}

/// The initialisation for a choice of the user.
pub fn init_plan(init: Init) -> (r: InitPlan)
    ensures
        r.sim == match init {
            Init::Zero => InitKind::Zero,
            _ => InitKind::Random(0),
        },
        r.testbench == match init {
            Init::Zero => InitKind::Zero,
            _ => InitKind::Random(1),
        },
        r.warn == (init == Init::Any),
{
    match init {
        Init::Zero => InitPlan { sim: InitKind::Zero, testbench: InitKind::Zero, warn: false },
        Init::Random => InitPlan {
            sim: InitKind::Random(0),
            testbench: InitKind::Random(1),
            warn: false,
        },
        Init::Any => InitPlan {
            sim: InitKind::Random(0),
            testbench: InitKind::Random(1),
            warn: true,
        },
    }
}

/// The search that a run uses.
#[derive(Debug, Copy, Clone, PartialEq, Eq, Structural)]
pub enum Strategy {
    Basic,
    Incremental,
    Windowing,
}

/// The search for the choices of the user; nothing where both the
/// incremental search and the study of windows are asked for.
pub fn strategy(incremental: bool, windowing: bool) -> (r: Option<Strategy>)
    ensures
        r == if incremental && windowing {
            None
        } else if incremental {
            Some(Strategy::Incremental)
        } else if windowing {
            Some(Strategy::Windowing)
        } else {
            Some(Strategy::Basic)
        },
{
    if incremental && windowing {
        None
    } else if incremental {
        Some(Strategy::Incremental)
    } else if windowing {
        Some(Strategy::Windowing)
    } else {
        Some(Strategy::Basic)
    }
}

/// The logic for a solver with the given command name: `z3` takes constant
/// arrays only with all logics switched on; other solvers get the logic of
/// arrays and bit-vectors, with uninterpreted functions where they support
/// them.
pub fn logic_for(name: &str, supports_uf: bool) -> (r: &'static str)
    ensures
        r@ == if name_bytes(name@) == name_bytes("z3"@) {
            "ALL"@
        } else if supports_uf {
            "QF_AUFBV"@
        } else {
            "QF_ABV"@
        },
{
    if bytes_equal(name.as_bytes(), "z3".as_bytes()) {
        "ALL"
    } else if supports_uf {
        "QF_AUFBV"
    } else {
        "QF_ABV"
    }
}

/// What a run does after the first run of the testbench.
#[derive(Debug, Copy, Clone, PartialEq, Eq, Structural)]
pub enum Verdict {
    /// The system does not fail the testbench: there is nothing to repair.
    NoRepair,
    /// The system cannot be repaired, or a repair could not be told from a
    /// failure.
    CannotRepair,
    /// The system fails at this cycle: search for a repair.
    Search { fail_at: u64 },
}

/// What a run does after the first run of the testbench on the unchanged
/// system found `first_fail_at`, for a system with `changes` change
/// variables. A testbench that expects nothing of any output cannot tell a
/// repair from a failure. Without a failure there is nothing to repair, and
/// without change variables nothing to repair it with.
pub open spec fn verdict_for(
    first_fail_at: Option<u64>,
    changes: int,
    lacks_all_outputs: bool,
) -> Verdict {
    if lacks_all_outputs {
        Verdict::CannotRepair
    } else if first_fail_at is None {
        Verdict::NoRepair
    } else if changes == 0 {
        Verdict::CannotRepair
    } else {
        Verdict::Search { fail_at: first_fail_at.unwrap() }
    }
}

/// Decides what a run does after the first run of the testbench on the
/// unchanged system.
pub fn after_first_run(first_fail_at: Option<u64>, changes: usize, lacks_all_outputs: bool) -> (r:
    Verdict)
    ensures
        r == verdict_for(first_fail_at, changes as int, lacks_all_outputs),
{
    if lacks_all_outputs {
        return Verdict::CannotRepair;
    }
    match first_fail_at {
        // early exit in case we do not see any bug
        None => Verdict::NoRepair,
        Some(fail_at) => {
            // early exit if there is a bug, but no synthesis variables to change the design
            if changes == 0 {
                Verdict::CannotRepair
            } else {
                Verdict::Search { fail_at }
            }
        },
    }
}

} // verus!
