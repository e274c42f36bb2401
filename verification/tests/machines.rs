use num_bigint::BigUint;
use synth::basic::basic_repair;
use synth::basic::generate_minimal_repair;
use synth::filters::can_be_repaired_from_arbitrary_state;
use synth::filters::filter_commands;
use synth::filters::FILTER_CHECK;
use synth::incremental::Ending;
use synth::incremental::IncrementalConf;
use synth::incremental::IncrementalPhase;
use synth::incremental::IncrementalRepair;
use synth::minimal::minimize_changes;
use synth::minimal::phase_admits;
use synth::minimal::MinimalPhase;
use synth::minimal::MinimalRepair;
use synth::protocol::Command;
use synth::protocol::Reply;
use synth::protocol::Response;
use synth::repair::RepairAssignment;
use synth::result::cannot_repair;
use synth::result::no_repair;
use synth::result::status_name;
use synth::result::RepairStatus;
use synth::result::Stats;
use synth::session::after_first_run;
use synth::session::init_plan;
use synth::session::logic_for;
use synth::session::strategy;
use synth::session::Init;
use synth::session::InitKind;
use synth::session::Strategy;
use synth::session::Verdict;
use synth::window::RepairWindow;
use synth::windowing::Windowing;
use synth::windowing::WindowingConf;
use synth::windowing::WindowingPhase;

fn assignment(change: &[bool]) -> RepairAssignment {
    RepairAssignment { change: change.to_vec(), free: vec![BigUint::from(7u8)] }
}

fn sat() -> Reply {
    Reply::Response(Response::Sat)
}

fn unsat() -> Reply {
    Reply::Response(Response::Unsat)
}

#[test]
fn minimal_repair_counts_up_from_one() {
    let mut m = MinimalRepair::new(2, 4, 3);
    assert_eq!(m.run(&Reply::Start), Command::InitAt { step: 2 });
    assert_eq!(m.run(&Reply::Done), Command::PinStartState { step: 2 });
    assert_eq!(m.run(&Reply::Done), Command::Unroll);
    assert_eq!(m.run(&Reply::Done), Command::Unroll);
    assert_eq!(m.run(&Reply::Done), Command::ConstrainTestbench { start: 2, end: 4 });
    assert_eq!(m.run(&Reply::Done), Command::Check);
    assert_eq!(m.run(&sat()), Command::CheckChangeCount { count: 1, step: 2 });
    assert_eq!(m.run(&unsat()), Command::EndAssuming);
    assert_eq!(m.run(&Reply::Done), Command::CheckChangeCount { count: 2, step: 2 });
    assert_eq!(m.run(&sat()), Command::ReadAssignment { step: 2 });
    assert_eq!(m.phase, MinimalPhase::Read { count: 2 });
    assert_eq!(m.run(&Reply::Assignment(assignment(&[true, true]))), Command::EndAssuming);
    assert_eq!(m.run(&Reply::Done), Command::Finish);
    assert_eq!(m.phase, MinimalPhase::Found { count: 2 });
    // nothing more happens
    assert_eq!(m.run(&Reply::Done), Command::Finish);
    assert_eq!(m.phase, MinimalPhase::Found { count: 2 });
}

#[test]
fn minimal_repair_over_one_cycle_does_not_unroll() {
    let mut m = MinimalRepair::new(5, 5, 1);
    assert_eq!(m.run(&Reply::Start), Command::InitAt { step: 5 });
    assert_eq!(m.run(&Reply::Done), Command::PinStartState { step: 5 });
    assert_eq!(m.run(&Reply::Done), Command::ConstrainTestbench { start: 5, end: 5 });
}

#[test]
fn minimal_repair_without_solution() {
    for answer in [Response::Unsat, Response::Unknown] {
        let mut m = MinimalRepair::new(0, 0, 3);
        m.run(&Reply::Start);
        m.run(&Reply::Done);
        m.run(&Reply::Done);
        assert_eq!(m.run(&Reply::Done), Command::Check);
        assert_eq!(m.run(&Reply::Response(answer)), Command::Finish);
        assert_eq!(m.phase, MinimalPhase::NoRepair);
    }
}

#[test]
fn minimal_repair_does_not_go_on_with_unknown_while_minimizing() {
    let unknown = Reply::Response(Response::Unknown);
    let mut m = MinimalRepair::new(0, 0, 3);
    m.run(&Reply::Start);
    m.run(&Reply::Done);
    m.run(&Reply::Done);
    assert_eq!(m.run(&Reply::Done), Command::Check);
    // the first check may be answered with unknown
    assert!(phase_admits(m.phase, &unknown));
    assert_eq!(m.run(&sat()), Command::CheckChangeCount { count: 1, step: 0 });
    assert!(!phase_admits(m.phase, &unknown));
    assert!(phase_admits(m.phase, &sat()));
    assert!(phase_admits(m.phase, &unsat()));
    assert!(phase_admits(m.phase, &Reply::Done));
    assert_eq!(minimize_changes(4, Response::Sat), MinimalPhase::Read { count: 4 });
    assert_eq!(minimize_changes(4, Response::Unsat), MinimalPhase::Retract { count: 4 });
}

#[test]
fn minimal_repair_gives_up_after_the_last_count() {
    let mut m = MinimalRepair::new(0, 0, 2);
    m.run(&Reply::Start);
    m.run(&Reply::Done);
    m.run(&Reply::Done);
    m.run(&Reply::Done);
    assert_eq!(m.run(&sat()), Command::CheckChangeCount { count: 1, step: 0 });
    assert_eq!(m.run(&unsat()), Command::EndAssuming);
    assert_eq!(m.run(&Reply::Done), Command::CheckChangeCount { count: 2, step: 0 });
    assert_eq!(m.run(&unsat()), Command::EndAssuming);
    assert_eq!(m.run(&Reply::Done), Command::Finish);
    assert_eq!(m.phase, MinimalPhase::NoRepair);
    // without any change variable no count is tried
    let mut none = MinimalRepair::new(0, 0, 0);
    none.run(&Reply::Start);
    none.run(&Reply::Done);
    none.run(&Reply::Done);
    none.run(&Reply::Done);
    assert_eq!(none.run(&sat()), Command::Finish);
    assert_eq!(none.phase, MinimalPhase::NoRepair);
}

#[test]
fn minimal_repair_reply_out_of_turn() {
    let mut m = MinimalRepair::new(0, 3, 2);
    assert_eq!(m.run(&Reply::Done), Command::Finish);
    assert_eq!(m.phase, MinimalPhase::OutOfTurn);
    let mut m = MinimalRepair::new(0, 3, 2);
    m.run(&Reply::Start);
    assert_eq!(m.run(&sat()), Command::Finish);
    assert_eq!(m.phase, MinimalPhase::OutOfTurn);
}

#[test]
fn basic_repair_covers_the_whole_testbench() {
    let g = generate_minimal_repair(3, None, 10, 4);
    assert_eq!((g.start, g.end, g.max_changes), (3, 9, 4));
    let g = generate_minimal_repair(3, Some(5), 10, 4);
    assert_eq!((g.start, g.end), (3, 5));

    let mut b = basic_repair(3, 2);
    assert_eq!(b.run(Reply::Start), Command::InitAt { step: 0 });
    assert_eq!(b.run(Reply::Done), Command::PinStartState { step: 0 });
    assert_eq!(b.run(Reply::Done), Command::Unroll);
    assert_eq!(b.run(Reply::Done), Command::Unroll);
    assert_eq!(b.run(Reply::Done), Command::ConstrainTestbench { start: 0, end: 2 });
    assert_eq!(b.run(Reply::Done), Command::Check);
    assert!(b.ending().is_none());
    assert_eq!(b.run(sat()), Command::CheckChangeCount { count: 1, step: 0 });
    assert_eq!(b.run(sat()), Command::ReadAssignment { step: 0 });
    assert_eq!(b.run(Reply::Assignment(assignment(&[false, true]))), Command::EndAssuming);
    assert_eq!(b.run(Reply::Done), Command::Finish);
    assert_eq!(b.ending(), Some(Ending::Success));
    let r = b.finish().unwrap();
    assert_eq!(r.status, RepairStatus::Success);
    assert_eq!(r.solutions.len(), 1);
    assert_eq!(r.solutions[0].change, vec![false, true]);
    assert_eq!(r.stats, Stats { final_past_k: 0, final_future_k: 0, solver_time: 0 });
}

#[test]
fn basic_repair_without_solution_cannot_repair() {
    let mut b = basic_repair(1, 2);
    b.run(Reply::Start);
    b.run(Reply::Done);
    b.run(Reply::Done);
    assert_eq!(b.run(Reply::Done), Command::Check);
    assert_eq!(b.run(unsat()), Command::Finish);
    assert_eq!(b.ending(), Some(Ending::CannotRepair));
    let r = b.finish().unwrap();
    assert_eq!(r.status, RepairStatus::CannotRepair);
    assert_eq!(r.solutions.len(), 0);
    // a search that has not ended has no report
    let b = basic_repair(1, 2);
    assert!(b.finish().is_none());
}

fn conf(fail_at: u64) -> IncrementalConf {
    IncrementalConf {
        fail_at,
        pask_k_step_size: 2,
        max_repair_window_size: 32,
        max_solutions: 1,
        max_incorrect_solutions_per_window_size: None,
    }
}

/// Drives the search through the commands of the search for a minimal
/// repair in a window from `start` to `end`, with a repair of one change.
fn minimal_round(m: &mut IncrementalRepair, start: u64, end: u64, a: RepairAssignment) {
    assert_eq!(m.run(Reply::Done), Command::InitAt { step: start });
    assert_eq!(m.run(Reply::Done), Command::PinStartState { step: start });
    let mut reply_to = m.run(Reply::Done);
    for _ in start..end {
        assert_eq!(reply_to, Command::Unroll);
        reply_to = m.run(Reply::Done);
    }
    assert_eq!(reply_to, Command::ConstrainTestbench { start, end });
    assert_eq!(m.run(Reply::Done), Command::Check);
    assert_eq!(m.run(sat()), Command::CheckChangeCount { count: 1, step: start });
    assert_eq!(m.run(sat()), Command::ReadAssignment { step: start });
    assert_eq!(m.run(Reply::Assignment(a)), Command::EndAssuming);
    assert_eq!(m.run(Reply::Done), Command::AssertChangeCount { count: 1, step: start });
}

#[test]
fn incremental_first_candidate_is_correct() {
    let mut m = IncrementalRepair::new(conf(3), 10, 2).unwrap();
    assert_eq!(m.run(Reply::Start), Command::RestoreSim { step: 3 });
    assert_eq!(m.run(Reply::Done), Command::Reproduce { start: 3, end: 3 });
    assert_eq!(m.run(Reply::Run(Some(3))), Command::Push);
    assert_eq!(m.run(Reply::Done), Command::RestoreSim { step: 3 });
    minimal_round(&mut m, 3, 3, assignment(&[true, false]));
    assert_eq!(m.run(Reply::Done), Command::TestCandidate);
    assert_eq!(m.candidate().as_ref().unwrap().change, vec![true, false]);
    // the candidate passes: the scope is closed before the search ends
    assert_eq!(m.run(Reply::Run(None)), Command::Pop);
    assert_eq!(m.run(Reply::Done), Command::Finish);
    assert_eq!(m.phase, IncrementalPhase::Ended(Ending::Success));
    let r = m.finish().unwrap();
    assert_eq!(r.status, RepairStatus::Success);
    assert_eq!(r.solutions.len(), 1);
    assert_eq!(r.solutions[0].change, vec![true, false]);
    assert_eq!(r.solutions[0].free, vec![BigUint::from(7u8)]);
    assert_eq!(r.stats, Stats { final_past_k: 0, final_future_k: 0, solver_time: 0 });
}

#[test]
fn incremental_blocks_failing_candidates_and_widens_the_window() {
    let mut m = IncrementalRepair::new(conf(3), 10, 2).unwrap();
    m.run(Reply::Start);
    m.run(Reply::Done);
    m.run(Reply::Run(Some(3)));
    assert_eq!(m.run(Reply::Done), Command::RestoreSim { step: 3 });
    minimal_round(&mut m, 3, 3, assignment(&[true, false]));
    assert_eq!(m.run(Reply::Done), Command::TestCandidate);
    // the candidate fails later: it is blocked and another one is asked for
    assert_eq!(m.run(Reply::Run(Some(6))), Command::BlockCandidate { step: 3 });
    assert_eq!(m.candidate().as_ref().unwrap().change, vec![true, false]);
    assert_eq!(m.run(Reply::Done), Command::Check);
    assert_eq!(m.run(sat()), Command::ReadAssignment { step: 3 });
    assert_eq!(m.run(Reply::Assignment(assignment(&[false, true]))), Command::TestCandidate);
    assert_eq!(m.candidate().as_ref().unwrap().change, vec![false, true]);
    assert_eq!(m.run(Reply::Run(Some(5))), Command::BlockCandidate { step: 3 });
    assert_eq!(m.run(Reply::Done), Command::Check);
    // no more candidates with one change
    assert_eq!(m.run(unsat()), Command::Pop);
    assert_eq!(m.failures_at, vec![6, 5]);
    // the window is taken out to the latest failure
    assert_eq!(m.run(Reply::Done), Command::RestoreSim { step: 3 });
    assert_eq!(m.window, RepairWindow { past_k: 0, future_k: 3 });
    assert_eq!(m.failures_at.len(), 0);
    assert_eq!(m.run(Reply::Done), Command::Reproduce { start: 3, end: 6 });
    assert_eq!(m.run(Reply::Run(Some(3))), Command::Push);
    assert_eq!(m.run(Reply::Done), Command::RestoreSim { step: 3 });
    minimal_round(&mut m, 3, 6, assignment(&[true, true]));
    assert_eq!(m.run(Reply::Done), Command::TestCandidate);
    // fails within the window: the window grows into the past
    assert_eq!(m.run(Reply::Run(Some(4))), Command::BlockCandidate { step: 3 });
    assert_eq!(m.run(Reply::Done), Command::Check);
    assert_eq!(m.run(Reply::Response(Response::Unknown)), Command::Pop);
    assert_eq!(m.run(Reply::Done), Command::RestoreSim { step: 1 });
    assert_eq!(m.window, RepairWindow { past_k: 2, future_k: 3 });
    assert_eq!(m.run(Reply::Done), Command::Reproduce { start: 1, end: 6 });
}

#[test]
fn incremental_gives_up_when_the_window_cannot_grow() {
    let mut m = IncrementalRepair::new(conf(0), 4, 2).unwrap();
    assert_eq!(m.run(Reply::Start), Command::RestoreSim { step: 0 });
    assert_eq!(m.run(Reply::Done), Command::Reproduce { start: 0, end: 0 });
    assert_eq!(m.run(Reply::Run(Some(0))), Command::Push);
    assert_eq!(m.run(Reply::Done), Command::RestoreSim { step: 0 });
    assert_eq!(m.run(Reply::Done), Command::InitAt { step: 0 });
    assert_eq!(m.run(Reply::Done), Command::PinStartState { step: 0 });
    assert_eq!(m.run(Reply::Done), Command::ConstrainTestbench { start: 0, end: 0 });
    assert_eq!(m.run(Reply::Done), Command::Check);
    // no repair for this window
    assert_eq!(m.run(unsat()), Command::Pop);
    assert_eq!(m.run(Reply::Done), Command::Finish);
    assert_eq!(m.phase, IncrementalPhase::Ended(Ending::CannotRepair));
    let r = m.finish().unwrap();
    assert_eq!(r.status, RepairStatus::CannotRepair);
    assert_eq!(r.solutions.len(), 0);
}

#[test]
fn incremental_gives_up_beyond_the_largest_window() {
    let mut c = conf(5);
    c.max_repair_window_size = 3;
    let mut m = IncrementalRepair::new(c, 10, 2).unwrap();
    let mut past = 0;
    loop {
        let start = 5 - past;
        let first = if past == 0 { Reply::Start } else { Reply::Done };
        assert_eq!(m.run(first), Command::RestoreSim { step: start });
        assert_eq!(m.run(Reply::Done), Command::Reproduce { start, end: 5 });
        assert_eq!(m.run(Reply::Run(Some(5))), Command::Push);
        assert_eq!(m.run(Reply::Done), Command::RestoreSim { step: start });
        assert_eq!(m.run(Reply::Done), Command::InitAt { step: start });
        assert_eq!(m.run(Reply::Done), Command::PinStartState { step: start });
        let mut c = m.run(Reply::Done);
        while c == Command::Unroll {
            c = m.run(Reply::Done);
        }
        assert_eq!(c, Command::ConstrainTestbench { start, end: 5 });
        assert_eq!(m.run(Reply::Done), Command::Check);
        assert_eq!(m.run(unsat()), Command::Pop);
        past += 2;
        if past > 3 {
            break;
        }
    }
    assert_eq!(m.run(Reply::Done), Command::Finish);
    assert_eq!(m.phase, IncrementalPhase::Ended(Ending::CannotRepair));
    let r = m.finish().unwrap();
    assert_eq!(r.status, RepairStatus::CannotRepair);
    // the window in which the search ended
    assert_eq!(r.stats, Stats { final_past_k: 4, final_future_k: 0, solver_time: 0 });
}

#[test]
fn incremental_limit_on_incorrect_candidates() {
    let mut c = conf(3);
    c.max_incorrect_solutions_per_window_size = Some(1);
    let mut m = IncrementalRepair::new(c, 10, 2).unwrap();
    m.run(Reply::Start);
    m.run(Reply::Done);
    m.run(Reply::Run(Some(3)));
    m.run(Reply::Done);
    minimal_round(&mut m, 3, 3, assignment(&[true, false]));
    assert_eq!(m.run(Reply::Done), Command::TestCandidate);
    assert_eq!(m.run(Reply::Run(Some(7))), Command::Pop);
    assert_eq!(m.run(Reply::Done), Command::RestoreSim { step: 3 });
    assert_eq!(m.window, RepairWindow { past_k: 0, future_k: 4 });
}

#[test]
fn incremental_collects_several_solutions() {
    let mut c = conf(3);
    c.max_solutions = 2;
    let mut m = IncrementalRepair::new(c, 10, 2).unwrap();
    m.run(Reply::Start);
    m.run(Reply::Done);
    m.run(Reply::Run(Some(3)));
    m.run(Reply::Done);
    minimal_round(&mut m, 3, 3, assignment(&[true, false]));
    assert_eq!(m.run(Reply::Done), Command::TestCandidate);
    assert_eq!(m.run(Reply::Run(None)), Command::BlockCandidate { step: 3 });
    assert_eq!(m.run(Reply::Done), Command::Check);
    assert_eq!(m.run(sat()), Command::ReadAssignment { step: 3 });
    assert_eq!(m.run(Reply::Assignment(assignment(&[false, true]))), Command::TestCandidate);
    assert_eq!(m.run(Reply::Run(None)), Command::Pop);
    assert_eq!(m.run(Reply::Done), Command::Finish);
    let r = m.finish().unwrap();
    assert_eq!(r.status, RepairStatus::Success);
    assert_eq!(r.solutions.len(), 2);
    assert_eq!(r.solutions[0].change, vec![true, false]);
    assert_eq!(r.solutions[1].change, vec![false, true]);
}

#[test]
fn incremental_replies_it_does_not_go_on_with() {
    // the failure is not where it is known to be
    let mut m = IncrementalRepair::new(conf(3), 10, 2).unwrap();
    assert!(m.admits(&Reply::Run(Some(2))));
    m.run(Reply::Start);
    assert_eq!(m.run(Reply::Done), Command::Reproduce { start: 3, end: 3 });
    assert!(!m.admits(&Reply::Run(Some(2))));
    assert!(!m.admits(&Reply::Run(None)));
    assert!(m.admits(&Reply::Run(Some(3))));
    assert!(m.admits(&Reply::Done));
    // the solver does not know
    m.run(Reply::Run(Some(3)));
    m.run(Reply::Done);
    m.run(Reply::Done);
    m.run(Reply::Done);
    m.run(Reply::Done);
    assert_eq!(m.run(Reply::Done), Command::Check);
    assert!(m.admits(&Reply::Response(Response::Unknown)));
    assert_eq!(m.run(sat()), Command::CheckChangeCount { count: 1, step: 3 });
    assert!(!m.admits(&Reply::Response(Response::Unknown)));
    assert!(m.admits(&sat()));
    assert!(m.admits(&Reply::Run(None)));
    // a reply out of turn, and a failure beyond the testbench
    let mut m = IncrementalRepair::new(conf(3), 10, 2).unwrap();
    assert_eq!(m.run(Reply::Done), Command::Finish);
    assert_eq!(m.phase, IncrementalPhase::Ended(Ending::OutOfTurn));
    let mut m = IncrementalRepair::new(conf(3), 10, 2).unwrap();
    m.run(Reply::Start);
    m.run(Reply::Done);
    m.run(Reply::Run(Some(3)));
    m.run(Reply::Done);
    minimal_round(&mut m, 3, 3, assignment(&[true, false]));
    m.run(Reply::Done);
    assert_eq!(m.run(Reply::Run(Some(10))), Command::Finish);
    assert_eq!(m.phase, IncrementalPhase::Ended(Ending::OutOfTurn));
    // no search for a failure that the testbench does not have
    assert!(IncrementalRepair::new(conf(10), 10, 2).is_none());
}

fn study_minimal(m: &mut Windowing, start: u64, end: u64, a: Option<RepairAssignment>) -> Command {
    assert_eq!(m.run(Reply::Done), Command::RestoreSim { step: start });
    assert_eq!(m.run(Reply::Done), Command::Reproduce { start, end });
    assert_eq!(m.run(Reply::Run(Some(2))), Command::RestoreSim { step: start });
    assert_eq!(m.run(Reply::Done), Command::StartSolver);
    assert_eq!(m.run(Reply::Done), Command::InitAt { step: start });
    assert_eq!(m.run(Reply::Done), Command::PinStartState { step: start });
    let mut c = m.run(Reply::Done);
    while c == Command::Unroll {
        c = m.run(Reply::Done);
    }
    assert_eq!(c, Command::ConstrainTestbench { start, end });
    assert_eq!(m.run(Reply::Done), Command::Check);
    match a {
        None => m.run(unsat()),
        Some(a) => {
            assert_eq!(m.run(sat()), Command::CheckChangeCount { count: 1, step: start });
            assert_eq!(m.run(sat()), Command::ReadAssignment { step: start });
            assert_eq!(m.run(Reply::Assignment(a)), Command::EndAssuming);
            assert_eq!(m.run(Reply::Done), Command::FirstCandidate);
            assert_eq!(m.run(Reply::Done), Command::AssertChangeCount { count: 1, step: start });
            m.run(Reply::Done)
        },
    }
}

fn window(past_k: u64, future_k: u64, window_size: u64, offset: u64) -> Command {
    Command::BeginWindow { past_k, future_k, window_size, offset }
}

#[test]
fn windowing_goes_through_the_windows_that_fit() {
    // the testbench has 4 cycles and fails at cycle 2
    let c = WindowingConf { fail_at: 2, max_repair_window_size: 3 };
    let mut m = Windowing::new(c, 4, 2);
    assert_eq!(m.run(Reply::Start), window(0, 0, 1, 0));
    assert_eq!(study_minimal(&mut m, 2, 2, None), Command::EndWindow { tries: None });
    // size 2: one cycle back, then one cycle on
    assert_eq!(m.run(Reply::Done), window(1, 0, 2, 0));
    assert_eq!(
        study_minimal(&mut m, 1, 2, Some(assignment(&[true, false]))),
        Command::TestCandidate
    );
    assert_eq!(m.run(Reply::Run(Some(3))), Command::BlockCandidate { step: 1 });
    assert_eq!(m.run(Reply::Done), Command::Check);
    assert_eq!(m.run(sat()), Command::ReadAssignment { step: 1 });
    assert_eq!(m.run(Reply::Assignment(assignment(&[false, true]))), Command::TestCandidate);
    assert_eq!(m.run(Reply::Run(None)), Command::EndWindow { tries: Some(2) });
    assert_eq!(m.run(Reply::Done), window(0, 1, 2, 1));
    assert_eq!(
        study_minimal(&mut m, 2, 3, Some(assignment(&[true, true]))),
        Command::TestCandidate
    );
    assert_eq!(m.run(Reply::Run(Some(3))), Command::BlockCandidate { step: 2 });
    assert_eq!(m.run(Reply::Done), Command::Check);
    assert_eq!(m.run(unsat()), Command::EndWindow { tries: None });
    // size 3: two cycles back is a window from the first cycle on, two
    // cycles on does not fit
    assert_eq!(m.run(Reply::Done), window(2, 0, 3, 0));
    assert_eq!(study_minimal(&mut m, 0, 2, None), Command::EndWindow { tries: None });
    assert_eq!(m.run(Reply::Done), window(1, 1, 3, 1));
    assert_eq!(study_minimal(&mut m, 1, 3, None), Command::EndWindow { tries: None });
    assert_eq!(m.run(Reply::Done), Command::Finish);
    assert_eq!(m.phase, WindowingPhase::Ended(Ending::Success));
    let r = m.finish().unwrap();
    assert_eq!(r.status, RepairStatus::Success);
    assert_eq!(r.solutions.len(), 1);
    assert_eq!(r.solutions[0].change, vec![false, true]);
    assert_eq!(r.stats, Stats { final_past_k: 1, final_future_k: 0, solver_time: 0 });
}

#[test]
fn windowing_without_windows_or_repairs() {
    let mut m = Windowing::new(WindowingConf { fail_at: 2, max_repair_window_size: 0 }, 4, 2);
    assert_eq!(m.run(Reply::Start), Command::Finish);
    assert_eq!(m.phase, WindowingPhase::Ended(Ending::CannotRepair));
    let r = m.finish().unwrap();
    assert_eq!(r.status, RepairStatus::CannotRepair);
    assert_eq!(r.stats, Stats::default());
    // a failure at the first cycle: the windows that fit do not reach back
    let mut m = Windowing::new(WindowingConf { fail_at: 0, max_repair_window_size: 2 }, 4, 2);
    assert_eq!(m.run(Reply::Start), window(0, 0, 1, 0));
    assert_eq!(m.run(Reply::Done), Command::RestoreSim { step: 0 });
    assert_eq!(m.run(Reply::Done), Command::Reproduce { start: 0, end: 0 });
    assert!(!m.admits(&Reply::Run(None)));
    assert!(m.admits(&Reply::Run(Some(0))));
    assert_eq!(m.run(Reply::Run(Some(0))), Command::RestoreSim { step: 0 });
    // a failure in the last cycle: the windows that fit do not reach on
    let mut m = Windowing::new(WindowingConf { fail_at: 3, max_repair_window_size: 2 }, 4, 2);
    assert_eq!(m.run(Reply::Start), window(0, 0, 1, 0));
    // a failure that the testbench does not have: no window fits
    let mut m = Windowing::new(WindowingConf { fail_at: 4, max_repair_window_size: 2 }, 4, 2);
    assert_eq!(m.run(Reply::Start), Command::Finish);
    assert_eq!(m.phase, WindowingPhase::Ended(Ending::CannotRepair));
    let mut m = Windowing::new(WindowingConf { fail_at: 2, max_repair_window_size: 1 }, 4, 2);
    assert_eq!(m.run(Reply::Start), window(0, 0, 1, 0));
    assert_eq!(study_minimal(&mut m, 2, 2, None), Command::EndWindow { tries: None });
    assert_eq!(m.run(Reply::Done), Command::Finish);
    assert_eq!(m.phase, WindowingPhase::Ended(Ending::CannotRepair));
}

#[test]
fn filter_script_and_verdict() {
    assert_eq!(
        filter_commands(4),
        vec![
            Command::Push,
            Command::InitAt { step: 4 },
            Command::ConstrainTestbench { start: 4, end: 4 },
            Command::Check,
            Command::Pop,
        ]
    );
    assert_eq!(filter_commands(0)[FILTER_CHECK], Command::Check);
    assert!(can_be_repaired_from_arbitrary_state(Response::Sat));
    assert!(can_be_repaired_from_arbitrary_state(Response::Unknown));
    assert!(!can_be_repaired_from_arbitrary_state(Response::Unsat));
}

#[test]
fn run_decisions() {
    assert_eq!(after_first_run(None, 3, false), Verdict::NoRepair);
    assert_eq!(after_first_run(None, 0, false), Verdict::NoRepair);
    assert_eq!(after_first_run(Some(4), 0, false), Verdict::CannotRepair);
    assert_eq!(after_first_run(Some(4), 1, false), Verdict::Search { fail_at: 4 });
    assert_eq!(after_first_run(None, 3, true), Verdict::CannotRepair);
    assert_eq!(after_first_run(Some(0), 3, true), Verdict::CannotRepair);
    assert_eq!(strategy(false, false), Some(Strategy::Basic));
    assert_eq!(strategy(true, false), Some(Strategy::Incremental));
    assert_eq!(strategy(false, true), Some(Strategy::Windowing));
    assert_eq!(strategy(true, true), None);
    let p = init_plan(Init::Zero);
    assert_eq!((p.sim, p.testbench, p.warn), (InitKind::Zero, InitKind::Zero, false));
    let p = init_plan(Init::Random);
    assert_eq!((p.sim, p.testbench, p.warn), (InitKind::Random(0), InitKind::Random(1), false));
    let p = init_plan(Init::Any);
    assert_eq!((p.sim, p.testbench, p.warn), (InitKind::Random(0), InitKind::Random(1), true));
    assert_eq!(logic_for("z3", false), "ALL");
    assert_eq!(logic_for("z3", true), "ALL");
    assert_eq!(logic_for("bitwuzla", true), "QF_AUFBV");
    assert_eq!(logic_for("yices-smt2", false), "QF_ABV");
}

#[test]
fn reports() {
    assert_eq!(status_name(RepairStatus::CannotRepair), "cannot-repair");
    assert_eq!(status_name(RepairStatus::NoRepair), "no-repair");
    assert_eq!(status_name(RepairStatus::Success), "success");
    let r = no_repair();
    assert_eq!(r.status, RepairStatus::NoRepair);
    assert_eq!(r.solutions.len(), 0);
    assert_eq!(r.stats, Stats { final_past_k: 0, final_future_k: 0, solver_time: 0 });
    let r = cannot_repair();
    assert_eq!(r.status, RepairStatus::CannotRepair);
    assert_eq!(r.solutions.len(), 0);
}
