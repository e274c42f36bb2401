use libpatron::btor2;
use libpatron::ir::value::ValueRef;
use libpatron::ir::Context;
use libpatron::ir::ExprRef;
use libpatron::ir::GetNode;
use libpatron::ir::SignalKind;
use libpatron::ir::TransitionSystem;
use libpatron::ir::TypeCheck;
use libpatron::mc::Simulator;
use libpatron::sim::interpreter::Interpreter;
use num_bigint::BigUint;
use synth::basic::basic_repair;
use synth::basic::BasicRepair;
use synth::context::RepairContext;
use synth::context::SimOutcome;
use synth::filters::can_be_repaired_from_arbitrary_state;
use synth::filters::filter_commands;
use synth::incremental::Ending;
use synth::incremental::IncrementalConf;
use synth::incremental::IncrementalRepair;
use synth::protocol::Command;
use synth::protocol::Reply;
use synth::protocol::Response;
use synth::repair::ModelValue;
use synth::repair::RepairAssignment;
use synth::repair::RepairVars;
use synth::result::RepairResult;
use synth::result::RepairStatus;
use synth::result::Stats;
use synth::run::RunConfig;
use synth::run::StopAt;
use synth::session::init_plan;
use synth::session::Init;
use synth::session::InitKind;
use synth::session::Verdict;
use synth::sim::sim_holds_scalar;
use synth::sim::sim_takes_value;
use synth::snapshots::update_sim_state_to_step;
use synth::snapshots::SnapshotCache;
use synth::system::Signal;
use synth::system::StateInfo;
use synth::testbench::Testbench;
use synth::unrolling::unrolling;
use synth::unrolling::Unrolling;
use synth::windowing::Windowing;
use synth::windowing::WindowingConf;

/// out = a + 1 with the change, a + 2 without it
const ADDER: &str = "
1 sort bitvec 1
2 sort bitvec 8
3 input 2 a
4 state 1 __synth_change_0
5 next 1 4 4
6 one 2
7 constd 2 2
8 add 2 3 6
9 add 2 3 7
10 ite 2 4 8 9
11 output 10 out
";

/// out = a + 2, and nothing to change
const FIXED: &str = "
1 sort bitvec 1
2 sort bitvec 8
3 input 2 a
7 constd 2 2
9 add 2 3 7
11 output 9 out
";

/// a counter that counts by 1 with the change and by 2 without it; out = cnt + 1
const COUNTER: &str = "
1 sort bitvec 1
2 sort bitvec 4
3 state 1 __synth_change_0
4 next 1 3 3
5 state 2 cnt
6 one 2
7 constd 2 2
8 add 2 5 6
9 add 2 5 7
10 ite 2 3 8 9
11 next 2 5 10
12 output 8 out
13 input 2 a
14 state 1 __synth_change_1
15 next 1 14 14
";

/// two places: both must change for lo = a + 1 and hi = a
const TWO_SITES: &str = "
1 sort bitvec 1
2 sort bitvec 8
3 input 2 a
4 state 1 top.__synth_change_0
5 next 1 4 4
6 state 1 top.__synth_change_1
7 next 1 6 6
8 one 2
9 constd 2 2
10 add 2 3 8
11 add 2 3 9
12 ite 2 4 10 11
13 output 12 lo
14 ite 2 6 3 11
15 output 14 hi
";

/// the output is zero whatever the change variable says
const STUCK: &str = "
1 sort bitvec 1
2 sort bitvec 8
3 input 2 a
4 state 1 __synth_change_0
5 next 1 4 4
6 zero 2
7 ite 2 4 6 6
8 output 6 out
9 state 2 unused
10 next 2 9 9
";

/// either change makes out = a + 1 for a = 1; for other inputs the first
/// change gives a + 1 and the second a + 3
const EITHER: &str = "
1 sort bitvec 1
2 sort bitvec 8
3 input 2 a
4 state 1 __synth_change_0
5 next 1 4 4
6 state 1 __synth_change_1
7 next 1 6 6
8 one 2
9 constd 2 2
10 constd 2 3
11 add 2 3 8
12 add 2 3 9
13 add 2 3 10
14 eq 1 3 8
15 ite 2 14 11 13
16 ite 2 6 15 12
17 ite 2 4 11 16
18 output 17 out
";

/// out = a + k with the change, where k is free, and a + 2 without it
const OFFSET: &str = "
1 sort bitvec 1
2 sort bitvec 4
3 input 2 a
4 state 1 __synth_change_0
5 next 1 4 4
6 state 2 __synth_k
7 next 2 6 6
8 constd 2 2
9 add 2 3 6
10 add 2 3 8
11 ite 2 4 9 10
12 output 11 out
";

fn parse(text: &str) -> (Context, TransitionSystem) {
    let mut ctx = Context::default();
    let sys = btor2::parse_str(&mut ctx, text, Some("test")).unwrap();
    (ctx, sys)
}

fn signals_of(ctx: &Context, sys: &TransitionSystem) -> Vec<Signal> {
    // the signals that go by a name: every signal but the nodes without a label
    sys.get_signals(|s| !(s.kind == SignalKind::Node && s.labels.is_none()))
        .into_iter()
        .map(|(expr, info)| {
            Signal::named(
                expr,
                expr.get_symbol_name(ctx).map(|s| s.to_string()),
                info.name.map(|n| ctx.get(n).to_string()),
                expr.get_bv_type(ctx),
                info.is_input(),
                info.is_output(),
            )
        })
        .collect()
}

fn states_of(ctx: &Context, sys: &TransitionSystem) -> Vec<StateInfo> {
    sys.states()
        .map(|(_, s)| StateInfo {
            symbol: s.symbol,
            name: s.symbol.get_symbol_name(ctx).unwrap().to_string(),
            width: s.symbol.get_bv_type(ctx),
            has_init: s.init.is_some(),
        })
        .collect()
}

/// Stands in for the solver and the encoding: it tries every assignment to
/// the change variables, and every value of the states that are not pinned,
/// on a simulator of its own.
struct Brute<'a> {
    sim: Interpreter<'a>,
    tb: &'a Testbench,
    vars: &'a RepairVars,
    states: &'a [StateInfo],
    init_step: u64,
    unrolled: u64,
    range: Option<(u64, u64)>,
    pins: Vec<(ExprRef, u64)>,
    count: Option<u32>,
    blocked: Vec<Vec<bool>>,
    scopes: Vec<(usize, Option<u32>)>,
    model: Vec<bool>,
    checks: usize,
}

impl<'a> Brute<'a> {
    fn new(
        ctx: &'a Context,
        sys: &TransitionSystem,
        tb: &'a Testbench,
        vars: &'a RepairVars,
        states: &'a [StateInfo],
    ) -> Self {
        Brute {
            sim: Interpreter::new(ctx, sys),
            tb,
            vars,
            states,
            init_step: 0,
            unrolled: 0,
            range: None,
            pins: vec![],
            count: None,
            blocked: vec![],
            scopes: vec![],
            model: vec![],
            checks: 0,
        }
    }

    fn reset(&mut self) {
        self.init_step = 0;
        self.unrolled = 0;
        self.range = None;
        self.pins.clear();
        self.count = None;
        self.blocked.clear();
        self.scopes.clear();
    }

    fn passes(&mut self, bits: &[bool], free_states: &[(ExprRef, u32)], values: &[u64]) -> bool {
        for (e, v) in self.pins.iter() {
            self.sim.set(*e, ValueRef::new(&[*v], 8));
        }
        for ((e, _), v) in free_states.iter().zip(values.iter()) {
            self.sim.set(*e, ValueRef::new(&[*v], 8));
        }
        let a = RepairAssignment { change: bits.to_vec(), free: vec![] };
        self.vars.apply_to_sim(&mut self.sim, &a);
        let (start, end) = self.range.unwrap();
        assert_eq!(start, self.init_step);
        assert_eq!(end, self.init_step + self.unrolled);
        let conf = RunConfig { start, stop: StopAt::first_fail_or_step(end) };
        self.tb.run(&mut self.sim, &conf).is_success()
    }

    fn check(&mut self, assumed: Option<u32>) -> Response {
        self.checks += 1;
        let free_states: Vec<(ExprRef, u32)> = self
            .states
            .iter()
            .filter(|s| {
                !self.vars.is_repair_var(s.symbol) && !self.pins.iter().any(|(e, _)| *e == s.symbol)
            })
            .map(|s| (s.symbol, s.width.unwrap()))
            .collect();
        let k = self.vars.change.len();
        for i in 0..(1u32 << k) {
            let bits: Vec<bool> = (0..k).map(|j| (i >> j) & 1 == 1).collect();
            let ones = bits.iter().filter(|b| **b).count() as u32;
            if self.blocked.contains(&bits) {
                continue;
            }
            if self.count.map(|c| c != ones).unwrap_or(false) {
                continue;
            }
            if assumed.map(|c| c != ones).unwrap_or(false) {
                continue;
            }
            let mut values = vec![0u64; free_states.len()];
            loop {
                if self.passes(&bits, &free_states, &values) {
                    self.model = bits;
                    return Response::Sat;
                }
                // the next combination of values
                let mut pos = 0;
                while pos < values.len() {
                    values[pos] += 1;
                    if values[pos] < (1 << free_states[pos].1) {
                        break;
                    }
                    values[pos] = 0;
                    pos += 1;
                }
                if pos == values.len() {
                    break;
                }
            }
        }
        Response::Unsat
    }

    fn model_values(&self) -> Vec<ModelValue> {
        let mut out: Vec<ModelValue> = self
            .model
            .iter()
            .map(|b| ModelValue::Scalar(BigUint::from(*b as u8), 1))
            .collect();
        for (_, width) in self.vars.free.iter() {
            out.push(ModelValue::Scalar(BigUint::from(0u8), *width));
        }
        out
    }
}

trait Search {
    fn step(&mut self, reply: Reply) -> Command;
    fn current(&self) -> Option<RepairAssignment>;
}

impl Search for IncrementalRepair {
    fn step(&mut self, reply: Reply) -> Command {
        assert!(self.admits(&reply));
        self.run(reply)
    }
    fn current(&self) -> Option<RepairAssignment> {
        self.candidate().as_ref().map(|c| c.duplicate())
    }
}

impl Search for Windowing {
    fn step(&mut self, reply: Reply) -> Command {
        assert!(self.admits(&reply));
        self.run(reply)
    }
    fn current(&self) -> Option<RepairAssignment> {
        self.candidate().as_ref().map(|c| c.duplicate())
    }
}

impl Search for Unrolling {
    fn step(&mut self, reply: Reply) -> Command {
        assert!(self.admits(&reply));
        self.run(reply)
    }
    fn current(&self) -> Option<RepairAssignment> {
        self.candidate().as_ref().map(|c| c.duplicate())
    }
}

impl Search for BasicRepair {
    fn step(&mut self, reply: Reply) -> Command {
        assert!(self.admits(&reply));
        self.run(reply)
    }
    fn current(&self) -> Option<RepairAssignment> {
        None
    }
}

/// One system with its testbench, its simulator and what stands for the
/// solver.
struct Bench<'a> {
    rctx: RepairContext<'a>,
    vars: &'a RepairVars,
    brute: Brute<'a>,
    log: Vec<Command>,
}

impl<'a> Bench<'a> {
    /// Carries out one command, as the program around the library does.
    fn carry_out(&mut self, command: Command, candidate: &Option<RepairAssignment>) -> Reply {
        self.log.push(command);
        match self.rctx.perform(command, candidate) {
            SimOutcome::Reply(reply) => return reply,
            SimOutcome::Refused => panic!("refused: {:?}", command),
            SimOutcome::NotForSimulator => {},
        }
        match command {
            Command::StartSolver => self.brute.reset(),
            Command::Push => self.brute.scopes.push((self.brute.blocked.len(), self.brute.count)),
            Command::Pop => {
                let (blocked, count) = self.brute.scopes.pop().unwrap();
                self.brute.blocked.truncate(blocked);
                self.brute.count = count;
                self.brute.pins.clear();
                self.brute.range = None;
            },
            Command::InitAt { step } => {
                self.brute.init_step = step;
                self.brute.unrolled = 0;
                self.brute.pins.clear();
                self.brute.range = None;
            },
            Command::PinStartState { step } => {
                let pins = self.rctx.constrain_starting_state(step);
                self.brute.pins = pins
                    .into_iter()
                    .map(|c| {
                        assert_eq!(c.step, step);
                        (c.expr, u64::from_str_radix(&c.bits, 2).unwrap())
                    })
                    .collect();
            },
            Command::Unroll => self.brute.unrolled += 1,
            Command::ConstrainTestbench { start, end } => {
                assert!(end < self.rctx.tb().step_count());
                self.brute.range = Some((start, end));
            },
            Command::Check => return Reply::Response(self.brute.check(None)),
            Command::CheckChangeCount { count, step } => {
                assert_eq!(step, self.brute.init_step);
                return Reply::Response(self.brute.check(Some(count)));
            },
            Command::EndAssuming => {},
            Command::AssertChangeCount { count, step } => {
                assert_eq!(step, self.brute.init_step);
                self.brute.count = Some(count);
            },
            Command::ReadAssignment { .. } => {
                let values = self.brute.model_values();
                return Reply::Assignment(self.vars.read_assignment(&values).unwrap());
            },
            Command::BlockCandidate { .. } => {
                let literals = self.vars.block_assignment(candidate.as_ref().unwrap());
                self.brute.blocked.push(literals.iter().map(|l| l.positive).collect());
            },
            Command::BeginWindow { .. } | Command::FirstCandidate | Command::EndWindow { .. } => {},
            Command::BeginUnrolling { .. } | Command::EndUnrolling { .. } => {},
            _ => panic!("unexpected command {:?}", command),
        }
        Reply::Done
    }

    fn drive(&mut self, search: &mut dyn Search) {
        let mut reply = Reply::Start;
        for _ in 0..100000 {
            let command = search.step(reply);
            if command == Command::Finish {
                self.log.push(command);
                return;
            }
            let candidate = search.current();
            reply = self.carry_out(command, &candidate);
        }
        panic!("the search does not end");
    }

    fn filter(&mut self, fail_at: u64) -> bool {
        let mut response = None;
        for command in filter_commands(fail_at) {
            if let Reply::Response(r) = self.carry_out(command, &None) {
                response = Some(r);
            }
        }
        can_be_repaired_from_arbitrary_state(response.unwrap())
    }

}

/// The values of `signal` over the whole testbench, with a repair.
fn observe(p: &Prepared, signal: ExprRef, repair: &RepairAssignment) -> Vec<u64> {
    let mut seen = vec![];
    for step in 0..p.tb.step_count() {
        let mut sim = Interpreter::new(&p.ctx, &p.sys);
        sim.init(libpatron::sim::interpreter::InitKind::Zero);
        p.vars.apply_to_sim(&mut sim, repair);
        let conf = RunConfig { start: 0, stop: StopAt::step(step) };
        p.tb.run(&mut sim, &conf);
        seen.push(sim.get(signal).unwrap().words()[0]);
    }
    seen
}

struct Prepared {
    ctx: Context,
    sys: TransitionSystem,
    file: String,
    tb: Testbench,
    vars: RepairVars,
    states: Vec<StateInfo>,
    signals: Vec<Signal>,
}

fn prepare(design: &str, testbench: &str) -> Prepared {
    let (ctx, sys) = parse(design);
    let signals = signals_of(&ctx, &sys);
    let states = states_of(&ctx, &sys);
    let vars = RepairVars::from_sys(&states).unwrap();
    let mut tb = Testbench::load(&signals, testbench.as_bytes()).unwrap();
    tb.define_inputs(InitKind::Zero);
    Prepared { ctx, sys, file: testbench.to_string(), tb, vars, states, signals }
}

fn signal_named(p: &Prepared, name: &str) -> ExprRef {
    p.signals.iter().find(|s| s.name == name).unwrap().expr
}

/// Starts the simulator, runs the testbench once, and says what to do.
fn start<'a>(p: &'a Prepared) -> (Bench<'a>, Verdict) {
    let sim = Interpreter::new(&p.ctx, &p.sys);
    let tb = Testbench::load(&p.signals, p.file.as_bytes()).unwrap();
    let vars = RepairVars::from_sys(&p.states).unwrap();
    let states = states_of(&p.ctx, &p.sys);
    let mut rctx = match RepairContext::new(sim, tb, vars, states, &init_plan(Init::Zero)) {
        Ok(rctx) => rctx,
        Err(e) => panic!("{:?}", e),
    };
    let verdict = rctx.diagnose();
    let brute = Brute::new(&p.ctx, &p.sys, &p.tb, &p.vars, &p.states);
    let bench = Bench { rctx, vars: &p.vars, brute, log: vec![] };
    (bench, verdict)
}

fn incremental_conf(fail_at: u64) -> IncrementalConf {
    IncrementalConf {
        fail_at,
        pask_k_step_size: 2,
        max_repair_window_size: 32,
        max_solutions: 1,
        max_incorrect_solutions_per_window_size: None,
    }
}

fn count(log: &[Command], what: Command) -> usize {
    log.iter().filter(|c| **c == what).count()
}

fn resimulates(bench: &mut Bench, result: &RepairResult) {
    for solution in result.solutions.iter() {
        match bench.rctx.perform(Command::TestCandidate, &Some(solution.duplicate())) {
            SimOutcome::Reply(Reply::Run(first_fail_at)) => assert_eq!(first_fail_at, None),
            _ => panic!("the repair was not tried"),
        }
    }
}

#[test]
fn no_bug_needs_no_repair() {
    // the testbench expects what the unchanged system does
    let p = prepare(ADDER, "a, out\n1, 3\n2, 4\n250, 252\n255, 1\n");
    let (_, verdict) = start(&p);
    assert_eq!(verdict, Verdict::NoRepair);
}

#[test]
fn no_change_variables_cannot_repair() {
    let p = prepare(FIXED, "a, out\n1, 2\n2, 3\n");
    assert_eq!(p.vars.change.len(), 0);
    let (_, verdict) = start(&p);
    assert_eq!(verdict, Verdict::CannotRepair);
}

#[test]
fn all_x_testbench_needs_no_repair() {
    let p = prepare(ADDER, "a, out\nx, x\nx, X\nX, x\n");
    assert_eq!(p.tb.step_count(), 3);
    let (_, verdict) = start(&p);
    assert_eq!(verdict, Verdict::NoRepair);
    // also with values for the inputs, as long as nothing is expected
    let p = prepare(ADDER, "a, out\n1, x\n2, X\n");
    let (_, verdict) = start(&p);
    assert_eq!(verdict, Verdict::NoRepair);
}

#[test]
fn testbench_without_outputs_cannot_tell() {
    let p = prepare(ADDER, "a\n1\n2\n");
    let (_, verdict) = start(&p);
    assert_eq!(verdict, Verdict::CannotRepair);
}

#[test]
fn run_finds_first_failure_and_honours_x() {
    let p = prepare(ADDER, "a, out\n1, 3\n2, x\n3, 4\n4, 6\n5, 0\n");
    let (mut bench, verdict) = start(&p);
    // cycle 1 expects nothing; cycle 2 expects 4 and the system shows 5
    assert_eq!(verdict, Verdict::Search { fail_at: 2 });
    let run = |start: u64, stop: StopAt| {
        let mut sim = Interpreter::new(&p.ctx, &p.sys);
        sim.init(libpatron::sim::interpreter::InitKind::Zero);
        p.tb.run(&mut sim, &RunConfig { start, stop }).first_fail_at
    };
    assert_eq!(run(0, StopAt::first_fail()), Some(2));
    assert_eq!(run(0, StopAt::end()), Some(2));
    assert_eq!(run(0, StopAt::step(1)), None);
    assert_eq!(run(0, StopAt::first_fail_or_step(2)), Some(2));
    assert_eq!(run(3, StopAt::end()), Some(4));
    assert_eq!(run(3, StopAt::step(3)), None);
    // the same over windows of the testbench, from the snapshots
    let mut window = |start: u64, end: u64| {
        assert!(matches!(
            bench.rctx.perform(Command::RestoreSim { step: start }, &None),
            SimOutcome::Reply(Reply::Done)
        ));
        match bench.rctx.perform(Command::Reproduce { start, end }, &None) {
            SimOutcome::Reply(Reply::Run(first_fail_at)) => first_fail_at,
            _ => panic!("the testbench was not run"),
        }
    };
    assert_eq!(window(0, 4), Some(2));
    assert_eq!(window(0, 1), None);
    assert_eq!(window(2, 2), Some(2));
    assert_eq!(window(3, 3), None);
    assert_eq!(window(3, 4), Some(4));
    assert_eq!(window(1, 4), Some(2));
}

#[test]
fn basic_repair_of_adder() {
    let p = prepare(ADDER, "a, out\n1, 2\n2, 3\n250, 251\n255, 0\n");
    let (mut bench, verdict) = start(&p);
    assert_eq!(verdict, Verdict::Search { fail_at: 0 });
    assert!(bench.filter(0));
    let mut search = basic_repair(p.tb.step_count(), p.vars.change.len() as u32);
    bench.drive(&mut search);
    assert_eq!(search.ending(), Some(Ending::Success));
    let result = search.finish().unwrap();
    assert_eq!(result.status, RepairStatus::Success);
    assert_eq!(result.solutions.len(), 1);
    assert_eq!(result.solutions[0].change, vec![true]);
    assert_eq!(result.solutions[0].change_count(), 1);
    assert_eq!(p.vars.get_change_names(&result.solutions[0]), vec!["__synth_change_0"]);
    resimulates(&mut bench, &result);
    // the repaired system shows what the testbench expects
    let out = signal_named(&p, "out");
    assert_eq!(observe(&p, out, &result.solutions[0]), vec![2, 3, 251, 0]);
}

#[test]
fn basic_repair_needs_both_changes() {
    let p = prepare(TWO_SITES, "a, lo, hi\n1, 2, 1\n7, 8, 7\n");
    let (mut bench, verdict) = start(&p);
    assert_eq!(verdict, Verdict::Search { fail_at: 0 });
    assert!(bench.filter(0));
    let mut search = basic_repair(p.tb.step_count(), p.vars.change.len() as u32);
    bench.drive(&mut search);
    let result = search.finish().unwrap();
    assert_eq!(result.status, RepairStatus::Success);
    assert_eq!(result.solutions.len(), 1);
    assert_eq!(result.solutions[0].change, vec![true, true]);
    assert_eq!(result.solutions[0].change_count(), 2);
    // one change was tried and refuted before two changes were tried
    assert_eq!(count(&bench.log, Command::CheckChangeCount { count: 1, step: 0 }), 1);
    assert_eq!(count(&bench.log, Command::CheckChangeCount { count: 2, step: 0 }), 1);
    resimulates(&mut bench, &result);
    let report: Vec<(String, String)> =
        p.vars.to_json(&result.solutions[0]).into_iter().map(|e| (e.name, e.number)).collect();
    assert_eq!(
        report,
        vec![
            ("top.__synth_change_0".to_string(), "1".to_string()),
            ("top.__synth_change_1".to_string(), "1".to_string()),
        ]
    );
}

#[test]
fn basic_repair_with_one_of_two_sites() {
    // only `lo` is wrong: one change is enough
    let p = prepare(TWO_SITES, "a, lo, hi\n1, 2, 3\n7, 8, 9\n");
    let (mut bench, verdict) = start(&p);
    assert_eq!(verdict, Verdict::Search { fail_at: 0 });
    let mut search = basic_repair(p.tb.step_count(), p.vars.change.len() as u32);
    bench.drive(&mut search);
    let result = search.finish().unwrap();
    assert_eq!(result.solutions[0].change, vec![true, false]);
    assert_eq!(count(&bench.log, Command::CheckChangeCount { count: 2, step: 0 }), 0);
    resimulates(&mut bench, &result);
}

#[test]
fn filter_cuts_off_hopeless_system() {
    let p = prepare(STUCK, "a, out\n1, 0\n2, 5\n3, 0\n");
    let (mut bench, verdict) = start(&p);
    assert_eq!(verdict, Verdict::Search { fail_at: 1 });
    assert!(!bench.filter(1));
    // nothing was unrolled for the filter, and its scope is closed
    assert_eq!(count(&bench.log, Command::Unroll), 0);
    assert_eq!(bench.log.first(), Some(&Command::Push));
    assert_eq!(bench.log.last(), Some(&Command::Pop));
    assert_eq!(bench.brute.scopes.len(), 0);
    // and the full search agrees with the filter
    let mut search = basic_repair(p.tb.step_count(), p.vars.change.len() as u32);
    bench.drive(&mut search);
    let result = search.finish().unwrap();
    assert_eq!(result.status, RepairStatus::CannotRepair);
    assert_eq!(result.solutions.len(), 0);
}

#[test]
fn incremental_repair_of_adder() {
    let p = prepare(ADDER, "a, out\n1, 3\n2, 4\n3, 4\n4, 5\n");
    // the first two cycles pass only without the change, the last two only with it
    let (mut bench, verdict) = start(&p);
    assert_eq!(verdict, Verdict::Search { fail_at: 2 });
    assert!(bench.filter(2));
    let mut search =
        IncrementalRepair::new(incremental_conf(2), p.tb.step_count(), p.vars.change.len() as u32)
            .unwrap();
    bench.drive(&mut search);
    let result = search.finish().unwrap();
    // every window finds the change, and every time it fails at the first cycle
    assert_eq!(result.status, RepairStatus::CannotRepair);
    assert_eq!(result.solutions.len(), 0);
    assert_eq!(result.stats, Stats { final_past_k: 2, final_future_k: 0, solver_time: 0 });
    assert_eq!(count(&bench.log, Command::Push), count(&bench.log, Command::Pop));
}

#[test]
fn incremental_repair_of_counter_needs_the_past() {
    let p = prepare(COUNTER, "a, out\n0, 1\n0, 2\n0, 3\n0, 4\n0, 5\n");
    let (mut bench, verdict) = start(&p);
    // the counter is at 2 in cycle 1, where 1 is expected
    assert_eq!(verdict, Verdict::Search { fail_at: 1 });
    let mut search =
        IncrementalRepair::new(incremental_conf(1), p.tb.step_count(), p.vars.change.len() as u32)
            .unwrap();
    bench.drive(&mut search);
    let result = search.finish().unwrap();
    assert_eq!(result.status, RepairStatus::Success);
    assert_eq!(result.solutions.len(), 1);
    assert_eq!(result.solutions[0].change, vec![true, false]);
    // the window of the failing cycle alone has no repair: the counter is
    // wrong already; one cycle back it has
    assert_eq!(result.stats, Stats { final_past_k: 1, final_future_k: 0, solver_time: 0 });
    assert_eq!(count(&bench.log, Command::Push), 2);
    assert_eq!(count(&bench.log, Command::Pop), 2);
    assert_eq!(count(&bench.log, Command::InitAt { step: 1 }), 1);
    assert_eq!(count(&bench.log, Command::InitAt { step: 0 }), 1);
    assert_eq!(count(&bench.log, Command::Unroll), 1);
    resimulates(&mut bench, &result);
    let out = signal_named(&p, "out");
    assert_eq!(observe(&p, out, &result.solutions[0]), vec![1, 2, 3, 4, 5]);
}

#[test]
fn incremental_enumeration_never_repeats_a_candidate() {
    // cycle 0 can be repaired by either change, cycle 1 by none of the two
    let p = prepare(EITHER, "a, out\n1, 2\n5, 7\n");
    let (mut bench, verdict) = start(&p);
    assert_eq!(verdict, Verdict::Search { fail_at: 0 });
    let mut search =
        IncrementalRepair::new(incremental_conf(0), p.tb.step_count(), p.vars.change.len() as u32)
            .unwrap();
    // every candidate that is tried, window by window
    let mut tried: Vec<Vec<Vec<bool>>> = vec![vec![]];
    let mut reply = Reply::Start;
    loop {
        let command = search.run(reply);
        if command == Command::Finish {
            break;
        }
        let candidate = search.candidate().as_ref().map(|c| c.duplicate());
        if command == Command::TestCandidate {
            tried.last_mut().unwrap().push(candidate.as_ref().unwrap().change.clone());
        }
        if command == Command::Pop {
            tried.push(vec![]);
        }
        reply = bench.carry_out(command, &candidate);
    }
    let result = search.finish().unwrap();
    assert_eq!(result.status, RepairStatus::CannotRepair);
    assert_eq!(result.stats, Stats { final_past_k: 0, final_future_k: 1, solver_time: 0 });
    // the window of cycle 0 alone: both candidates with one change, each
    // once; the window of both cycles has no repair
    assert_eq!(tried, vec![vec![vec![true, false], vec![false, true]], vec![], vec![]]);
    for window in tried.iter() {
        for (i, a) in window.iter().enumerate() {
            assert!(!window[..i].contains(a));
        }
    }
    assert_eq!(count(&bench.log, Command::BlockCandidate { step: 0 }), 2);
    assert_eq!(count(&bench.log, Command::Push), count(&bench.log, Command::Pop));
}

#[test]
fn windowing_study_of_counter() {
    let p = prepare(COUNTER, "a, out\n0, 1\n0, 2\n0, 3\n0, 4\n0, 5\n");
    let (mut bench, verdict) = start(&p);
    assert_eq!(verdict, Verdict::Search { fail_at: 1 });
    let mut search = Windowing::new(
        WindowingConf { fail_at: 1, max_repair_window_size: 3 },
        p.tb.step_count(),
        p.vars.change.len() as u32,
    );
    bench.drive(&mut search);
    let windows: Vec<Command> = bench
        .log
        .iter()
        .filter(|c| matches!(c, Command::BeginWindow { .. } | Command::EndWindow { .. }))
        .cloned()
        .collect();
    // only the windows that reach back to the first cycle, where the
    // counter is still right, hold a repair
    assert_eq!(
        windows,
        vec![
            Command::BeginWindow { past_k: 0, future_k: 0, window_size: 1, offset: 0 },
            Command::EndWindow { tries: None },
            Command::BeginWindow { past_k: 1, future_k: 0, window_size: 2, offset: 0 },
            Command::EndWindow { tries: Some(1) },
            Command::BeginWindow { past_k: 0, future_k: 1, window_size: 2, offset: 1 },
            Command::EndWindow { tries: None },
            Command::BeginWindow { past_k: 1, future_k: 1, window_size: 3, offset: 1 },
            Command::EndWindow { tries: Some(1) },
            Command::BeginWindow { past_k: 0, future_k: 2, window_size: 3, offset: 2 },
            Command::EndWindow { tries: None },
        ]
    );
    assert_eq!(count(&bench.log, Command::StartSolver), 5);
    let result = search.finish().unwrap();
    assert_eq!(result.status, RepairStatus::Success);
    assert_eq!(result.solutions.len(), 1);
    // the last window with a correct repair
    assert_eq!(result.stats, Stats { final_past_k: 1, final_future_k: 1, solver_time: 0 });
    resimulates(&mut bench, &result);
}

#[test]
fn windowing_study_finds_a_repair() {
    // the first cycle expects nothing, so the failure is in cycle 1 and a
    // window of cycle 1 alone can repair it
    let p = prepare(ADDER, "a, out\n1, x\n2, 3\n3, 4\n");
    let (mut bench, verdict) = start(&p);
    assert_eq!(verdict, Verdict::Search { fail_at: 1 });
    let mut search = Windowing::new(
        WindowingConf { fail_at: 1, max_repair_window_size: 2 },
        p.tb.step_count(),
        p.vars.change.len() as u32,
    );
    bench.drive(&mut search);
    let windows: Vec<Command> = bench
        .log
        .iter()
        .filter(|c| matches!(c, Command::BeginWindow { .. } | Command::EndWindow { .. }))
        .cloned()
        .collect();
    assert_eq!(
        windows,
        vec![
            Command::BeginWindow { past_k: 0, future_k: 0, window_size: 1, offset: 0 },
            Command::EndWindow { tries: Some(1) },
            Command::BeginWindow { past_k: 1, future_k: 0, window_size: 2, offset: 0 },
            Command::EndWindow { tries: Some(1) },
            Command::BeginWindow { past_k: 0, future_k: 1, window_size: 2, offset: 1 },
            Command::EndWindow { tries: Some(1) },
        ]
    );
    assert_eq!(count(&bench.log, Command::FirstCandidate), 3);
    let result = search.finish().unwrap();
    assert_eq!(result.status, RepairStatus::Success);
    assert_eq!(result.solutions.len(), 1);
    assert_eq!(result.solutions[0].change, vec![true]);
    // the last window with a correct repair
    assert_eq!(result.stats, Stats { final_past_k: 0, final_future_k: 1, solver_time: 0 });
    resimulates(&mut bench, &result);
}

#[test]
fn snapshots_give_the_state_of_a_run_from_the_start() {
    let p = prepare(COUNTER, "a, out\n0, x\n0, x\n0, x\n0, x\n0, x\n0, x\n");
    let cnt = signal_named(&p, "cnt");
    // the state at each cycle in a run without snapshots
    let mut expected = vec![];
    for step in 0..p.tb.step_count() {
        let mut sim = Interpreter::new(&p.ctx, &p.sys);
        sim.init(libpatron::sim::interpreter::InitKind::Zero);
        p.vars.clear_in_sim(&mut sim);
        p.tb.run(&mut sim, &RunConfig { start: 0, stop: StopAt::step(step) });
        expected.push(sim.get(cnt).unwrap().words()[0]);
    }
    assert_eq!(expected, vec![0, 2, 4, 6, 8, 10]);
    // the same cycles in an order that makes the cache use its snapshots
    let mut sim = Interpreter::new(&p.ctx, &p.sys);
    sim.init(libpatron::sim::interpreter::InitKind::Zero);
    p.vars.clear_in_sim(&mut sim);
    let start_state = sim.take_snapshot();
    let mut cache = SnapshotCache::new(start_state);
    assert_eq!(cache.get(0), Some(start_state));
    assert_eq!(cache.get(3), None);
    for step in [3u64, 1, 5, 4, 3, 0, 2, 5, 1] {
        update_sim_state_to_step(&mut cache, &mut sim, &p.tb, step);
        assert_eq!(sim.get(cnt).unwrap().words()[0], expected[step as usize], "cycle {}", step);
        assert!(cache.get(step).is_some());
    }
    assert_eq!(cache.nearest_before(5), (4, cache.get(4).unwrap()));
    assert_eq!(cache.nearest_before(1), (0, start_state));
}

#[test]
fn simulator_holds_the_signals_of_the_system() {
    let p = prepare(COUNTER, "a, out\n0, 1\n");
    let sim = Interpreter::new(&p.ctx, &p.sys);
    let cnt = signal_named(&p, "cnt");
    assert!(sim_holds_scalar(&sim, cnt));
    assert!(sim_takes_value(&sim, cnt, 1));
    assert!(!sim_takes_value(&sim, cnt, 2));
    // the simulator knows nothing of an expression that is no signal
    let stranger = ExprRef::from_index(1000);
    assert!(!sim_holds_scalar(&sim, stranger));
    assert!(sim_takes_value(&sim, stranger, 3));
    assert!(sim.get(stranger).is_none());
}

#[test]
fn commands_out_of_range_are_refused() {
    let p = prepare(ADDER, "a, out\n1, 2\n2, 3\n");
    let (mut bench, _) = start(&p);
    let mut refused = |command: Command, candidate: Option<RepairAssignment>| {
        matches!(bench.rctx.perform(command, &candidate), SimOutcome::Refused)
    };
    assert!(refused(Command::RestoreSim { step: 2 }, None));
    assert!(refused(Command::Reproduce { start: 1, end: 2 }, None));
    assert!(refused(Command::Reproduce { start: 1, end: 0 }, None));
    assert!(refused(Command::TestCandidate, None));
    assert!(!refused(Command::RestoreSim { step: 1 }, None));
    assert!(!refused(Command::Reproduce { start: 0, end: 1 }, None));
    assert!(matches!(bench.rctx.perform(Command::Check, &None), SimOutcome::NotForSimulator));
}

#[test]
fn context_refuses_what_does_not_go_together() {
    let p = prepare(ADDER, "a, out\n1, 2\n");
    // the simulator of another system knows nothing of the outputs of this one
    let (other_ctx, other_sys) = parse(COUNTER);
    let plan = init_plan(Init::Zero);
    let tb = Testbench::load(&p.signals, p.file.as_bytes()).unwrap();
    let vars = RepairVars::from_sys(&p.states).unwrap();
    let sim = Interpreter::new(&other_ctx, &other_sys);
    let stranger = vec![Signal {
        expr: ExprRef::from_index(500),
        name: "out".to_string(),
        alias: None,
        width: Some(8),
        is_input: false,
        is_output: true,
    }];
    let lost = Testbench::load(&stranger, b"out\n1\n").unwrap();
    assert_eq!(
        RepairContext::new(sim, lost, vars, vec![], &plan).err(),
        Some(synth::context::ContextError::Testbench)
    );
    // a registry whose lists do not go together
    let mut vars = RepairVars::from_sys(&p.states).unwrap();
    vars.change_names.clear();
    let sim = Interpreter::new(&p.ctx, &p.sys);
    assert_eq!(
        RepairContext::new(sim, tb, vars, vec![], &plan).err(),
        Some(synth::context::ContextError::Registry)
    );
    // a repair variable that is wider in the registry than in the simulator
    let tb = Testbench::load(&p.signals, p.file.as_bytes()).unwrap();
    let mut wide = states_of(&p.ctx, &p.sys);
    wide[0].name = "__synth_wide".to_string();
    wide[0].width = Some(65);
    let vars = RepairVars::from_sys(&wide).unwrap();
    let sim = Interpreter::new(&p.ctx, &p.sys);
    assert_eq!(
        RepairContext::new(sim, tb, vars, vec![], &plan).err(),
        Some(synth::context::ContextError::RepairVariables)
    );
    // a state that is wider than the simulator holds it
    let tb = Testbench::load(&p.signals, p.file.as_bytes()).unwrap();
    let (cctx, csys) = parse(COUNTER);
    let mut states = states_of(&cctx, &csys);
    let cnt = states.iter().position(|s| s.name == "cnt").unwrap();
    states[cnt].width = Some(70);
    let vars = RepairVars::from_sys(&states).unwrap();
    let csignals = signals_of(&cctx, &csys);
    let ctb = Testbench::load(&csignals, b"a, out\n0, 1\n").unwrap();
    let sim = Interpreter::new(&cctx, &csys);
    assert_eq!(
        RepairContext::new(sim, ctb, vars, states, &plan).err(),
        Some(synth::context::ContextError::States)
    );
    drop(tb);
}

#[test]
fn change_count_is_the_number_of_asserted_changes() {
    for (design, changes) in [(FIXED, 0usize), (ADDER, 1), (TWO_SITES, 2), (COUNTER, 2)] {
        let (mut ctx, mut sys) = parse(design);
        let states = states_of(&ctx, &sys);
        let vars = RepairVars::from_sys(&states).unwrap();
        assert_eq!(vars.change.len(), changes);
        let sum = synth::count::add_change_count(&mut ctx, &mut sys, &vars.change);
        assert_eq!(sum.get_bv_type(&ctx), Some(16));
        // the count is an output of the system, and no testbench asks for it
        let signals = signals_of(&ctx, &sys);
        let count = signals.iter().find(|s| s.name == "__change_count").unwrap();
        assert!(count.is_output);
        assert_eq!(count.expr, sum);
        let tb = Testbench::load(&signals, b"a\n1\n").unwrap();
        assert!(tb.ios().iter().all(|io| io.name != "__change_count"));
        let mut sim = Interpreter::new(&ctx, &sys);
        sim.init(libpatron::sim::interpreter::InitKind::Zero);
        for i in 0..(1u32 << changes) {
            let bits: Vec<bool> = (0..changes).map(|j| (i >> j) & 1 == 1).collect();
            let a = RepairAssignment { change: bits.clone(), free: vec![] };
            vars.apply_to_sim(&mut sim, &a);
            sim.update();
            assert_eq!(sim.get(sum).unwrap().words()[0], a.change_count() as u64);
            assert_eq!(a.change_count() as u32, i.count_ones());
        }
    }
}

#[test]
fn unrolling_study_of_counter() {
    // with the change the counter is right up to cycle 2; nothing is right after it
    let p = prepare(COUNTER, "a, out\n0, 1\n0, 2\n0, 3\n0, 9\n");
    let (mut bench, verdict) = start(&p);
    assert_eq!(verdict, Verdict::Search { fail_at: 1 });
    let mut search = unrolling(1, p.tb.step_count(), p.vars.change.len() as u32);
    bench.drive(&mut search);
    let rounds: Vec<Command> = bench
        .log
        .iter()
        .filter(|c| matches!(c, Command::BeginUnrolling { .. } | Command::EndUnrolling { .. }))
        .cloned()
        .collect();
    assert_eq!(
        rounds,
        vec![
            Command::BeginUnrolling { end_step: 1 },
            Command::EndUnrolling { min_repair_size: Some(1), first_fail_at: Some(3) },
            Command::BeginUnrolling { end_step: 2 },
            Command::EndUnrolling { min_repair_size: Some(1), first_fail_at: Some(3) },
            Command::BeginUnrolling { end_step: 3 },
            Command::EndUnrolling { min_repair_size: None, first_fail_at: None },
        ]
    );
    assert_eq!(count(&bench.log, Command::StartSolver), 3);
    assert_eq!(count(&bench.log, Command::Unroll), 1 + 2 + 3);
    // the round over the whole testbench decides
    let result = search.finish().unwrap();
    assert_eq!(result.status, RepairStatus::CannotRepair);
}

#[test]
fn unrolling_study_ends_with_the_repair_of_the_last_round() {
    let p = prepare(COUNTER, "a, out\n0, 1\n0, 2\n0, 3\n");
    let (mut bench, _) = start(&p);
    let mut search = unrolling(1, p.tb.step_count(), p.vars.change.len() as u32);
    bench.drive(&mut search);
    let result = search.finish().unwrap();
    assert_eq!(result.status, RepairStatus::Success);
    assert_eq!(result.solutions.len(), 1);
    assert_eq!(result.solutions[0].change, vec![true, false]);
    assert_eq!(result.stats, Stats { final_past_k: 0, final_future_k: 0, solver_time: 0 });
    resimulates(&mut bench, &result);
    // a failure beyond the testbench leaves nothing to study
    let mut none = unrolling(3, 3, 2);
    assert_eq!(none.run(Reply::Start), Command::Finish);
    assert_eq!(none.finish().unwrap().status, RepairStatus::CannotRepair);
}

#[test]
fn repair_variables_are_written_and_cleared() {
    let p = prepare(OFFSET, "a, out\n1, 4\n");
    assert_eq!(p.vars.change.len(), 1);
    assert_eq!(p.vars.free.len(), 1);
    assert_eq!(p.vars.free[0].1, 4);
    let mut sim = Interpreter::new(&p.ctx, &p.sys);
    assert!(p.vars.fits_simulator(&sim));
    sim.init(libpatron::sim::interpreter::InitKind::Zero);
    let change = p.vars.change[0];
    let k = p.vars.free[0].0;
    // 0x13 does not fit the 4 bits of k
    let a = RepairAssignment { change: vec![true], free: vec![BigUint::from(0x13u8)] };
    p.vars.apply_to_sim(&mut sim, &a);
    assert_eq!(sim.get(change).unwrap().words(), &[1]);
    assert_eq!(sim.get(k).unwrap().words(), &[3]);
    // with k = 3 the system shows a + 3
    let res = p.tb.run(&mut sim, &RunConfig { start: 0, stop: StopAt::first_fail() });
    assert!(res.is_success());
    p.vars.clear_in_sim(&mut sim);
    assert_eq!(sim.get(change).unwrap().words(), &[0]);
    assert_eq!(sim.get(k).unwrap().words(), &[0]);
    let res = p.tb.run(&mut sim, &RunConfig { start: 0, stop: StopAt::first_fail() });
    assert_eq!(res.first_fail_at, Some(0));
    // the report of the assignment
    let report: Vec<(String, String)> =
        p.vars.to_json(&a).into_iter().map(|e| (e.name, e.number)).collect();
    assert_eq!(
        report,
        vec![
            ("__synth_change_0".to_string(), "1".to_string()),
            ("__synth_k".to_string(), "19".to_string()),
        ]
    );
}

#[test]
fn change_count_is_built_from_left_to_right() {
    // without a change variable: the number zero in 16 bits
    let (mut ctx, mut sys) = parse(FIXED);
    let sum = synth::count::add_change_count(&mut ctx, &mut sys, &[]);
    assert_eq!(ctx.get(sum), &libpatron::ir::Expr::BVLiteral { value: 0, width: 16 });
    // with one: the variable with 15 zeros in front of it
    let (mut ctx, mut sys) = parse(ADDER);
    let vars = RepairVars::from_sys(&states_of(&ctx, &sys)).unwrap();
    let sum = synth::count::add_change_count(&mut ctx, &mut sys, &vars.change);
    let first = libpatron::ir::Expr::BVZeroExt { e: vars.change[0], by: 15, width: 16 };
    assert_eq!(ctx.get(sum), &first);
    // with two: the sum of both, each with zeros in front of it
    let (mut ctx, mut sys) = parse(TWO_SITES);
    let vars = RepairVars::from_sys(&states_of(&ctx, &sys)).unwrap();
    let sum = synth::count::add_change_count(&mut ctx, &mut sys, &vars.change);
    match ctx.get(sum).clone() {
        libpatron::ir::Expr::BVAdd(a, b, 16) => {
            let front = libpatron::ir::Expr::BVZeroExt { e: vars.change[0], by: 15, width: 16 };
            let back = libpatron::ir::Expr::BVZeroExt { e: vars.change[1], by: 15, width: 16 };
            assert_eq!(ctx.get(a), &front);
            assert_eq!(ctx.get(b), &back);
        },
        other => panic!("no sum: {:?}", other),
    }
}

#[test]
fn change_count_is_added_for_single_bits_only() {
    let (mut ctx, mut sys) = parse(ADDER);
    let signals = signals_of(&ctx, &sys);
    let a = signals.iter().find(|s| s.name == "a").unwrap().expr;
    let vars = RepairVars::from_sys(&states_of(&ctx, &sys)).unwrap();
    // `a` has 8 bits: nothing is added
    let mixed = vec![vars.change[0], a];
    assert_eq!(synth::count::add_change_count_of_bits(&mut ctx, &mut sys, &mixed), None);
    assert_eq!(signals_of(&ctx, &sys).len(), signals.len());
    assert!(signals_of(&ctx, &sys).iter().all(|s| s.name != "__change_count"));
    // the change variables are single bits
    let sum = synth::count::add_change_count_of_bits(&mut ctx, &mut sys, &vars.change).unwrap();
    assert_eq!(sum.get_bv_type(&ctx), Some(16));
    let after = signals_of(&ctx, &sys);
    assert_eq!(after.len(), signals.len() + 1);
    let count = after.iter().find(|s| s.name == "__change_count").unwrap();
    assert!(count.is_output && !count.is_input);
    assert_eq!(count.expr, sum);
    // the outputs that there were are outputs still
    let out = after.iter().find(|s| s.name == "out").unwrap();
    assert!(out.is_output);
}

#[test]
fn a_traced_run_shows_the_signals_in_every_cycle() {
    let p = prepare(COUNTER, "a, out\n0, 1\n0, 3\n0, 5\n0, 0\n0, 9\n");
    let cnt = signal_named(&p, "cnt");
    let out = signal_named(&p, "out");
    let stranger = ExprRef::from_index(1000);
    let fresh = || {
        let mut sim = Interpreter::new(&p.ctx, &p.sys);
        sim.init(libpatron::sim::interpreter::InitKind::Zero);
        p.vars.clear_in_sim(&mut sim);
        sim
    };
    // to the last cycle: the counter counts by 2
    let mut sim = fresh();
    let conf = RunConfig { start: 0, stop: StopAt::end() };
    let (result, trace) = p.tb.run_traced(&mut sim, &conf, &[cnt, stranger, out]);
    assert_eq!(result.first_fail_at, Some(3));
    let cell = |v: u64| Some(vec![v]);
    assert_eq!(
        trace,
        vec![
            vec![cell(0), None, cell(1)],
            vec![cell(2), None, cell(3)],
            vec![cell(4), None, cell(5)],
            vec![cell(6), None, cell(7)],
            vec![cell(8), None, cell(9)],
        ]
    );
    assert_eq!(synth::run::read_signals(&sim, &[out, cnt]), vec![cell(9), cell(8)]);
    // to the first failure
    let mut sim = fresh();
    let conf = RunConfig { start: 0, stop: StopAt::first_fail() };
    let (result, trace) = p.tb.run_traced(&mut sim, &conf, &[cnt]);
    assert_eq!(result.first_fail_at, Some(3));
    assert_eq!(trace, vec![vec![cell(0)], vec![cell(2)], vec![cell(4)], vec![cell(6)]]);
    // without signals there is nothing to show, and the run is the same
    let mut sim = fresh();
    let (result, trace) = p.tb.run_traced(&mut sim, &conf, &[]);
    assert_eq!(result.first_fail_at, Some(3));
    assert!(trace.is_empty());
    let mut sim = fresh();
    assert_eq!(p.tb.run(&mut sim, &conf).first_fail_at, Some(3));
}

#[test]
fn the_first_run_can_be_traced() {
    let p = prepare(COUNTER, "a, out\n0, 1\n0, 3\n0, 0\n0, 7\n");
    let cnt = signal_named(&p, "cnt");
    let sim = Interpreter::new(&p.ctx, &p.sys);
    let tb = Testbench::load(&p.signals, p.file.as_bytes()).unwrap();
    let vars = RepairVars::from_sys(&p.states).unwrap();
    let states = states_of(&p.ctx, &p.sys);
    let mut rctx = RepairContext::new(sim, tb, vars, states, &init_plan(Init::Zero)).ok().unwrap();
    let (verdict, trace) = rctx.diagnose_traced(&[cnt]);
    assert_eq!(verdict, Verdict::Search { fail_at: 2 });
    assert_eq!(trace, vec![vec![Some(vec![0])], vec![Some(vec![2])], vec![Some(vec![4])]]);
}

/// an output that goes by another name than the input it shows, and two
/// outputs of one expression
const ALIASES: &str = "
1 sort bitvec 8
2 input 1 a
3 input 1 b
4 output 2 a_seen
5 add 1 2 3
6 output 5 sum
7 output 5 total
";

#[test]
fn signals_are_found_as_the_system_names_them() {
    for design in [ADDER, FIXED, COUNTER, TWO_SITES, ALIASES] {
        let (ctx, sys) = parse(design);
        let signals = signals_of(&ctx, &sys);
        let names = sys.generate_name_to_ref(&ctx);
        assert!(!names.is_empty());
        // every name of the system finds its signal
        for (name, expr) in names.iter() {
            let found = synth::system::find_signal(&signals, name.as_bytes());
            assert_eq!(found.map(|i| signals[i].expr), Some(*expr), "{name}");
        }
        // and a signal goes by no other name
        for signal in signals.iter() {
            assert!(names.contains_key(&signal.name), "{}", signal.name);
            if let Some(alias) = &signal.alias {
                assert!(names.contains_key(alias), "{alias}");
            }
        }
        assert_eq!(synth::system::find_signal(&signals, b"no_such_signal"), None);
    }
}

#[test]
fn a_testbench_of_x_leaves_the_inputs_as_they_are() {
    let p = prepare(ADDER, "a, out\n1, 3\n");
    let a = signal_named(&p, "a");
    let out = signal_named(&p, "out");
    // nothing was filled in: every cell is a don't-care
    let signals = signals_of(&p.ctx, &p.sys);
    let tb = Testbench::load(&signals, b"a, out\nx, x\nx, x\nx, x\n").unwrap();
    let mut sim = Interpreter::new(&p.ctx, &p.sys);
    sim.init(libpatron::sim::interpreter::InitKind::Zero);
    p.vars.clear_in_sim(&mut sim);
    sim.set(a, ValueRef::new(&[7], 8));
    let conf = RunConfig { start: 0, stop: StopAt::end() };
    let (result, trace) = tb.run_traced(&mut sim, &conf, &[a, out]);
    assert_eq!(result.first_fail_at, None);
    // the input keeps the value that it had, and the output follows it
    let row = vec![Some(vec![7]), Some(vec![9])];
    assert_eq!(trace, vec![row.clone(), row.clone(), row]);
}

#[test]
fn a_study_does_not_go_on_with_unknown_while_minimizing() {
    let unknown = Reply::Response(Response::Unknown);
    let mut study = unrolling(1, 4, 2);
    assert!(study.admits(&unknown));
    let mut command = study.run(Reply::Start);
    let mut steps = 0;
    // up to the first check of the round
    while command != Command::Check {
        command = study.run(Reply::Done);
        steps += 1;
        assert!(steps < 100);
    }
    assert!(study.admits(&unknown));
    let command = study.run(Reply::Response(Response::Sat));
    assert_eq!(command, Command::CheckChangeCount { count: 1, step: 0 });
    assert!(!study.admits(&unknown));
    assert!(study.admits(&Reply::Response(Response::Unsat)));
}
