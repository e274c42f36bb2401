use libpatron::ir::ExprRef;
use num_bigint::BigUint;
use synth::repair::classify_state;
use synth::repair::ModelError;
use synth::repair::ModelValue;
use synth::repair::RepairAssignment;
use synth::repair::RepairVars;
use synth::repair::RepairVarsError;
use synth::repair::StateType;
use synth::system::StateInfo;

fn state(index: usize, name: &str, width: Option<u32>) -> StateInfo {
    StateInfo { symbol: ExprRef::from_index(index), name: name.to_string(), width, has_init: false }
}

fn states() -> Vec<StateInfo> {
    vec![
        state(0, "top.counter", Some(8)),
        state(1, "top.__synth_change_0", Some(1)),
        state(2, "top.sub.__synth_free_a", Some(70)),
        state(3, "top.__synth_change_1", Some(1)),
        state(4, "memory", None),
        state(5, "__synth_b", Some(4)),
    ]
}

fn big(v: u64) -> BigUint {
    BigUint::from(v)
}

#[test]
fn classification_by_last_part_of_name() {
    assert_eq!(classify_state("__synth_change_0"), StateType::ChangeVar);
    assert_eq!(classify_state("a.b.__synth_change_x"), StateType::ChangeVar);
    assert_eq!(classify_state("__synth_change_"), StateType::ChangeVar);
    assert_eq!(classify_state("__synth_foo"), StateType::FreeVar);
    assert_eq!(classify_state("a.__synth_"), StateType::FreeVar);
    // the change prefix is checked first, but a shorter match is no change variable
    assert_eq!(classify_state("__synth_change"), StateType::FreeVar);
    assert_eq!(classify_state("counter"), StateType::Other);
    assert_eq!(classify_state(""), StateType::Other);
    assert_eq!(classify_state("__synth"), StateType::Other);
    // only the part after the last dot counts
    assert_eq!(classify_state("__synth_change_0.x"), StateType::Other);
    assert_eq!(classify_state("x.__synth_change_0."), StateType::Other);
    assert_eq!(classify_state("x__synth_change_0"), StateType::Other);
    assert!(StateType::ChangeVar.is_synth_var());
    assert!(StateType::FreeVar.is_synth_var());
    assert!(!StateType::Other.is_synth_var());
}

#[test]
fn registry_from_states() {
    let vars = RepairVars::from_sys(&states()).unwrap();
    assert_eq!(vars.change, vec![ExprRef::from_index(1), ExprRef::from_index(3)]);
    assert_eq!(vars.free, vec![(ExprRef::from_index(2), 70), (ExprRef::from_index(5), 4)]);
    assert_eq!(vars.change_names, vec!["top.__synth_change_0", "top.__synth_change_1"]);
    assert_eq!(vars.free_names, vec!["top.sub.__synth_free_a", "__synth_b"]);
    assert!(vars.is_repair_var(ExprRef::from_index(1)));
    assert!(vars.is_repair_var(ExprRef::from_index(5)));
    assert!(!vars.is_repair_var(ExprRef::from_index(0)));
    assert!(!vars.is_repair_var(ExprRef::from_index(4)));
    // no variable is in both lists
    for c in vars.change.iter() {
        assert!(!vars.free.iter().any(|(e, _)| e == c));
    }
}

#[test]
fn registry_errors() {
    let mut wide = states();
    wide[3].width = Some(2);
    assert_eq!(
        RepairVars::from_sys(&wide).err(),
        Some(RepairVarsError::ChangeNotOneBit { state: 3 })
    );
    let mut array = states();
    array[2].width = None;
    array[3].width = Some(2);
    // the first state with an error is reported
    assert_eq!(
        RepairVars::from_sys(&array).err(),
        Some(RepairVarsError::FreeNotBitVector { state: 2 })
    );
    let many: Vec<StateInfo> =
        (0..65536).map(|i| state(i, "__synth_change_n", Some(1))).collect();
    assert_eq!(RepairVars::from_sys(&many).err(), Some(RepairVarsError::TooManyChanges));
    let ok: Vec<StateInfo> = (0..65535).map(|i| state(i, "__synth_change_n", Some(1))).collect();
    assert_eq!(RepairVars::from_sys(&ok).unwrap().change.len(), 65535);
}

#[test]
fn read_assignment_from_model_values() {
    let vars = RepairVars::from_sys(&states()).unwrap();
    let values = vec![
        ModelValue::Scalar(big(1), 1),
        ModelValue::Scalar(big(0), 1),
        ModelValue::Scalar(big(1234), 70),
        ModelValue::Scalar(big(9), 4),
    ];
    let a = vars.read_assignment(&values).unwrap();
    assert_eq!(a.change, vec![true, false]);
    assert_eq!(a.free, vec![big(1234), big(9)]);
    assert_eq!(a.change_count(), 1);
    let copy = a.duplicate();
    assert_eq!(copy.change, a.change);
    assert_eq!(copy.free, a.free);
}

#[test]
fn read_assignment_errors() {
    let vars = RepairVars::from_sys(&states()).unwrap();
    let short = vec![ModelValue::Scalar(big(1), 1)];
    assert_eq!(vars.read_assignment(&short).err(), Some(ModelError::WrongCount));
    let array = vec![
        ModelValue::Scalar(big(1), 1),
        ModelValue::Scalar(big(0), 1),
        ModelValue::Array,
        ModelValue::Scalar(big(9), 4),
    ];
    assert_eq!(vars.read_assignment(&array).err(), Some(ModelError::ArrayValue { index: 2 }));
    let wide = vec![
        ModelValue::Scalar(big(1), 1),
        ModelValue::Scalar(big(0), 2),
        ModelValue::Array,
        ModelValue::Scalar(big(9), 4),
    ];
    assert_eq!(vars.read_assignment(&wide).err(), Some(ModelError::ChangeWidth { index: 1 }));
}

#[test]
fn blocking_literals_follow_the_change_variables() {
    let vars = RepairVars::from_sys(&states()).unwrap();
    let a = RepairAssignment { change: vec![true, false], free: vec![big(3), big(4)] };
    let literals = vars.block_assignment(&a);
    assert_eq!(literals.len(), 2);
    assert_eq!(literals[0].var, ExprRef::from_index(1));
    assert!(literals[0].positive);
    assert_eq!(literals[1].var, ExprRef::from_index(3));
    assert!(!literals[1].positive);
    // the negated conjunction holds of every other change vector, not of this one
    for model in [[false, false], [false, true], [true, false], [true, true]] {
        let conjunction = literals.iter().zip(model.iter()).all(|(l, m)| l.positive == *m);
        assert_eq!(!conjunction, model.to_vec() != a.change);
    }
}

#[test]
fn change_names_and_report() {
    let vars = RepairVars::from_sys(&states()).unwrap();
    let a = RepairAssignment {
        change: vec![false, true],
        free: vec![BigUint::parse_bytes(b"340282366920938463463374607431768211456", 10).unwrap(), big(0)],
    };
    assert_eq!(vars.get_change_names(&a), vec!["top.__synth_change_1"]);
    let report: Vec<(String, String)> =
        vars.to_json(&a).into_iter().map(|e| (e.name, e.number)).collect();
    assert_eq!(
        report,
        vec![
            ("top.__synth_change_0".to_string(), "0".to_string()),
            ("top.__synth_change_1".to_string(), "1".to_string()),
            (
                "top.sub.__synth_free_a".to_string(),
                "340282366920938463463374607431768211456".to_string()
            ),
            ("__synth_b".to_string(), "0".to_string()),
        ]
    );
    let none = RepairAssignment { change: vec![false, false], free: vec![] };
    assert_eq!(vars.get_change_names(&none).len(), 0);
    assert_eq!(none.change_count(), 0);
    assert_eq!(vars.to_json(&none).len(), 2);
}

#[test]
fn writes_cut_values_down_to_width() {
    let vars = RepairVars::from_sys(&states()).unwrap();
    let a = RepairAssignment {
        change: vec![true, false],
        // 2^70 + 5 does not fit 70 bits; 0x1f does not fit 4 bits
        free: vec![(BigUint::from(1u8) << 70usize) + big(5), big(0x1f)],
    };
    let writes = vars.writes(&a);
    let seen: Vec<(ExprRef, Vec<u64>, u32)> =
        writes.into_iter().map(|w| (w.expr, w.words, w.width)).collect();
    let e = ExprRef::from_index;
    assert_eq!(
        seen,
        vec![
            (e(1), vec![1], 1),
            (e(3), vec![0], 1),
            (e(2), vec![5, 0], 70),
            (e(5), vec![0xf], 4),
        ]
    );
    let cleared: Vec<(ExprRef, Vec<u64>, u32)> =
        vars.clear_writes().into_iter().map(|w| (w.expr, w.words, w.width)).collect();
    assert_eq!(
        cleared,
        vec![
            (e(1), vec![0], 1),
            (e(3), vec![0], 1),
            (e(2), vec![0, 0], 70),
            (e(5), vec![0], 4),
        ]
    );
}
