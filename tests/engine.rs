use verified_ledger::fuzz::{compare_ops, run, same_snapshot, seed_from_clock, FuzzConfig, FuzzFailure, RunError};
use verified_ledger::subject::Subject;
use verified_ledger::table::canonical_snapshot;
use verified_ledger::generate::{default_accounts, pick_account, pick_different_account, random_op};
use verified_ledger::ledger::Ledger;
use verified_ledger::op::{same_outcome, ApplyError, Op};
use verified_ledger::reference::ReferenceLedger;
use verified_ledger::rng::{make_rng_streams, mix_seed, XorShift64};

fn s(x: &str) -> String {
    x.to_string()
}

fn diverged(r: Result<(), RunError>) -> FuzzFailure {
    match r {
        Err(RunError::Diverged(f)) => f,
        _ => panic!("expected a divergence"),
    }
}

fn config(seed: u64, cases: u64, steps: usize, max_amount: u64) -> FuzzConfig {
    FuzzConfig { seed, cases, steps, max_amount }
}

#[test]
fn config_defaults() {
    let c = FuzzConfig::new(9);
    assert_eq!((c.seed, c.cases, c.steps, c.max_amount), (9, 50, 200, 50));
}

#[test]
fn xorshift_step_value() {
    let mut r = XorShift64::new(1);
    assert_eq!(r.next_u64(), 1082269761);
    assert_eq!(r.state, 1082269761);
    assert_eq!(XorShift64::new(0).state, 0x9e3779b97f4a7c15);
}

#[test]
fn mix_seed_values() {
    assert_eq!(mix_seed(42, 0x53a9_e5b1_6f1d_6b29), 10735706328762599041);
    assert_eq!(mix_seed(42, 0xa5a3_98d7_612c_e4b5), 9077905936991779258);
    let (init, ops) = make_rng_streams(42);
    assert_eq!(init.state, 10735706328762599041);
    assert_eq!(ops.state, 9077905936991779258);
}

#[test]
fn clock_seed_value() {
    assert_eq!(seed_from_clock(5, 1), 5 ^ (1u64 << 32));
    assert_eq!(seed_from_clock(0, 0), 0);
}

#[test]
fn roster_is_fixed() {
    assert_eq!(default_accounts(), vec![s("alice"), s("bob"), s("carol"), s("dave"), s("erin")]);
}

#[test]
fn generated_operations_values() {
    let accounts = default_accounts();
    let mut rng = XorShift64::new(7);
    let ops: Vec<Op> = (0..4).map(|_| random_op(&mut rng, &accounts, 50)).collect();
    assert_eq!(
        ops,
        vec![
            Op::Deposit { account: s("dave"), amount: 3 },
            Op::Deposit { account: s("alice"), amount: 1 },
            Op::Withdraw { account: s("bob"), amount: 49 },
            Op::Deposit { account: s("carol"), amount: 34 },
        ]
    );
}

#[test]
fn generated_amounts_stay_in_range() {
    let accounts = default_accounts();
    let mut rng = XorShift64::new(123);
    for _ in 0..500 {
        let op = random_op(&mut rng, &accounts, 0);
        assert_eq!(op.amount(), 1);
        if let Op::Transfer { from, to, .. } = &op {
            assert_ne!(from, to);
        }
    }
}

#[test]
fn pick_different_falls_back_to_first() {
    let accounts = vec![s("solo")];
    let mut rng = XorShift64::new(3);
    assert_eq!(pick_account(&mut rng, &accounts), "solo");
    assert_eq!(pick_different_account(&mut rng, &accounts, &s("solo")), "solo");
    let two = vec![s("a"), s("b")];
    let mut rng = XorShift64::new(3);
    assert_eq!(pick_different_account(&mut rng, &two, &s("a")), "b");
}

#[test]
fn trivial_success() {
    assert!(run::<ReferenceLedger, ReferenceLedger>(&config(42, 1, 0, 50)).is_ok());
    assert!(run::<Ledger, Ledger>(&config(42, 1, 0, 50)).is_ok());
}

#[test]
fn identical_subjects_never_diverge() {
    assert!(run::<ReferenceLedger, ReferenceLedger>(&config(7, 5, 300, 50)).is_ok());
}

#[test]
fn transfer_correctness() {
    let ops = vec![
        Op::Deposit { account: s("alice"), amount: 100 },
        Op::Transfer { from: s("alice"), to: s("bob"), amount: 40 },
    ];
    let mut a = ReferenceLedger::new();
    let mut b = ReferenceLedger::new();
    let history = match compare_ops(&mut a, &mut b, &ops, 0, 0) {
        Ok(h) => h,
        Err(_) => panic!("identical subjects diverged"),
    };
    assert_eq!(history.len(), 2);
    assert_eq!(history[1].model_snapshot, vec![(s("alice"), 60), (s("bob"), 40)]);
    assert_eq!(history[1].impl_snapshot, vec![(s("alice"), 60), (s("bob"), 40)]);
}

#[test]
fn detected_defect() {
    let ops = vec![
        Op::Deposit { account: s("alice"), amount: 10 },
        Op::Withdraw { account: s("alice"), amount: 10 },
        Op::Deposit { account: s("bob"), amount: 1 },
    ];
    let mut model = ReferenceLedger::new();
    let mut ledger = Ledger::new();
    let f = match compare_ops(&mut model, &mut ledger, &ops, 5, 2) {
        Err(f) => f,
        Ok(_) => panic!("defect not detected"),
    };
    assert_eq!((f.seed, f.case_index, f.step_index), (5, 2, 1));
    assert_eq!(f.op, Op::Withdraw { account: s("alice"), amount: 10 });
    assert_eq!(f.model_result, Ok(()));
    assert_eq!(
        f.impl_result,
        Err(ApplyError::InsufficientFunds { account: s("alice"), balance: 10, amount: 10 })
    );
    assert_eq!(f.model_pre_snapshot, vec![(s("alice"), 10)]);
    assert_eq!(f.impl_pre_snapshot, vec![(s("alice"), 10)]);
    assert_eq!(f.history.len(), 2);
    assert_eq!(ledger.balance(&s("bob")), 0);
}

#[test]
fn detected_omission() {
    let ops = vec![
        Op::Deposit { account: s("alice"), amount: 100 },
        Op::Transfer { from: s("alice"), to: s("bob"), amount: 40 },
    ];
    let mut model = ReferenceLedger::new();
    let mut ledger = Ledger::new();
    let f = match compare_ops(&mut model, &mut ledger, &ops, 0, 0) {
        Err(f) => f,
        Ok(_) => panic!("omission not detected"),
    };
    assert_eq!(f.step_index, 1);
    assert_eq!(f.model_result, Ok(()));
    assert_eq!(f.impl_result, Ok(()));
    let last = &f.history[1];
    assert_eq!(last.model_snapshot, vec![(s("alice"), 60), (s("bob"), 40)]);
    assert_eq!(last.impl_snapshot, vec![(s("alice"), 100)]);
}

#[test]
fn fail_fast_and_determinism() {
    let c = config(1234, 20, 200, 50);
    let f1 = diverged(run::<ReferenceLedger, Ledger>(&c));
    let f2 = diverged(run::<ReferenceLedger, Ledger>(&c));
    assert_eq!(f1.history.len(), f1.step_index + 1);
    assert_eq!(f1.seed, 1234u64.wrapping_add(f1.case_index));
    assert_eq!((f1.seed, f1.case_index, f1.step_index), (f2.seed, f2.case_index, f2.step_index));
    assert_eq!(f1.op, f2.op);
    for (a, b) in f1.history.iter().zip(f2.history.iter()) {
        assert_eq!(a.op, b.op);
        assert_eq!(a.model_snapshot, b.model_snapshot);
        assert_eq!(a.impl_snapshot, b.impl_snapshot);
    }
    for a in &f1.history[..f1.step_index] {
        assert!(a.agrees());
    }
    assert!(!f1.history[f1.step_index].agrees());
}

#[test]
fn replay_reproduces_failure() {
    let f = diverged(run::<ReferenceLedger, Ledger>(&config(u64::MAX - 1, 10, 200, 50)));
    let replay = config(f.seed, 1, f.history.len(), 50);
    let g = diverged(run::<ReferenceLedger, Ledger>(&replay));
    assert_eq!(g.case_index, 0);
    assert_eq!(g.seed, f.seed);
    assert_eq!(g.step_index, f.step_index);
    assert_eq!(g.model_pre_snapshot, f.model_pre_snapshot);
    assert_eq!(g.impl_pre_snapshot, f.impl_pre_snapshot);
    assert_eq!(g.history.len(), f.history.len());
    for (a, b) in g.history.iter().zip(f.history.iter()) {
        assert_eq!(a.op, b.op);
        assert_eq!(a.model_snapshot, b.model_snapshot);
        assert_eq!(a.impl_snapshot, b.impl_snapshot);
        assert!(same_outcome(&a.model_result, &b.model_result));
        assert!(same_outcome(&a.impl_result, &b.impl_result));
    }
}

#[test]
fn snapshot_helpers() {
    let a = vec![(s("alice"), 1), (s("bob"), 2)];
    let b = vec![(s("alice"), 1), (s("bob"), 2)];
    assert!(same_snapshot(&a, &b));
    assert!(!same_snapshot(&a, &vec![(s("alice"), 1)]));
    assert!(!same_snapshot(&a, &vec![(s("alice"), 1), (s("bob"), 3)]));
}

#[test]
fn zero_max_amount_seeds_nothing() {
    let f = diverged(run::<ReferenceLedger, Ledger>(&config(99, 50, 200, 0)));
    let first = &f.history[0];
    let total: u64 = first.model_snapshot.iter().map(|e| e.1).sum();
    assert!(total <= 1);
    for step in &f.history {
        assert_eq!(step.op.amount(), 1);
    }
}

struct RejectsDeposits;

impl Subject for RejectsDeposits {
    fn fresh() -> Self {
        RejectsDeposits
    }

    fn apply(&mut self, op: &Op) -> Result<(), ApplyError> {
        Err(op.rejection(0))
    }

    fn snapshot(&self) -> Vec<(String, u64)> {
        vec![]
    }
}

#[test]
fn rejected_seeding_stops_the_campaign() {
    match run::<RejectsDeposits, Ledger>(&config(42, 3, 10, 50)) {
        Err(RunError::SeedingRejected { seed, case_index, op }) => {
            assert_eq!((seed, case_index), (42, 0));
            assert!(matches!(op, Op::Deposit { .. }));
        }
        _ => panic!("expected a seeding rejection"),
    }
}

#[test]
fn rejection_names_debited_account() {
    let t = Op::Transfer { from: s("bob"), to: s("carol"), amount: 7 };
    assert_eq!(t.debited_account(), "bob");
    assert_eq!(t.rejection(3), ApplyError::InsufficientFunds { account: s("bob"), balance: 3, amount: 7 });
    let d = Op::Deposit { account: s("erin"), amount: 2 };
    assert_eq!(d.rejection(0), ApplyError::InsufficientFunds { account: s("erin"), balance: 0, amount: 2 });
}

#[test]
fn canonical_snapshot_drops_zero_and_sorts() {
    let readings = vec![(s("erin"), 4), (s("alice"), 0), (s("carol"), 9), (s("bob"), 1)];
    assert_eq!(canonical_snapshot(&readings), vec![(s("bob"), 1), (s("carol"), 9), (s("erin"), 4)]);
    assert_eq!(canonical_snapshot(&vec![]), vec![]);
}

#[test]
fn replay_mode_runs_one_case() {
    let r = verified_ledger::fuzz::replay_config(&config(77, 50, 12, 9));
    assert_eq!((r.seed, r.cases, r.steps, r.max_amount), (77, 1, 12, 9));
}
