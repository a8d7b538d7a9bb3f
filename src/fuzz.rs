use vstd::prelude::*;

use crate::generate::{default_accounts, names_of, ops_spec, random_op, roster};
use crate::ledger::{ledger_outcome, sat_add, Ledger};
use crate::reference::{reference_outcome, ReferenceLedger};
use crate::op::{duplicate_outcome, outcome_view, same_outcome, ApplyError, ApplyErrorModel, Op, OpModel};
use crate::rng::{make_rng_streams, mix, start_state, xorshift_step, XorShift64, INIT_STREAM, OP_STREAM};
use crate::subject::{lemma_next_state, next_state, Subject};
use crate::table::snapshot_view;

verus! {

/// The parameters of a campaign.
#[derive(Clone, Copy, Debug)]
pub struct FuzzConfig {
    pub seed: u64,
    pub cases: u64,
    pub steps: usize,
    pub max_amount: u64,
}

impl FuzzConfig {
    /// A configuration with the given base seed and the default sizes: 50
    /// cases of 200 steps, with amounts up to 50.
    pub fn new(seed: u64) -> (r: Self)
        ensures
            r.seed == seed,
            r.cases == 50,
            r.steps == 200,
            r.max_amount == 50,
    {
        FuzzConfig { seed, cases: 50, steps: 200, max_amount: 50 }
    }
}

/// What one step did to both subjects.
#[derive(Debug)]
pub struct StepRecord {
    pub op: Op,
    pub model_result: Result<(), ApplyError>,
    pub impl_result: Result<(), ApplyError>,
    pub model_snapshot: Vec<(String, u64)>,
    pub impl_snapshot: Vec<(String, u64)>,
}

/// The value of a [`StepRecord`].
pub struct StepModel {
    pub op: OpModel,
    pub model_outcome: Result<(), ApplyErrorModel>,
    pub impl_outcome: Result<(), ApplyErrorModel>,
    pub model_state: Seq<(Seq<char>, u64)>,
    pub impl_state: Seq<(Seq<char>, u64)>,
}

/// Both subjects returned the same outcome and show the same snapshot.
pub open spec fn step_agrees(m: StepModel) -> bool {
    &&& m.model_outcome == m.impl_outcome
    &&& m.model_state == m.impl_state
}

/// The value of a step record.
pub open spec fn record_view(r: StepRecord) -> StepModel {
    StepModel {
        op: r.op@,
        model_outcome: outcome_view(r.model_result),
        impl_outcome: outcome_view(r.impl_result),
        model_state: snapshot_view(r.model_snapshot@),
        impl_state: snapshot_view(r.impl_snapshot@),
    }
}

/// The values of a sequence of step records.
pub open spec fn history_view(h: Seq<StepRecord>) -> Seq<StepModel> {
    h.map_values(|r: StepRecord| record_view(r))
}

/// The step that subjects of types `M` and `I`, holding balances `m` and `i`,
/// take on `op`.
pub open spec fn step_spec<M: Subject, I: Subject>(
    m: Seq<(Seq<char>, u64)>,
    i: Seq<(Seq<char>, u64)>,
    op: OpModel,
) -> StepModel {
    StepModel {
        op,
        model_outcome: M::outcome_of(m, op),
        impl_outcome: I::outcome_of(i, op),
        model_state: next_state::<M>(m, op),
        impl_state: next_state::<I>(i, op),
    }
}

impl StepRecord {
    /// Both subjects returned the same outcome and show the same snapshot.
    pub open spec fn agrees_spec(&self) -> bool {
        step_agrees(record_view(*self))
    }

    /// Whether the step shows no divergence.
    pub fn agrees(&self) -> (r: bool)
        ensures
            r == self.agrees_spec(),
    {
        same_outcome(&self.model_result, &self.impl_result) && same_snapshot(
            &self.model_snapshot,
            &self.impl_snapshot,
        )
    }
}

/// The report of the first divergence of a campaign.
#[derive(Debug)]
pub struct FuzzFailure {
    pub seed: u64,
    pub case_index: u64,
    pub step_index: usize,
    pub op: Op,
    pub model_result: Result<(), ApplyError>,
    pub impl_result: Result<(), ApplyError>,
    pub model_pre_snapshot: Vec<(String, u64)>,
    pub impl_pre_snapshot: Vec<(String, u64)>,
    pub history: Vec<StepRecord>,
}

/// The operations of a sequence of step records.
pub open spec fn history_ops(h: Seq<StepRecord>) -> Seq<OpModel> {
    h.map_values(|r: StepRecord| r.op@)
}

/// The first `n` operations of the case with seed `seed`.
pub open spec fn case_ops(seed: u64, max_amount: u64, n: nat) -> Seq<OpModel> {
    ops_spec(start_state(mix(seed, OP_STREAM)), roster(), max_amount, n).0
}

/// The seed of case `case_index` of a campaign with base seed `seed`.
pub open spec fn case_seed(seed: u64, case_index: u64) -> u64 {
    seed.wrapping_add(case_index)
}

/// Both subject types are described by their spec functions.
pub open spec fn both_modelled<M: Subject, I: Subject>() -> bool {
    M::modelled() && I::modelled()
}

/// `history` reports a divergence at its last step and nowhere before.
pub open spec fn diverges_last(history: Seq<StepRecord>) -> bool {
    &&& history.len() > 0
    &&& forall|j: int| 0 <= j < history.len() - 1 ==> (#[trigger] history[j]).agrees_spec()
    &&& !history.last().agrees_spec()
}

/// The pre-step snapshots of the last step of `history` are the post-step
/// snapshots of the one before it.
pub open spec fn pre_follows(
    history: Seq<StepRecord>,
    model_pre: Seq<(Seq<char>, u64)>,
    impl_pre: Seq<(Seq<char>, u64)>,
) -> bool {
    &&& history.len() > 1 ==> model_pre == snapshot_view(history[history.len() - 2].model_snapshot@)
    &&& history.len() > 1 ==> impl_pre == snapshot_view(history[history.len() - 2].impl_snapshot@)
}

/// `f` reports the first divergence of a case whose operations were
/// generated from `f.seed` with amounts up to `max_amount`: its history holds
/// exactly the steps run, up to and including the failing one, and its
/// operation and outcomes are those of that step.
pub open spec fn reports_divergence(f: FuzzFailure, max_amount: u64) -> bool {
    &&& f.history@.len() == f.step_index + 1
    &&& history_ops(f.history@) == case_ops(f.seed, max_amount, (f.step_index + 1) as nat)
    &&& diverges_last(f.history@)
    &&& f.op@ == f.history@.last().op@
    &&& outcome_view(f.model_result) == outcome_view(f.history@.last().model_result)
    &&& outcome_view(f.impl_result) == outcome_view(f.history@.last().impl_result)
}

/// Whether two snapshots hold the same entries in the same order.
pub fn same_snapshot(a: &Vec<(String, u64)>, b: &Vec<(String, u64)>) -> (r: bool)
    ensures
        r == (snapshot_view(a@) == snapshot_view(b@)),
{
    if a.len() != b.len() {
        proof {
            assert(snapshot_view(a@).len() != snapshot_view(b@).len());
        }
        return false;
    }
    let mut i: usize = 0;
    while i < a.len()
        invariant
            a@.len() == b@.len(),
            i <= a@.len(),
            forall|j: int| 0 <= j < i ==> snapshot_view(a@)[j] == snapshot_view(b@)[j],
        decreases a.len() - i,
    {
        if a[i].0 != b[i].0 || a[i].1 != b[i].1 {
            proof {
                assert(snapshot_view(a@)[i as int] != snapshot_view(b@)[i as int]);
            }
            return false;
        }
        i = i + 1;
    }
    proof {
        assert(snapshot_view(a@) =~= snapshot_view(b@));
    }
    true
}

/// Applies `op` to both subjects and records what each returned and shows,
/// together with the snapshots each showed before.
fn execute_step<M: Subject, I: Subject>(model: &mut M, implementation: &mut I, op: Op) -> (r: (
    StepRecord,
    Vec<(String, u64)>,
    Vec<(String, u64)>,
))
    requires
        old(model).inv(),
        old(implementation).inv(),
    ensures
        final(model).inv(),
        final(implementation).inv(),
        r.0.op@ == op@,
        both_modelled::<M, I>() ==> {
            &&& snapshot_view(r.1@) == old(model).state()
            &&& snapshot_view(r.2@) == old(implementation).state()
            &&& snapshot_view(r.0.model_snapshot@) == final(model).state()
            &&& snapshot_view(r.0.impl_snapshot@) == final(implementation).state()
            &&& record_view(r.0) == step_spec::<M, I>(old(model).state(), old(implementation).state(), op@)
        },
{
    let model_pre = model.snapshot();
    let impl_pre = implementation.snapshot();
    let model_result = model.apply(&op);
    let impl_result = implementation.apply(&op);
    let model_snapshot = model.snapshot();
    let impl_snapshot = implementation.snapshot();
    proof {
        if both_modelled::<M, I>() {
            lemma_next_state::<M>(old(model).state(), op@, model.state());
            lemma_next_state::<I>(old(implementation).state(), op@, implementation.state());
        }
    }
    (StepRecord { op, model_result, impl_result, model_snapshot, impl_snapshot }, model_pre, impl_pre)
}

/// The failure for the last step of `history`.
fn failure_at(
    seed: u64,
    case_index: u64,
    history: Vec<StepRecord>,
    model_pre_snapshot: Vec<(String, u64)>,
    impl_pre_snapshot: Vec<(String, u64)>,
) -> (f: FuzzFailure)
    requires
        history@.len() > 0,
    ensures
        f.seed == seed,
        f.case_index == case_index,
        f.step_index == history@.len() - 1,
        f.history@ == history@,
        f.op@ == history@.last().op@,
        outcome_view(f.model_result) == outcome_view(history@.last().model_result),
        outcome_view(f.impl_result) == outcome_view(history@.last().impl_result),
        f.model_pre_snapshot@ == model_pre_snapshot@,
        f.impl_pre_snapshot@ == impl_pre_snapshot@,
{
    let last = history.len() - 1;
    let op = history[last].op.duplicate();
    let model_result = duplicate_outcome(&history[last].model_result);
    let impl_result = duplicate_outcome(&history[last].impl_result);
    FuzzFailure {
        seed,
        case_index,
        step_index: last,
        op,
        model_result,
        impl_result,
        model_pre_snapshot,
        impl_pre_snapshot,
        history,
    }
}

/// Runs one step on both subjects and appends its record to `history`. On a
/// divergence, returns the snapshots both subjects showed before the step.
fn advance<M: Subject, I: Subject>(
    model: &mut M,
    implementation: &mut I,
    op: Op,
    history: &mut Vec<StepRecord>,
) -> (r: Option<(Vec<(String, u64)>, Vec<(String, u64)>)>)
    requires
        old(model).inv(),
        old(implementation).inv(),
    ensures
        final(model).inv(),
        final(implementation).inv(),
        final(history)@.len() == old(history)@.len() + 1,
        final(history)@.subrange(0, old(history)@.len() as int) == old(history)@,
        final(history)@.last().op@ == op@,
        (r is None) == final(history)@.last().agrees_spec(),
        both_modelled::<M, I>() ==> {
            &&& snapshot_view(final(history)@.last().model_snapshot@) == final(model).state()
            &&& snapshot_view(final(history)@.last().impl_snapshot@) == final(implementation).state()
            &&& record_view(final(history)@.last()) == step_spec::<M, I>(
                old(model).state(),
                old(implementation).state(),
                op@,
            )
        },
        both_modelled::<M, I>() ==> (r matches Some(pre) ==> snapshot_view(pre.0@) == old(model).state() && snapshot_view(pre.1@)
            == old(implementation).state()),
{
    let (record, model_pre, impl_pre) = execute_step(model, implementation, op);
    let agrees = record.agrees();
    history.push(record);
    proof {
        assert(history@.subrange(0, history@.len() - 1) =~= old(history)@);
    }
    if agrees {
        None
    } else {
        Some((model_pre, impl_pre))
    }
}

/// The exclusive bound of initial deposits: `max_amount + 1`, held at
/// `u64::MAX`.
pub open spec fn seed_limit(max_amount: u64) -> u64 {
    sat_add(max_amount, 1)
}

/// The balances of a subject of type `M` after seeding the first `n` accounts
/// of `accounts` from initial-balance state `state`, and the state after.
pub open spec fn seeded<M: Subject>(state: u64, accounts: Seq<Seq<char>>, max_amount: u64, n: nat) -> (
    Seq<(Seq<char>, u64)>,
    u64,
)
    decreases n,
{
    if n == 0 {
        (Seq::empty(), state)
    } else {
        let (s, st) = seeded::<M>(state, accounts, max_amount, (n - 1) as nat);
        let x = xorshift_step(st);
        let amount = x % seed_limit(max_amount);
        if amount == 0 {
            (s, x)
        } else {
            (next_state::<M>(s, OpModel::Deposit { account: accounts[n - 1], amount }), x)
        }
    }
}

/// The balances of a subject of type `M` once the case with seed `seed` has
/// seeded it.
pub open spec fn seeded_state<M: Subject>(seed: u64, max_amount: u64) -> Seq<(Seq<char>, u64)> {
    seeded::<M>(start_state(mix(seed, INIT_STREAM)), roster(), max_amount, roster().len()).0
}

/// The amount drawn for account `i` during seeding from initial-balance state
/// `state`: in `[0, max_amount]`.
pub open spec fn seed_amount<M: Subject>(state: u64, accounts: Seq<Seq<char>>, max_amount: u64, i: nat) -> u64 {
    xorshift_step(seeded::<M>(state, accounts, max_amount, i).1) % seed_limit(max_amount)
}

/// The deposit issued for account `i` during seeding, where its amount is
/// not 0.
pub open spec fn seed_deposit<M: Subject>(state: u64, accounts: Seq<Seq<char>>, max_amount: u64, i: nat) -> OpModel {
    OpModel::Deposit { account: accounts[i as int], amount: seed_amount::<M>(state, accounts, max_amount, i) }
}

/// Both subjects accept the seeding deposit of account `i`, taken on the
/// balances seeding has given them before it (a draw of 0 deposits nothing).
pub open spec fn deposit_accepted<M: Subject, I: Subject>(
    state: u64,
    accounts: Seq<Seq<char>>,
    max_amount: u64,
    i: nat,
) -> bool {
    let op = seed_deposit::<M>(state, accounts, max_amount, i);
    seed_amount::<M>(state, accounts, max_amount, i) == 0 || (M::outcome_of(
        seeded::<M>(state, accounts, max_amount, i).0,
        op,
    ) is Ok && I::outcome_of(seeded::<I>(state, accounts, max_amount, i).0, op) is Ok)
}

/// Both subjects accept each of the first `n` seeding deposits.
pub open spec fn seeding_accepted<M: Subject, I: Subject>(
    state: u64,
    accounts: Seq<Seq<char>>,
    max_amount: u64,
    n: nat,
) -> bool {
    forall|i: nat| i < n ==> #[trigger] deposit_accepted::<M, I>(state, accounts, max_amount, i)
}

/// Both subjects accept the seeding of the case with seed `seed`.
pub open spec fn case_seeded<M: Subject, I: Subject>(seed: u64, max_amount: u64) -> bool {
    seeding_accepted::<M, I>(start_state(mix(seed, INIT_STREAM)), roster(), max_amount, roster().len())
}

/// `op` is the seeding deposit of some account `i`, with a nonzero amount; for
/// modelled subjects, every earlier seeding deposit was accepted and this one
/// was not.
pub open spec fn rejected_seed_deposit<M: Subject, I: Subject>(
    op: OpModel,
    state: u64,
    accounts: Seq<Seq<char>>,
    max_amount: u64,
) -> bool {
    exists|i: nat|
        i < accounts.len() && op == #[trigger] seed_deposit::<M>(state, accounts, max_amount, i) && seed_amount::<M>(
            state,
            accounts,
            max_amount,
            i,
        ) != 0 && (both_modelled::<M, I>() ==> seeding_accepted::<M, I>(state, accounts, max_amount, i)
            && !deposit_accepted::<M, I>(state, accounts, max_amount, i))
}

/// Deposits into both subjects, for each account of the roster, an amount
/// drawn from the initial-balance stream in `[0, max_amount]`; a draw of 0
/// deposits nothing. Returns the deposit that a subject rejected, if one did;
/// seeding then stops.
fn seed_initial_balances<M: Subject, I: Subject>(
    model: &mut M,
    implementation: &mut I,
    accounts: &Vec<String>,
    max_amount: u64,
    rng: &mut XorShift64,
) -> (r: Result<(), Op>)
    requires
        old(model).inv(),
        old(implementation).inv(),
        both_modelled::<M, I>() ==> old(model).state() == Seq::<(Seq<char>, u64)>::empty(),
        both_modelled::<M, I>() ==> old(implementation).state() == Seq::<(Seq<char>, u64)>::empty(),
    ensures
        final(model).inv(),
        final(implementation).inv(),
        r is Ok ==> final(rng).state == seeded::<M>(old(rng).state, names_of(accounts@), max_amount, accounts@.len()).1,
        r is Ok && both_modelled::<M, I>() ==> final(model).state() == seeded::<M>(
            old(rng).state,
            names_of(accounts@),
            max_amount,
            accounts@.len(),
        ).0,
        r is Ok && both_modelled::<M, I>() ==> final(implementation).state() == seeded::<I>(
            old(rng).state,
            names_of(accounts@),
            max_amount,
            accounts@.len(),
        ).0,
        both_modelled::<M, I>() && seeding_accepted::<M, I>(old(rng).state, names_of(accounts@), max_amount, accounts@.len())
            ==> r is Ok,
        r is Ok && both_modelled::<M, I>() ==> seeding_accepted::<M, I>(old(rng).state, names_of(accounts@), max_amount, accounts@.len()),
        r matches Err(op) ==> rejected_seed_deposit::<M, I>(op@, old(rng).state, names_of(accounts@), max_amount),
{
    let ghost state0 = rng.state;
    let limit = max_amount.saturating_add(1);
    let mut i: usize = 0;
    while i < accounts.len()
        invariant
            model.inv(),
            implementation.inv(),
            limit == seed_limit(max_amount),
            i <= accounts@.len(),
            rng.state == seeded::<M>(state0, names_of(accounts@), max_amount, i as nat).1,
            state0 == old(rng).state,
            both_modelled::<M, I>() ==> seeding_accepted::<M, I>(state0, names_of(accounts@), max_amount, i as nat),
            both_modelled::<M, I>() ==> (model.state(), rng.state) == seeded::<M>(state0, names_of(accounts@), max_amount, i as nat),
            both_modelled::<M, I>() ==> (implementation.state(), rng.state) == seeded::<I>(
                state0,
                names_of(accounts@),
                max_amount,
                i as nat,
            ),
        decreases accounts.len() - i,
    {
        let ghost m0 = model.state();
        let ghost i0 = implementation.state();
        let ghost names = names_of(accounts@);
        let amount = rng.next_u64() % limit;
        assert(amount == seed_amount::<M>(state0, names, max_amount, i as nat));
        if amount != 0 {
            let op = Op::Deposit { account: accounts[i].clone(), amount };
            assert(op@ == seed_deposit::<M>(state0, names, max_amount, i as nat));
            match model.apply(&op) {
                Ok(()) => {},
                Err(_) => {
                    assert(both_modelled::<M, I>() ==> !deposit_accepted::<M, I>(state0, names, max_amount, i as nat));
                    assert(state0 == old(rng).state);
                    assert(rejected_seed_deposit::<M, I>(op@, old(rng).state, names_of(accounts@), max_amount));
                    proof {
                        if both_modelled::<M, I>() && seeding_accepted::<M, I>(state0, names, max_amount, accounts@.len()) {
                            assert(deposit_accepted::<M, I>(state0, names, max_amount, i as nat));
                        }
                    }
                    return Err(op);
                },
            }
            match implementation.apply(&op) {
                Ok(()) => {},
                Err(_) => {
                    assert(both_modelled::<M, I>() ==> !deposit_accepted::<M, I>(state0, names, max_amount, i as nat));
                    assert(state0 == old(rng).state);
                    assert(rejected_seed_deposit::<M, I>(op@, old(rng).state, names_of(accounts@), max_amount));
                    proof {
                        if both_modelled::<M, I>() && seeding_accepted::<M, I>(state0, names, max_amount, accounts@.len()) {
                            assert(deposit_accepted::<M, I>(state0, names, max_amount, i as nat));
                        }
                    }
                    return Err(op);
                },
            }
            proof {
                assert(op@ == OpModel::Deposit { account: names_of(accounts@)[i as int], amount });
                if both_modelled::<M, I>() {
                    lemma_next_state::<M>(m0, op@, model.state());
                    lemma_next_state::<I>(i0, op@, implementation.state());
                }
            }
        }
        proof {
            if both_modelled::<M, I>() {
                assert(deposit_accepted::<M, I>(state0, names, max_amount, i as nat));
                assert forall|j: nat| j < i + 1 implies #[trigger] deposit_accepted::<M, I>(
                    state0,
                    names,
                    max_amount,
                    j,
                ) by {}
            }
        }
        i = i + 1;
    }
    Ok(())
}

/// The views of a sequence of operations.
pub open spec fn ops_view(ops: Seq<Op>) -> Seq<OpModel> {
    ops.map_values(|o: Op| o@)
}

/// The steps that subjects of types `M` and `I`, holding balances `m0` and
/// `i0`, take through `ops`.
pub open spec fn script_history<M: Subject, I: Subject>(
    m0: Seq<(Seq<char>, u64)>,
    i0: Seq<(Seq<char>, u64)>,
    ops: Seq<OpModel>,
) -> Seq<StepModel>
    decreases ops.len(),
{
    if ops.len() == 0 {
        Seq::empty()
    } else {
        let prev = script_history::<M, I>(m0, i0, ops.drop_last());
        if ops.len() == 1 {
            prev.push(step_spec::<M, I>(m0, i0, ops.last()))
        } else {
            prev.push(step_spec::<M, I>(prev.last().model_state, prev.last().impl_state, ops.last()))
        }
    }
}

proof fn lemma_script_len<M: Subject, I: Subject>(
    m0: Seq<(Seq<char>, u64)>,
    i0: Seq<(Seq<char>, u64)>,
    ops: Seq<OpModel>,
)
    ensures
        script_history::<M, I>(m0, i0, ops).len() == ops.len(),
    decreases ops.len(),
{
    if ops.len() > 0 {
        lemma_script_len::<M, I>(m0, i0, ops.drop_last());
    }
}

/// Drives both subjects through `ops` in order, stopping at the first step
/// where their outcomes or snapshots differ. Returns the full history when
/// every step agrees; otherwise the failure, labelled with `seed` and
/// `case_index`, whose history ends at the diverging step.
pub fn compare_ops<M: Subject, I: Subject>(
    model: &mut M,
    implementation: &mut I,
    ops: &Vec<Op>,
    seed: u64,
    case_index: u64,
) -> (r: Result<Vec<StepRecord>, FuzzFailure>)
    requires
        old(model).inv(),
        old(implementation).inv(),
    ensures
        final(model).inv(),
        final(implementation).inv(),
        r matches Ok(h) ==> {
            &&& both_modelled::<M, I>() ==> history_view(h@) == script_history::<M, I>(
                old(model).state(),
                old(implementation).state(),
                ops_view(ops@),
            )
            &&& history_ops(h@) == ops_view(ops@)
            &&& forall|j: int| 0 <= j < h@.len() ==> (#[trigger] h@[j]).agrees_spec()
        },
        r matches Err(f) ==> {
            &&& f.seed == seed
            &&& f.case_index == case_index
            &&& f.step_index < ops@.len()
            &&& f.history@.len() == f.step_index + 1
            &&& history_ops(f.history@) == ops_view(ops@).subrange(0, f.step_index + 1)
            &&& both_modelled::<M, I>() ==> history_view(f.history@) == script_history::<M, I>(
                old(model).state(),
                old(implementation).state(),
                ops_view(ops@).subrange(0, f.step_index + 1),
            )
            &&& both_modelled::<M, I>() ==> pre_follows(f.history@, snapshot_view(f.model_pre_snapshot@), snapshot_view(f.impl_pre_snapshot@))
            &&& diverges_last(f.history@)
            &&& f.op@ == f.history@.last().op@
            &&& outcome_view(f.model_result) == outcome_view(f.history@.last().model_result)
            &&& outcome_view(f.impl_result) == outcome_view(f.history@.last().impl_result)
        },
{
    let mut history: Vec<StepRecord> = Vec::new();
    let mut i: usize = 0;
    while i < ops.len()
        invariant
            model.inv(),
            implementation.inv(),
            i <= ops@.len(),
            history@.len() == i,
            history_ops(history@) == ops_view(ops@).subrange(0, i as int),
            forall|j: int| 0 <= j < i ==> (#[trigger] history@[j]).agrees_spec(),
            both_modelled::<M, I>() && i > 0 ==> snapshot_view(history@.last().model_snapshot@) == model.state(),
            both_modelled::<M, I>() && i > 0 ==> snapshot_view(history@.last().impl_snapshot@) == implementation.state(),
            i == 0 ==> model.state() == old(model).state(),
            i == 0 ==> implementation.state() == old(implementation).state(),
            both_modelled::<M, I>() ==> history_view(history@) == script_history::<M, I>(
                old(model).state(),
                old(implementation).state(),
                ops_view(ops@).subrange(0, i as int),
            ),
        decreases ops.len() - i,
    {
        let ghost old_history = history@;
        proof {
            lemma_script_len::<M, I>(old(model).state(), old(implementation).state(), ops_view(ops@).subrange(0, i as int));
            if i > 0 {
                assert(history_view(history@).last() == record_view(history@.last()));
            }
            assert(ops_view(ops@).subrange(0, i + 1).drop_last() =~= ops_view(ops@).subrange(0, i as int));
        }
        let op = ops[i].duplicate();
        let outcome = advance(model, implementation, op, &mut history);
        proof {
            assert(history@ =~= old_history.push(history@.last()));
            assert(history_ops(history@) =~= ops_view(ops@).subrange(0, i + 1));
            assert forall|j: int| 0 <= j < i implies (#[trigger] history@[j]).agrees_spec() by {
                assert(history@[j] == old_history[j]);
            }
            assert(history_view(history@) =~= history_view(old_history).push(record_view(history@.last())));
        }
        match outcome {
            Some(pre) => {
                let (model_pre, impl_pre) = pre;
                return Err(failure_at(seed, case_index, history, model_pre, impl_pre));
            },
            None => {},
        }
        i = i + 1;
    }
    assert(ops_view(ops@).subrange(0, i as int) =~= ops_view(ops@));
    Ok(history)
}

/// The first `n` steps of the case with seed `seed` between subjects of
/// types `M` and `I`, had every step been run.
pub open spec fn sim_history<M: Subject, I: Subject>(seed: u64, max_amount: u64, n: nat) -> Seq<StepModel>
    decreases n,
{
    if n == 0 {
        Seq::empty()
    } else {
        let prev = sim_history::<M, I>(seed, max_amount, (n - 1) as nat);
        let op = case_ops(seed, max_amount, n)[n - 1];
        if n == 1 {
            prev.push(step_spec::<M, I>(seeded_state::<M>(seed, max_amount), seeded_state::<I>(seed, max_amount), op))
        } else {
            prev.push(step_spec::<M, I>(prev.last().model_state, prev.last().impl_state, op))
        }
    }
}

/// The first `n` steps of the case with seed `seed` all agree.
pub open spec fn case_clean<M: Subject, I: Subject>(seed: u64, max_amount: u64, n: nat) -> bool {
    forall|j: int| 0 <= j < n ==> step_agrees(#[trigger] sim_history::<M, I>(seed, max_amount, n)[j])
}

/// `f` is the failure of the case with seed `f.seed` between subjects of types
/// `M` and `I`: its history is the case's run up to the first diverging step,
/// and its pre-step snapshots are the balances before that step.
pub open spec fn case_failure<M: Subject, I: Subject>(f: FuzzFailure, max_amount: u64) -> bool {
    &&& reports_divergence(f, max_amount)
    &&& history_view(f.history@) == sim_history::<M, I>(f.seed, max_amount, (f.step_index + 1) as nat)
    &&& pre_follows(f.history@, snapshot_view(f.model_pre_snapshot@), snapshot_view(f.impl_pre_snapshot@))
    &&& case_seeded::<M, I>(f.seed, max_amount)
    &&& f.step_index == 0 ==> snapshot_view(f.model_pre_snapshot@) == seeded_state::<M>(f.seed, max_amount)
    &&& f.step_index == 0 ==> snapshot_view(f.impl_pre_snapshot@) == seeded_state::<I>(f.seed, max_amount)
}

/// `f` is the failure that a campaign run with `config` between subjects of
/// types `M` and `I` reports: a failure of one of its cases, every earlier
/// case of which ran all its steps without divergence.
pub open spec fn campaign_failure<M: Subject, I: Subject>(config: FuzzConfig, f: FuzzFailure) -> bool {
    &&& f.case_index < config.cases
    &&& f.seed == case_seed(config.seed, f.case_index)
    &&& f.step_index < config.steps
    &&& case_failure::<M, I>(f, config.max_amount)
    &&& forall|c: u64|
        c < f.case_index ==> #[trigger] case_clean::<M, I>(case_seed(config.seed, c), config.max_amount, config.steps as nat)
    &&& forall|c: u64| c < f.case_index ==> #[trigger] case_seeded::<M, I>(case_seed(config.seed, c), config.max_amount)
}

/// The first `k` of `n` simulated steps do not depend on how many follow.
pub proof fn lemma_sim_prefix<M: Subject, I: Subject>(seed: u64, max_amount: u64, k: nat, n: nat)
    requires
        k <= n,
    ensures
        sim_history::<M, I>(seed, max_amount, n).len() == n,
        sim_history::<M, I>(seed, max_amount, n).subrange(0, k as int) == sim_history::<M, I>(seed, max_amount, k),
    decreases n,
{
    if n > 0 {
        if k < n {
            lemma_sim_prefix::<M, I>(seed, max_amount, k, (n - 1) as nat);
        }
        lemma_sim_prefix::<M, I>(seed, max_amount, (n - 1) as nat, (n - 1) as nat);
        let full = sim_history::<M, I>(seed, max_amount, n);
        let shorter = sim_history::<M, I>(seed, max_amount, (n - 1) as nat);
        assert(full.subrange(0, (n - 1) as int) =~= shorter);
        if k == n {
            assert(full.subrange(0, k as int) =~= full);
        } else {
            assert(full.subrange(0, k as int) =~= shorter.subrange(0, k as int));
        }
    } else {
        assert(sim_history::<M, I>(seed, max_amount, n).subrange(0, k as int) =~= Seq::<StepModel>::empty());
    }
}

/// Runs one case: fresh subjects, identical seeding, then `config.steps`
/// generated operations, stopping at the first divergence.
fn run_case<M: Subject, I: Subject>(config: &FuzzConfig, case_index: u64, seed: u64) -> (r: Result<(), RunError>)
    ensures
        r matches Err(RunError::Diverged(f)) ==> {
            &&& f.seed == seed
            &&& f.case_index == case_index
            &&& f.step_index < config.steps
            &&& reports_divergence(f, config.max_amount)
            &&& both_modelled::<M, I>() ==> case_failure::<M, I>(f, config.max_amount)
            &&& both_modelled::<M, I>() ==> !case_clean::<M, I>(seed, config.max_amount, config.steps as nat)
        },
        r matches Err(RunError::SeedingRejected { seed: s, case_index: c, op }) ==> {
            &&& s == seed
            &&& c == case_index
            &&& rejected_seed_deposit::<M, I>(op@, start_state(mix(seed, INIT_STREAM)), roster(), config.max_amount)
            &&& both_modelled::<M, I>() ==> !case_seeded::<M, I>(seed, config.max_amount)
        },
        r is Ok && both_modelled::<M, I>() ==> case_clean::<M, I>(seed, config.max_amount, config.steps as nat),
        r is Ok && both_modelled::<M, I>() ==> case_seeded::<M, I>(seed, config.max_amount),
        both_modelled::<M, I>() && case_seeded::<M, I>(seed, config.max_amount) ==> (r is Ok <==> case_clean::<M, I>(
            seed,
            config.max_amount,
            config.steps as nat,
        )),
{
    let (mut init_rng, mut rng) = make_rng_streams(seed);
    let accounts = default_accounts();
    let mut model = M::fresh();
    let mut implementation = I::fresh();
    let mut history: Vec<StepRecord> = Vec::new();
    match seed_initial_balances(&mut model, &mut implementation, &accounts, config.max_amount, &mut init_rng) {
        Ok(()) => {},
        Err(op) => {
            proof {
                assert(names_of(accounts@) == roster());
            }
            return Err(RunError::SeedingRejected { seed, case_index, op });
        },
    }
    let ghost s0 = rng.state;
    proof {
        assert(roster().len() == 5);
        assert(history_view(history@) =~= sim_history::<M, I>(seed, config.max_amount, 0));
    }
    let mut step_index: usize = 0;
    while step_index < config.steps
        invariant
            model.inv(),
            implementation.inv(),
            names_of(accounts@) == roster(),
            s0 == start_state(mix(seed, OP_STREAM)),
            step_index <= config.steps,
            history@.len() == step_index,
            ops_spec(s0, roster(), config.max_amount, step_index as nat) == (history_ops(history@), rng.state),
            forall|j: int| 0 <= j < step_index ==> (#[trigger] history@[j]).agrees_spec(),
            both_modelled::<M, I>() && step_index > 0 ==> snapshot_view(history@.last().model_snapshot@) == model.state(),
            both_modelled::<M, I>() && step_index > 0 ==> snapshot_view(history@.last().impl_snapshot@) == implementation.state(),
            both_modelled::<M, I>() && step_index == 0 ==> model.state() == seeded_state::<M>(seed, config.max_amount),
            both_modelled::<M, I>() && step_index == 0 ==> implementation.state() == seeded_state::<I>(seed, config.max_amount),
            both_modelled::<M, I>() ==> history_view(history@) == sim_history::<M, I>(seed, config.max_amount, step_index as nat),
            both_modelled::<M, I>() ==> case_seeded::<M, I>(seed, config.max_amount),
        decreases config.steps - step_index,
    {
        let ghost old_history = history@;
        let ghost m0 = model.state();
        let ghost i0 = implementation.state();
        proof {
            lemma_sim_prefix::<M, I>(seed, config.max_amount, step_index as nat, step_index as nat);
            if step_index > 0 {
                assert(history_view(history@).last() == record_view(history@.last()));
            }
        }
        let op = random_op(&mut rng, &accounts, config.max_amount);
        let outcome = advance(&mut model, &mut implementation, op, &mut history);
        proof {
            assert(history@ =~= old_history.push(history@.last()));
            assert(history_ops(history@) =~= history_ops(old_history).push(history@.last().op@));
            assert forall|j: int| 0 <= j < step_index implies (#[trigger] history@[j]).agrees_spec() by {
                assert(history@[j] == old_history[j]);
            }
            assert(case_ops(seed, config.max_amount, (step_index + 1) as nat)[step_index as int] == history@.last().op@);
            assert(history_view(history@) =~= history_view(old_history).push(record_view(history@.last())));
        }
        match outcome {
            Some(pre) => {
                let (model_pre, impl_pre) = pre;
                let f = failure_at(seed, case_index, history, model_pre, impl_pre);
                proof {
                    if both_modelled::<M, I>() {
                        lemma_failure_last_step::<M, I>(f, config.max_amount);
                        lemma_divergence_not_clean::<M, I>(
                            seed,
                            config.max_amount,
                            f.step_index as nat,
                            config.steps as nat,
                        );
                    }
                }
                return Err(RunError::Diverged(f));
            },
            None => {},
        }
        step_index = step_index + 1;
    }
    proof {
        if both_modelled::<M, I>() {
            assert forall|j: int| 0 <= j < config.steps implies step_agrees(
                #[trigger] sim_history::<M, I>(seed, config.max_amount, config.steps as nat)[j],
            ) by {
                assert(history@[j].agrees_spec());
                assert(history_view(history@)[j] == record_view(history@[j]));
            }
        }
    }
    Ok(())
}

/// Both subjects accept the seeding of every case of a campaign run with `config`.
pub open spec fn campaign_seeded<M: Subject, I: Subject>(config: FuzzConfig) -> bool {
    forall|c: u64| c < config.cases ==> #[trigger] case_seeded::<M, I>(case_seed(config.seed, c), config.max_amount)
}

/// Why a campaign stopped early.
#[derive(Debug)]
pub enum RunError {
    /// The two subjects diverged.
    Diverged(FuzzFailure),
    /// A subject rejected a deposit of the seeding phase: the subject breaks
    /// the interface, and no comparison of the case can be trusted.
    SeedingRejected { seed: u64, case_index: u64, op: Op },
}

/// Runs a campaign of `config.cases` cases, case `i` with seed
/// `config.seed + i` (wrapping), and stops at the first case that diverges
/// or whose seeding a subject rejects.
pub fn run<M: Subject, I: Subject>(config: &FuzzConfig) -> (r: Result<(), RunError>)
    ensures
        r matches Err(RunError::Diverged(f)) ==> {
            &&& f.case_index < config.cases
            &&& f.seed == case_seed(config.seed, f.case_index)
            &&& f.step_index < config.steps
            &&& reports_divergence(f, config.max_amount)
            &&& both_modelled::<M, I>() ==> campaign_failure::<M, I>(*config, f)
            &&& both_modelled::<M, I>() ==> !case_clean::<M, I>(f.seed, config.max_amount, config.steps as nat)
        },
        r matches Err(RunError::SeedingRejected { seed, case_index, op }) ==> {
            &&& case_index < config.cases
            &&& seed == case_seed(config.seed, case_index)
            &&& rejected_seed_deposit::<M, I>(op@, start_state(mix(seed, INIT_STREAM)), roster(), config.max_amount)
            &&& both_modelled::<M, I>() ==> !case_seeded::<M, I>(case_seed(config.seed, case_index), config.max_amount)
            &&& both_modelled::<M, I>() ==> forall|c: u64|
                c < case_index ==> #[trigger] case_seeded::<M, I>(case_seed(config.seed, c), config.max_amount)
            &&& both_modelled::<M, I>() ==> forall|c: u64|
                c < case_index ==> #[trigger] case_clean::<M, I>(
                    case_seed(config.seed, c),
                    config.max_amount,
                    config.steps as nat,
                )
        },
        r is Ok && both_modelled::<M, I>() ==> forall|c: u64|
            c < config.cases ==> #[trigger] case_clean::<M, I>(
                case_seed(config.seed, c),
                config.max_amount,
                config.steps as nat,
            ),
        both_modelled::<M, I>() && campaign_seeded::<M, I>(*config) ==> (r is Ok <==> forall|c: u64|
            c < config.cases ==> #[trigger] case_clean::<M, I>(
                case_seed(config.seed, c),
                config.max_amount,
                config.steps as nat,
            )),
{
    let mut case_index: u64 = 0;
    while case_index < config.cases
        invariant
            case_index <= config.cases,
            both_modelled::<M, I>() ==> forall|c: u64|
                c < case_index ==> #[trigger] case_clean::<M, I>(
                    case_seed(config.seed, c),
                    config.max_amount,
                    config.steps as nat,
                ),
            both_modelled::<M, I>() ==> forall|c: u64|
                c < case_index ==> #[trigger] case_seeded::<M, I>(case_seed(config.seed, c), config.max_amount),
        decreases config.cases - case_index,
    {
        let this_seed = config.seed.wrapping_add(case_index);
        let outcome = run_case::<M, I>(config, case_index, this_seed);
        match outcome {
            Err(RunError::Diverged(f)) => {
                proof {
                    if both_modelled::<M, I>() && campaign_seeded::<M, I>(*config) {
                        assert(!case_clean::<M, I>(
                            case_seed(config.seed, case_index),
                            config.max_amount,
                            config.steps as nat,
                        ));
                    }
                }
                return Err(RunError::Diverged(f));
            },
            Err(RunError::SeedingRejected { seed, case_index: c, op }) => {
                proof {
                    if both_modelled::<M, I>() && campaign_seeded::<M, I>(*config) {
                        assert(case_seeded::<M, I>(case_seed(config.seed, case_index), config.max_amount));
                    }
                }
                return Err(RunError::SeedingRejected { seed, case_index: c, op });
            },
            Ok(()) => {},
        }
        case_index = case_index + 1;
    }
    Ok(())
}

/// The default base seed for a clock reading of `secs` seconds and `nanos`
/// nanoseconds: the seconds with the nanoseconds folded into the high half.
pub fn seed_from_clock(secs: u64, nanos: u32) -> (r: u64)
    ensures
        r == secs ^ ((nanos as u64) << 32u64),
{
    secs ^ ((nanos as u64) << 32u64)
}

/// A diverging step of the case's run rules out a clean run of any length
/// that reaches it.
proof fn lemma_divergence_not_clean<M: Subject, I: Subject>(seed: u64, max_amount: u64, k: nat, n: nat)
    requires
        k < n,
        !step_agrees(sim_history::<M, I>(seed, max_amount, k + 1)[k as int]),
    ensures
        !case_clean::<M, I>(seed, max_amount, n),
{
    lemma_sim_prefix::<M, I>(seed, max_amount, k + 1, n);
    lemma_sim_prefix::<M, I>(seed, max_amount, k + 1, k + 1);
    assert(sim_history::<M, I>(seed, max_amount, n)[k as int] == sim_history::<M, I>(seed, max_amount, n).subrange(
        0,
        (k + 1) as int,
    )[k as int]);
}

/// The last record of a failure's history, as simulated, does not agree.
proof fn lemma_failure_last_step<M: Subject, I: Subject>(f: FuzzFailure, max_amount: u64)
    requires
        case_failure::<M, I>(f, max_amount),
    ensures
        !step_agrees(sim_history::<M, I>(f.seed, max_amount, (f.step_index + 1) as nat)[f.step_index as int]),
{
    assert(history_view(f.history@)[f.step_index as int] == record_view(f.history@[f.step_index as int]));
}

/// A campaign's outcome is determined by its parameters and the two subject
/// types: two runs with the same configuration that both report a failure
/// report the same case, the same step, and step records with the same
/// operations, outcomes and snapshots.
pub proof fn law_same_parameters_same_failure<M: Subject, I: Subject>(
    config: FuzzConfig,
    f1: FuzzFailure,
    f2: FuzzFailure,
)
    requires
        campaign_failure::<M, I>(config, f1),
        campaign_failure::<M, I>(config, f2),
    ensures
        f1.case_index == f2.case_index,
        f1.seed == f2.seed,
        f1.step_index == f2.step_index,
        history_view(f1.history@) == history_view(f2.history@),
        snapshot_view(f1.model_pre_snapshot@) == snapshot_view(f2.model_pre_snapshot@),
        snapshot_view(f1.impl_pre_snapshot@) == snapshot_view(f2.impl_pre_snapshot@),
{
    let max = config.max_amount;
    let steps = config.steps as nat;
    lemma_failure_last_step::<M, I>(f1, max);
    lemma_failure_last_step::<M, I>(f2, max);
    if f1.case_index < f2.case_index {
        assert(case_clean::<M, I>(case_seed(config.seed, f1.case_index), max, steps));
        lemma_divergence_not_clean::<M, I>(f1.seed, max, f1.step_index as nat, steps);
    }
    if f2.case_index < f1.case_index {
        assert(case_clean::<M, I>(case_seed(config.seed, f2.case_index), max, steps));
        lemma_divergence_not_clean::<M, I>(f2.seed, max, f2.step_index as nat, steps);
    }
    assert(f1.seed == f2.seed);
    let seed = f1.seed;
    if f1.step_index < f2.step_index {
        let k = f1.step_index as int;
        lemma_sim_prefix::<M, I>(seed, max, (k + 1) as nat, (f2.step_index + 1) as nat);
        assert(history_view(f2.history@)[k] == record_view(f2.history@[k]));
        assert(f2.history@[k].agrees_spec());
        assert(sim_history::<M, I>(seed, max, (f2.step_index + 1) as nat)[k] == sim_history::<M, I>(
            seed,
            max,
            (f2.step_index + 1) as nat,
        ).subrange(0, k + 1)[k]);
    }
    if f2.step_index < f1.step_index {
        let k = f2.step_index as int;
        lemma_sim_prefix::<M, I>(seed, max, (k + 1) as nat, (f1.step_index + 1) as nat);
        assert(history_view(f1.history@)[k] == record_view(f1.history@[k]));
        assert(f1.history@[k].agrees_spec());
        assert(sim_history::<M, I>(seed, max, (f1.step_index + 1) as nat)[k] == sim_history::<M, I>(
            seed,
            max,
            (f1.step_index + 1) as nat,
        ).subrange(0, k + 1)[k]);
    }
    assert(f1.step_index == f2.step_index);
    if f1.step_index > 0 {
        let k = f1.step_index - 1;
        assert(history_view(f1.history@)[k] == record_view(f1.history@[k]));
        assert(history_view(f2.history@)[k] == record_view(f2.history@[k]));
    }
}

/// The configuration that replays the case of a reported failure: one case,
/// with the failure's seed and as many steps as its history holds.
pub open spec fn failure_replay_config(config: FuzzConfig, f: FuzzFailure) -> FuzzConfig {
    FuzzConfig { seed: f.seed, cases: 1, steps: f.history@.len() as usize, max_amount: config.max_amount }
}

/// Replaying a reported failure reproduces it: the replay cannot complete
/// without divergence, and the failure it reports is at the same step, with
/// the same history and the same snapshots before that step.
pub proof fn law_replay_reproduces_failure<M: Subject, I: Subject>(
    config: FuzzConfig,
    f: FuzzFailure,
    g: FuzzFailure,
)
    requires
        campaign_failure::<M, I>(config, f),
    ensures
        !case_clean::<M, I>(case_seed(f.seed, 0), config.max_amount, f.history@.len() as nat),
        campaign_seeded::<M, I>(failure_replay_config(config, f)),
        campaign_failure::<M, I>(failure_replay_config(config, f), g) ==> {
            &&& g.case_index == 0
            &&& g.seed == f.seed
            &&& g.step_index == f.step_index
            &&& history_view(g.history@) == history_view(f.history@)
            &&& snapshot_view(g.model_pre_snapshot@) == snapshot_view(f.model_pre_snapshot@)
            &&& snapshot_view(g.impl_pre_snapshot@) == snapshot_view(f.impl_pre_snapshot@)
        },
{
    let max = config.max_amount;
    assert(case_seed(f.seed, 0) == f.seed);
    lemma_failure_last_step::<M, I>(f, max);
    lemma_divergence_not_clean::<M, I>(f.seed, max, f.step_index as nat, (f.step_index + 1) as nat);
    if campaign_failure::<M, I>(failure_replay_config(config, f), g) {
        let replay = failure_replay_config(config, f);
        let same = FuzzFailure { case_index: 0, ..f };
        assert(g.case_index == 0);
        assert(g.seed == f.seed);
        law_same_parameters_same_failure::<M, I>(replay, g, same);
    }
}

/// A campaign stops at its first failing case: a failure reported with
/// `config` is reported unchanged by any campaign with the same parameters
/// and more cases, since no case after it is generated.
pub proof fn law_later_cases_do_not_matter<M: Subject, I: Subject>(config: FuzzConfig, f: FuzzFailure, cases: u64)
    requires
        campaign_failure::<M, I>(config, f),
        cases > f.case_index,
    ensures
        campaign_failure::<M, I>(FuzzConfig { cases, ..config }, f),
{
}

/// Two subjects of the same modelled type never diverge: every step of every
/// case agrees.
pub proof fn law_identical_subjects_agree<M: Subject>(seed: u64, max_amount: u64, n: nat)
    ensures
        case_clean::<M, M>(seed, max_amount, n),
        n > 0 ==> sim_history::<M, M>(seed, max_amount, n).last().model_state == sim_history::<M, M>(
            seed,
            max_amount,
            n,
        ).last().impl_state,
    decreases n,
{
    lemma_sim_prefix::<M, M>(seed, max_amount, n, n);
    if n > 0 {
        law_identical_subjects_agree::<M>(seed, max_amount, (n - 1) as nat);
        lemma_sim_prefix::<M, M>(seed, max_amount, (n - 1) as nat, (n - 1) as nat);
        let full = sim_history::<M, M>(seed, max_amount, n);
        let prev = sim_history::<M, M>(seed, max_amount, (n - 1) as nat);
        assert forall|j: int| 0 <= j < n implies step_agrees(#[trigger] full[j]) by {
            if j < n - 1 {
                assert(full[j] == prev[j]);
            }
        }
    }
}

/// A campaign in replay mode: one case, with the seed, step count and amount
/// bound of `config`.
pub fn replay_config(config: &FuzzConfig) -> (r: FuzzConfig)
    ensures
        r == (FuzzConfig { cases: 1, ..*config }),
{
    FuzzConfig { seed: config.seed, cases: 1, steps: config.steps, max_amount: config.max_amount }
}

/// In the first case of a campaign, a failure does not depend on the step
/// budget: any budget that reaches its step reports it unchanged, since the
/// steps after a divergence are never run.
pub proof fn law_more_steps_same_failure<M: Subject, I: Subject>(config: FuzzConfig, f: FuzzFailure, steps: usize)
    requires
        campaign_failure::<M, I>(config, f),
        f.case_index == 0,
        steps > f.step_index,
    ensures
        campaign_failure::<M, I>(FuzzConfig { steps, ..config }, f),
{
}

/// The ledger under test and the reference ledger accept every deposit.
pub proof fn law_ledgers_accept_deposits(s: Seq<(Seq<char>, u64)>, account: Seq<char>, amount: u64)
    ensures
        ledger_outcome(s, OpModel::Deposit { account, amount }) is Ok,
        reference_outcome(s, OpModel::Deposit { account, amount }) is Ok,
{
}

/// Subjects that accept every deposit accept the seeding of every case.
pub proof fn lemma_deposits_accepted_seeded<M: Subject, I: Subject>(seed: u64, max_amount: u64)
    requires
        forall|s: Seq<(Seq<char>, u64)>, op: OpModel| (op is Deposit) ==> (#[trigger] M::outcome_of(s, op)) is Ok,
        forall|s: Seq<(Seq<char>, u64)>, op: OpModel| (op is Deposit) ==> (#[trigger] I::outcome_of(s, op)) is Ok,
    ensures
        case_seeded::<M, I>(seed, max_amount),
{
    let state = start_state(mix(seed, INIT_STREAM));
    assert forall|i: nat| i < roster().len() implies #[trigger] deposit_accepted::<M, I>(
        state,
        roster(),
        max_amount,
        i,
    ) by {
        let op = seed_deposit::<M>(state, roster(), max_amount, i);
        assert(M::outcome_of(seeded::<M>(state, roster(), max_amount, i).0, op) is Ok);
        assert(I::outcome_of(seeded::<I>(state, roster(), max_amount, i).0, op) is Ok);
    }
}

/// Every campaign between the two ledgers of this library, in either role or
/// against itself, gets past seeding; so such a campaign succeeds exactly when
/// every case runs all its steps without divergence, and always succeeds with
/// no steps.
pub proof fn law_ledger_campaigns_seeded(config: FuzzConfig)
    ensures
        campaign_seeded::<ReferenceLedger, Ledger>(config),
        campaign_seeded::<Ledger, ReferenceLedger>(config),
        campaign_seeded::<ReferenceLedger, ReferenceLedger>(config),
        campaign_seeded::<Ledger, Ledger>(config),
        config.steps == 0 ==> forall|c: u64|
            c < config.cases ==> #[trigger] case_clean::<ReferenceLedger, Ledger>(
                case_seed(config.seed, c),
                config.max_amount,
                0,
            ),
{
    assert forall|s: Seq<(Seq<char>, u64)>, op: OpModel| (op is Deposit) implies (
    #[trigger] Ledger::outcome_of(s, op)) is Ok by {}
    assert forall|s: Seq<(Seq<char>, u64)>, op: OpModel| (op is Deposit) implies (
    #[trigger] ReferenceLedger::outcome_of(s, op)) is Ok by {}
    assert forall|c: u64| c < config.cases implies #[trigger] case_seeded::<ReferenceLedger, Ledger>(
        case_seed(config.seed, c),
        config.max_amount,
    ) by {
        lemma_deposits_accepted_seeded::<ReferenceLedger, Ledger>(case_seed(config.seed, c), config.max_amount);
    }
    assert forall|c: u64| c < config.cases implies #[trigger] case_seeded::<Ledger, ReferenceLedger>(
        case_seed(config.seed, c),
        config.max_amount,
    ) by {
        lemma_deposits_accepted_seeded::<Ledger, ReferenceLedger>(case_seed(config.seed, c), config.max_amount);
    }
    assert forall|c: u64| c < config.cases implies #[trigger] case_seeded::<ReferenceLedger, ReferenceLedger>(
        case_seed(config.seed, c),
        config.max_amount,
    ) by {
        lemma_deposits_accepted_seeded::<ReferenceLedger, ReferenceLedger>(
            case_seed(config.seed, c),
            config.max_amount,
        );
    }
    assert forall|c: u64| c < config.cases implies #[trigger] case_seeded::<Ledger, Ledger>(
        case_seed(config.seed, c),
        config.max_amount,
    ) by {
        lemma_deposits_accepted_seeded::<Ledger, Ledger>(case_seed(config.seed, c), config.max_amount);
    }
}

} // verus!
