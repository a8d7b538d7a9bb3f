use vstd::prelude::*;
use vstd::string::StringExecFns;

use crate::op::{Op, OpModel};
use crate::rng::{xorshift_step, XorShift64};

verus! {

/// The names of a roster of accounts.
pub open spec fn names_of(accounts: Seq<String>) -> Seq<Seq<char>> {
    accounts.map_values(|a: String| a@)
}

/// The fixed roster shared by all cases.
pub open spec fn roster() -> Seq<Seq<char>> {
    seq!["alice"@, "bob"@, "carol"@, "dave"@, "erin"@]
}

/// The account drawn from generator state `state`, and the state after the draw.
pub open spec fn pick_spec(state: u64, accounts: Seq<Seq<char>>) -> (Seq<char>, u64) {
    let x = xorshift_step(state);
    (accounts[(x % (accounts.len() as u64)) as int], x)
}

/// Draws up to `tries` accounts looking for one other than `current`; where
/// every draw gives `current`, the first account of the roster.
pub open spec fn pick_different_spec(
    state: u64,
    accounts: Seq<Seq<char>>,
    current: Seq<char>,
    tries: nat,
) -> (Seq<char>, u64)
    decreases tries,
{
    if tries == 0 {
        (accounts[0], state)
    } else {
        let (c, s) = pick_spec(state, accounts);
        if c != current {
            (c, s)
        } else {
            pick_different_spec(s, accounts, current, (tries - 1) as nat)
        }
    }
}

/// The amount bound used for operations: `max_amount`, or 1 where it is 0.
pub open spec fn amount_bound(max_amount: u64) -> u64 {
    if max_amount == 0 {
        1
    } else {
        max_amount
    }
}

/// The operation generated from state `state`, and the state after it.
pub open spec fn op_spec(state: u64, accounts: Seq<Seq<char>>, max_amount: u64) -> (OpModel, u64) {
    let s1 = xorshift_step(state);
    let roll = s1 % 100;
    let s2 = xorshift_step(s1);
    let amount = (1 + s2 % amount_bound(max_amount)) as u64;
    let (first, s3) = pick_spec(s2, accounts);
    if roll < 45 {
        (OpModel::Deposit { account: first, amount }, s3)
    } else if roll < 75 {
        (OpModel::Withdraw { account: first, amount }, s3)
    } else {
        let (second, s4) = pick_spec(s3, accounts);
        if first == second {
            let (to, s5) = pick_different_spec(s4, accounts, first, accounts.len());
            (OpModel::Transfer { from: first, to, amount }, s5)
        } else {
            (OpModel::Transfer { from: first, to: second, amount }, s4)
        }
    }
}

/// The first `n` operations generated from state `state`, and the state after them.
pub open spec fn ops_spec(state: u64, accounts: Seq<Seq<char>>, max_amount: u64, n: nat) -> (Seq<OpModel>, u64)
    decreases n,
{
    if n == 0 {
        (Seq::empty(), state)
    } else {
        let (ops, s) = ops_spec(state, accounts, max_amount, (n - 1) as nat);
        let (op, s2) = op_spec(s, accounts, max_amount);
        (ops.push(op), s2)
    }
}

/// The fixed roster of accounts: alice, bob, carol, dave and erin.
pub fn default_accounts() -> (r: Vec<String>)
    ensures
        names_of(r@) == roster(),
{
    let mut r: Vec<String> = Vec::new();
    r.push(<String as StringExecFns>::from_str("alice"));
    r.push(<String as StringExecFns>::from_str("bob"));
    r.push(<String as StringExecFns>::from_str("carol"));
    r.push(<String as StringExecFns>::from_str("dave"));
    r.push(<String as StringExecFns>::from_str("erin"));
    assert(names_of(r@) =~= roster());
    r
}

/// Draws one account of the roster uniformly.
pub fn pick_account<'a>(rng: &mut XorShift64, accounts: &'a Vec<String>) -> (r: &'a String)
    requires
        accounts@.len() > 0,
    ensures
        (r@, final(rng).state) == pick_spec(old(rng).state, names_of(accounts@)),
{
    let index = (rng.next_u64() % (accounts.len() as u64)) as usize;
    &accounts[index]
}

/// Draws accounts until one differs from `current`, at most once per roster
/// entry; falls back to the first account.
pub fn pick_different_account<'a>(rng: &mut XorShift64, accounts: &'a Vec<String>, current: &String) -> (r: &'a String)
    requires
        accounts@.len() > 0,
    ensures
        (r@, final(rng).state) == pick_different_spec(
            old(rng).state,
            names_of(accounts@),
            current@,
            accounts@.len(),
        ),
{
    let n = accounts.len();
    let mut i: usize = 0;
    while i < n
        invariant
            n == accounts@.len(),
            n > 0,
            i <= n,
            pick_different_spec(old(rng).state, names_of(accounts@), current@, n as nat)
                == pick_different_spec(rng.state, names_of(accounts@), current@, (n - i) as nat),
        decreases n - i,
    {
        let candidate = pick_account(rng, accounts);
        if *candidate != *current {
            return candidate;
        }
        i = i + 1;
    }
    &accounts[0]
}

/// Generates one operation from the operations stream.
pub fn random_op(rng: &mut XorShift64, accounts: &Vec<String>, max_amount: u64) -> (r: Op)
    requires
        accounts@.len() > 0,
    ensures
        (r@, final(rng).state) == op_spec(old(rng).state, names_of(accounts@), max_amount),
{
    let roll = rng.next_u64() % 100;
    let bound = if max_amount == 0 {
        1
    } else {
        max_amount
    };
    let amount = 1 + rng.next_u64() % bound;
    let first = pick_account(rng, accounts);
    if roll < 45 {
        Op::Deposit { account: first.clone(), amount }
    } else if roll < 75 {
        Op::Withdraw { account: first.clone(), amount }
    } else {
        let second = pick_account(rng, accounts);
        if *first == *second {
            let to = pick_different_account(rng, accounts, first);
            Op::Transfer { from: first.clone(), to: to.clone(), amount }
        } else {
            Op::Transfer { from: first.clone(), to: second.clone(), amount }
        }
    }
}

/// Operation generation is reproducible: generating fewer operations from
/// the same state gives a prefix of the longer sequence, so the first `k`
/// operations do not depend on how many follow.
pub proof fn law_generation_prefix_stable(state: u64, accounts: Seq<Seq<char>>, max_amount: u64, k: nat, n: nat)
    requires
        k <= n,
    ensures
        ops_spec(state, accounts, max_amount, n).0.subrange(0, k as int) == ops_spec(
            state,
            accounts,
            max_amount,
            k,
        ).0,
        ops_spec(state, accounts, max_amount, n).0.len() == n,
    decreases n,
{
    if n > 0 {
        if k < n {
            law_generation_prefix_stable(state, accounts, max_amount, k, (n - 1) as nat);
        }
        law_generation_prefix_stable(state, accounts, max_amount, (n - 1) as nat, (n - 1) as nat);
        let full = ops_spec(state, accounts, max_amount, n).0;
        let shorter = ops_spec(state, accounts, max_amount, (n - 1) as nat).0;
        assert(full.subrange(0, (n - 1) as int) =~= shorter);
        if k == n {
            assert(full.subrange(0, k as int) =~= full);
        } else {
            assert(full.subrange(0, k as int) =~= shorter.subrange(0, k as int));
        }
    } else {
        assert(ops_spec(state, accounts, max_amount, n).0.subrange(0, k as int) =~= Seq::<OpModel>::empty());
    }
}

} // verus!
