use verified_ledger::ledger::Ledger;
use verified_ledger::names::name_less;
use verified_ledger::op::{ApplyError, Op};
use verified_ledger::reference::ReferenceLedger;

fn s(x: &str) -> String {
    x.to_string()
}

fn deposit(a: &str, amount: u64) -> Op {
    Op::Deposit { account: s(a), amount }
}

fn withdraw(a: &str, amount: u64) -> Op {
    Op::Withdraw { account: s(a), amount }
}

fn transfer(from: &str, to: &str, amount: u64) -> Op {
    Op::Transfer { from: s(from), to: s(to), amount }
}

#[test]
fn reference_transfer_moves_funds() {
    let mut r = ReferenceLedger::new();
    assert_eq!(r.apply(&deposit("alice", 100)), Ok(()));
    assert_eq!(r.apply(&transfer("alice", "bob", 40)), Ok(()));
    assert_eq!(r.snapshot(), vec![(s("alice"), 60), (s("bob"), 40)]);
}

#[test]
fn reference_withdraw_whole_balance_succeeds() {
    let mut r = ReferenceLedger::new();
    r.apply(&deposit("alice", 10)).unwrap();
    assert_eq!(r.apply(&withdraw("alice", 10)), Ok(()));
    assert_eq!(r.snapshot(), vec![]);
    assert_eq!(r.balance(&s("alice")), 0);
}

#[test]
fn reference_rejects_overdraft_with_payload() {
    let mut r = ReferenceLedger::new();
    r.apply(&deposit("carol", 5)).unwrap();
    assert_eq!(
        r.apply(&withdraw("carol", 6)),
        Err(ApplyError::InsufficientFunds { account: s("carol"), balance: 5, amount: 6 })
    );
    assert_eq!(
        r.apply(&transfer("dave", "carol", 1)),
        Err(ApplyError::InsufficientFunds { account: s("dave"), balance: 0, amount: 1 })
    );
    assert_eq!(r.snapshot(), vec![(s("carol"), 5)]);
}

#[test]
fn reference_transfer_to_self_keeps_balance() {
    let mut r = ReferenceLedger::new();
    r.apply(&deposit("bob", 7)).unwrap();
    assert_eq!(r.apply(&transfer("bob", "bob", 7)), Ok(()));
    assert_eq!(r.snapshot(), vec![(s("bob"), 7)]);
}

#[test]
fn deposits_saturate() {
    let mut r = ReferenceLedger::new();
    r.apply(&deposit("erin", u64::MAX - 1)).unwrap();
    r.apply(&deposit("erin", 5)).unwrap();
    assert_eq!(r.balance(&s("erin")), u64::MAX);
    let mut l = Ledger::new();
    l.apply(&deposit("erin", u64::MAX)).unwrap();
    l.apply(&deposit("erin", 1)).unwrap();
    assert_eq!(l.balance(&s("erin")), u64::MAX);
}

#[test]
fn ledger_withdraw_needs_strictly_more() {
    let mut l = Ledger::new();
    l.apply(&deposit("alice", 10)).unwrap();
    assert_eq!(
        l.apply(&withdraw("alice", 10)),
        Err(ApplyError::InsufficientFunds { account: s("alice"), balance: 10, amount: 10 })
    );
    assert_eq!(l.apply(&withdraw("alice", 9)), Ok(()));
    assert_eq!(l.snapshot(), vec![(s("alice"), 1)]);
}

#[test]
fn ledger_transfer_never_credits_destination() {
    let mut l = Ledger::new();
    l.apply(&deposit("alice", 100)).unwrap();
    assert_eq!(l.apply(&transfer("alice", "bob", 40)), Ok(()));
    assert_eq!(l.snapshot(), vec![(s("alice"), 100)]);
    assert_eq!(l.balance(&s("bob")), 0);
    assert_eq!(
        l.apply(&transfer("bob", "alice", 1)),
        Err(ApplyError::InsufficientFunds { account: s("bob"), balance: 0, amount: 1 })
    );
}

#[test]
fn snapshot_is_sorted_and_positive() {
    let mut l = Ledger::new();
    for name in ["erin", "bob", "dave", "alice", "carol"] {
        l.apply(&deposit(name, 3)).unwrap();
    }
    l.apply(&withdraw("dave", 2)).unwrap();
    let snap = l.snapshot();
    assert_eq!(
        snap,
        vec![(s("alice"), 3), (s("bob"), 3), (s("carol"), 3), (s("dave"), 1), (s("erin"), 3)]
    );
    assert_eq!(l.snapshot(), snap);
    let mut r = ReferenceLedger::new();
    r.apply(&deposit("bob", 4)).unwrap();
    r.apply(&deposit("alice", 4)).unwrap();
    r.apply(&withdraw("bob", 4)).unwrap();
    assert_eq!(r.snapshot(), vec![(s("alice"), 4)]);
    assert_eq!(r.snapshot(), r.snapshot());
}

#[test]
fn names_order_like_strings() {
    assert!(name_less(&s("alice"), &s("bob")));
    assert!(!name_less(&s("bob"), &s("alice")));
    assert!(name_less(&s("al"), &s("alice")));
    assert!(!name_less(&s("alice"), &s("alice")));
    assert!(name_less(&s(""), &s("a")));
    assert!(name_less(&s("Zed"), &s("abe")));
}
