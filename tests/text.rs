use verified_ledger::fuzz::compare_ops;
use verified_ledger::ledger::Ledger;
use verified_ledger::op::{decimal, ApplyError, Op};
use verified_ledger::reference::ReferenceLedger;
use verified_ledger::report::render_snapshot;

fn s(x: &str) -> String {
    x.to_string()
}

#[test]
fn decimal_text_values() {
    assert_eq!(decimal(0), "0");
    assert_eq!(decimal(7), "7");
    assert_eq!(decimal(10), "10");
    assert_eq!(decimal(1234567890), "1234567890");
    assert_eq!(decimal(u64::MAX), u64::MAX.to_string());
}

#[test]
fn operation_text() {
    assert_eq!(Op::Deposit { account: s("alice"), amount: 100 }.describe(), "deposit(alice, 100)");
    assert_eq!(Op::Withdraw { account: s("bob"), amount: 5 }.describe(), "withdraw(bob, 5)");
    assert_eq!(
        Op::Transfer { from: s("alice"), to: s("bob"), amount: 40 }.describe(),
        "transfer(alice, bob, 40)"
    );
}

#[test]
fn error_text() {
    let e = ApplyError::InsufficientFunds { account: s("carol"), balance: 3, amount: 9 };
    assert_eq!(e.describe(), "insufficient funds: account=carol, balance=3, amount=9");
}

#[test]
fn snapshot_text() {
    assert_eq!(render_snapshot(&vec![]), "[]");
    let snap = vec![(s("alice"), 60), (s("bob"), 40)];
    assert_eq!(render_snapshot(&snap), format!("{:?}", snap));
}

#[test]
fn failure_report_text() {
    let ops = vec![
        Op::Deposit { account: s("alice"), amount: 10 },
        Op::Withdraw { account: s("alice"), amount: 10 },
    ];
    let mut model = ReferenceLedger::new();
    let mut ledger = Ledger::new();
    let f = match compare_ops(&mut model, &mut ledger, &ops, 5, 2) {
        Err(f) => f,
        Ok(_) => panic!("defect not detected"),
    };
    let err = ApplyError::InsufficientFunds { account: s("alice"), balance: 10, amount: 10 };
    let expected = format!(
        "\nmismatch detected (case=2, step=1, seed=5)\n\
         ----------------------------------------\n\
         op            : withdraw(alice, 10)\n\
         model         : [(\"alice\", 10)]\n\
         impl          : Err({:?})\n\
         replay        : cargo run -- replay --seed 5 --steps 2\n\
         history:\n  0: <initial>\n     model: [(\"alice\", 10)]\n     impl : [(\"alice\", 10)]\n  \
         1: deposit(alice, 10)\n     model: [(\"alice\", 10)]\n     impl : [(\"alice\", 10)]\n  \
         2: withdraw(alice, 10)\n     model: []\n     impl : Err({:?})\n",
        err, err
    );
    assert_eq!(f.report(), expected);
}
