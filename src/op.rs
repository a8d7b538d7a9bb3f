use vstd::prelude::*;
use vstd::string::StringExecFns;

verus! {

/// A ledger operation.
#[derive(Debug)]
pub enum Op {
    Deposit { account: String, amount: u64 },
    Withdraw { account: String, amount: u64 },
    Transfer { from: String, to: String, amount: u64 },
}

/// The mathematical value of an [`Op`]: account names as character sequences.
pub enum OpModel {
    Deposit { account: Seq<char>, amount: u64 },
    Withdraw { account: Seq<char>, amount: u64 },
    Transfer { from: Seq<char>, to: Seq<char>, amount: u64 },
}

impl View for Op {
    type V = OpModel;

    open spec fn view(&self) -> OpModel {
        match self {
            Op::Deposit { account, amount } => OpModel::Deposit { account: account@, amount: *amount },
            Op::Withdraw { account, amount } => OpModel::Withdraw { account: account@, amount: *amount },
            Op::Transfer { from, to, amount } => OpModel::Transfer {
                from: from@,
                to: to@,
                amount: *amount,
            },
        }
    }
}

/// The business error a subject may return from `apply`.
#[derive(Debug)]
pub enum ApplyError {
    InsufficientFunds { account: String, balance: u64, amount: u64 },
}

/// The mathematical value of an [`ApplyError`].
pub enum ApplyErrorModel {
    InsufficientFunds { account: Seq<char>, balance: u64, amount: u64 },
}

impl View for ApplyError {
    type V = ApplyErrorModel;

    open spec fn view(&self) -> ApplyErrorModel {
        match self {
            ApplyError::InsufficientFunds { account, balance, amount } =>
                ApplyErrorModel::InsufficientFunds {
                account: account@,
                balance: *balance,
                amount: *amount,
            },
        }
    }
}

/// The value of the outcome of one `apply`.
pub open spec fn outcome_view(r: Result<(), ApplyError>) -> Result<(), ApplyErrorModel> {
    match r {
        Ok(()) => Ok(()),
        Err(e) => Err(e@),
    }
}

impl Op {
    /// A copy of this operation.
    pub fn duplicate(&self) -> (r: Op)
        ensures
            r@ == self@,
    {
        match self {
            Op::Deposit { account, amount } => Op::Deposit { account: account.clone(), amount: *amount },
            Op::Withdraw { account, amount } => Op::Withdraw { account: account.clone(), amount: *amount },
            Op::Transfer { from, to, amount } => Op::Transfer {
                from: from.clone(),
                to: to.clone(),
                amount: *amount,
            },
        }
    }

    /// The amount this operation moves.
    pub fn amount(&self) -> (r: u64)
        ensures
            r == self.amount_spec(),
    {
        match self {
            Op::Deposit { amount, .. } => *amount,
            Op::Withdraw { amount, .. } => *amount,
            Op::Transfer { amount, .. } => *amount,
        }
    }
}

impl ApplyError {
    /// A copy of this error.
    pub fn duplicate(&self) -> (r: ApplyError)
        ensures
            r@ == self@,
    {
        match self {
            ApplyError::InsufficientFunds { account, balance, amount } =>
                ApplyError::InsufficientFunds {
                account: account.clone(),
                balance: *balance,
                amount: *amount,
            },
        }
    }
}

/// A copy of the outcome of one `apply`.
pub fn duplicate_outcome(r: &Result<(), ApplyError>) -> (c: Result<(), ApplyError>)
    ensures
        outcome_view(c) == outcome_view(*r),
{
    match r {
        Ok(()) => Ok(()),
        Err(e) => Err(e.duplicate()),
    }
}

/// Structural equality of two outcomes: both `Ok`, or both `Err` with the same
/// account, balance and amount.
pub fn same_outcome(a: &Result<(), ApplyError>, b: &Result<(), ApplyError>) -> (r: bool)
    ensures
        r == (outcome_view(*a) == outcome_view(*b)),
{
    match (a, b) {
        (Ok(()), Ok(())) => true,
        (Err(x), Err(y)) => x == y,
        _ => false,
    }
}

impl PartialEq for Op {
    fn eq(&self, other: &Op) -> (r: bool) {
        match (self, other) {
            (Op::Deposit { account: a, amount: x }, Op::Deposit { account: b, amount: y }) =>
                *a == *b && x == y,
            (Op::Withdraw { account: a, amount: x }, Op::Withdraw { account: b, amount: y }) =>
                *a == *b && x == y,
            (
                Op::Transfer { from: f1, to: t1, amount: x },
                Op::Transfer { from: f2, to: t2, amount: y },
            ) => *f1 == *f2 && *t1 == *t2 && x == y,
            _ => false,
        }
    }
}

impl vstd::std_specs::cmp::PartialEqSpecImpl for Op {
    open spec fn obeys_eq_spec() -> bool {
        true
    }

    open spec fn eq_spec(&self, other: &Op) -> bool {
        self@ == other@
    }
}

impl Eq for Op {

}

impl PartialEq for ApplyError {
    fn eq(&self, other: &ApplyError) -> (r: bool) {
        match (self, other) {
            (
                ApplyError::InsufficientFunds { account: a, balance: b1, amount: x },
                ApplyError::InsufficientFunds { account: c, balance: b2, amount: y },
            ) => *a == *c && b1 == b2 && x == y,
        }
    }
}

impl vstd::std_specs::cmp::PartialEqSpecImpl for ApplyError {
    open spec fn obeys_eq_spec() -> bool {
        true
    }

    open spec fn eq_spec(&self, other: &ApplyError) -> bool {
        self@ == other@
    }
}

impl Eq for ApplyError {

}

impl Clone for Op {
    fn clone(&self) -> (r: Op) {
        self.duplicate()
    }
}

impl Clone for ApplyError {
    fn clone(&self) -> (r: ApplyError) {
        self.duplicate()
    }
}

/// The decimal digit `d`.
pub open spec fn digit_char(d: nat) -> char {
    if d == 0 {
        '0'
    } else if d == 1 {
        '1'
    } else if d == 2 {
        '2'
    } else if d == 3 {
        '3'
    } else if d == 4 {
        '4'
    } else if d == 5 {
        '5'
    } else if d == 6 {
        '6'
    } else if d == 7 {
        '7'
    } else if d == 8 {
        '8'
    } else {
        '9'
    }
}

/// The decimal text of `n`, without leading zeros.
pub open spec fn decimal_text(n: nat) -> Seq<char>
    decreases n,
{
    if n < 10 {
        seq![digit_char(n)]
    } else {
        decimal_text(n / 10) + seq![digit_char(n % 10)]
    }
}

fn digit_text(d: u64) -> (r: &'static str)
    requires
        d < 10,
    ensures
        r@ == seq![digit_char(d as nat)],
{
    proof {
        reveal_strlit("0");
        reveal_strlit("1");
        reveal_strlit("2");
        reveal_strlit("3");
        reveal_strlit("4");
        reveal_strlit("5");
        reveal_strlit("6");
        reveal_strlit("7");
        reveal_strlit("8");
        reveal_strlit("9");
    }
    let r = if d == 0 {
        "0"
    } else if d == 1 {
        "1"
    } else if d == 2 {
        "2"
    } else if d == 3 {
        "3"
    } else if d == 4 {
        "4"
    } else if d == 5 {
        "5"
    } else if d == 6 {
        "6"
    } else if d == 7 {
        "7"
    } else if d == 8 {
        "8"
    } else {
        "9"
    };
    assert(r@ =~= seq![digit_char(d as nat)]);
    r
}

/// The decimal text of `n`.
pub fn decimal(n: u64) -> (r: String)
    ensures
        r@ == decimal_text(n as nat),
    decreases n,
{
    if n < 10 {
        <String as StringExecFns>::from_str(digit_text(n))
    } else {
        decimal(n / 10).concat(digit_text(n % 10))
    }
}

/// How an [`Op`] reads: `deposit(a, n)`, `withdraw(a, n)` or `transfer(a, b, n)`.
pub open spec fn op_text(op: OpModel) -> Seq<char> {
    match op {
        OpModel::Deposit { account, amount } => "deposit("@ + account + ", "@ + decimal_text(amount as nat) + ")"@,
        OpModel::Withdraw { account, amount } => "withdraw("@ + account + ", "@ + decimal_text(amount as nat) + ")"@,
        OpModel::Transfer { from, to, amount } => "transfer("@ + from + ", "@ + to + ", "@ + decimal_text(
            amount as nat,
        ) + ")"@,
    }
}

/// How an [`ApplyError`] reads.
pub open spec fn error_text(e: ApplyErrorModel) -> Seq<char> {
    match e {
        ApplyErrorModel::InsufficientFunds { account, balance, amount } => "insufficient funds: account="@
            + account + ", balance="@ + decimal_text(balance as nat) + ", amount="@ + decimal_text(
            amount as nat,
        ),
    }
}

impl Op {
    /// The operation as text, as in `transfer(alice, bob, 40)`.
    pub fn describe(&self) -> (r: String)
        ensures
            r@ == op_text(self@),
    {
        match self {
            Op::Deposit { account, amount } => {
                let t = <String as StringExecFns>::from_str("deposit(");
                let t = t.concat(account.as_str()).concat(", ");
                t.concat(decimal(*amount).as_str()).concat(")")
            },
            Op::Withdraw { account, amount } => {
                let t = <String as StringExecFns>::from_str("withdraw(");
                let t = t.concat(account.as_str()).concat(", ");
                t.concat(decimal(*amount).as_str()).concat(")")
            },
            Op::Transfer { from, to, amount } => {
                let t = <String as StringExecFns>::from_str("transfer(");
                let t = t.concat(from.as_str()).concat(", ").concat(to.as_str()).concat(", ");
                t.concat(decimal(*amount).as_str()).concat(")")
            },
        }
    }
}

impl ApplyError {
    /// The error as text, as in
    /// `insufficient funds: account=alice, balance=10, amount=10`.
    pub fn describe(&self) -> (r: String)
        ensures
            r@ == error_text(self@),
    {
        match self {
            ApplyError::InsufficientFunds { account, balance, amount } => {
                let t = <String as StringExecFns>::from_str("insufficient funds: account=");
                let t = t.concat(account.as_str()).concat(", balance=");
                let t = t.concat(decimal(*balance).as_str()).concat(", amount=");
                t.concat(decimal(*amount).as_str())
            },
        }
    }
}

/// The account whose funds decide an operation: the account of a deposit or
/// withdrawal, the source of a transfer.
pub open spec fn debited(op: OpModel) -> Seq<char> {
    match op {
        OpModel::Deposit { account, .. } => account,
        OpModel::Withdraw { account, .. } => account,
        OpModel::Transfer { from, .. } => from,
    }
}

impl Op {
    /// The account whose funds decide this operation.
    pub fn debited_account(&self) -> (r: &String)
        ensures
            r@ == debited(self@),
    {
        match self {
            Op::Deposit { account, .. } => account,
            Op::Withdraw { account, .. } => account,
            Op::Transfer { from, .. } => from,
        }
    }

    /// The error for this operation rejected while its debited account holds
    /// `balance`.
    pub fn rejection(&self, balance: u64) -> (r: ApplyError)
        ensures
            r@ == (ApplyErrorModel::InsufficientFunds {
                account: debited(self@),
                balance,
                amount: self.amount_spec(),
            }),
    {
        ApplyError::InsufficientFunds { account: self.debited_account().clone(), balance, amount: self.amount() }
    }

    /// The amount this operation moves.
    pub open spec fn amount_spec(&self) -> u64 {
        match self@ {
            OpModel::Deposit { amount, .. } => amount,
            OpModel::Withdraw { amount, .. } => amount,
            OpModel::Transfer { amount, .. } => amount,
        }
    }
}

} // verus!
