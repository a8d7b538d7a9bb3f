use vstd::prelude::*;

use crate::op::{ApplyError, ApplyErrorModel, Op, OpModel};
use crate::subject::Subject;
use crate::table::{balance_of, canonical, snapshot_view, BalanceTable};

verus! {

/// `a + b`, held at `u64::MAX` where it would not fit.
pub open spec fn sat_add(a: u64, b: u64) -> u64 {
    if a + b > u64::MAX {
        u64::MAX
    } else {
        (a + b) as u64
    }
}

/// The outcome of `op` on the ledger under test in state `s`: a withdrawal
/// needs a balance strictly greater than the amount, and so does a transfer
/// from its source.
pub open spec fn ledger_outcome(s: Seq<(Seq<char>, u64)>, op: OpModel) -> Result<(), ApplyErrorModel> {
    match op {
        OpModel::Deposit { .. } => Ok(()),
        OpModel::Withdraw { account, amount } => if balance_of(s, account) <= amount {
            Err(ApplyErrorModel::InsufficientFunds { account, balance: balance_of(s, account), amount })
        } else {
            Ok(())
        },
        OpModel::Transfer { from, amount, .. } => if balance_of(s, from) <= amount {
            Err(ApplyErrorModel::InsufficientFunds { account: from, balance: balance_of(s, from), amount })
        } else {
            Ok(())
        },
    }
}

/// The balance of `k` after `op` on the ledger under test in state `s`. A
/// transfer takes the amount from its source and puts it back there, so no
/// balance changes and the destination is never credited.
pub open spec fn ledger_balance_after(s: Seq<(Seq<char>, u64)>, op: OpModel, k: Seq<char>) -> u64 {
    match op {
        OpModel::Deposit { account, amount } => if k == account {
            sat_add(balance_of(s, k), amount)
        } else {
            balance_of(s, k)
        },
        OpModel::Withdraw { account, amount } => if k == account && balance_of(s, k) > amount {
            (balance_of(s, k) - amount) as u64
        } else {
            balance_of(s, k)
        },
        OpModel::Transfer { .. } => balance_of(s, k),
    }
}

/// The implementation under test: balances kept per account, with the
/// withdrawal and transfer rules of [`ledger_outcome`] and
/// [`ledger_balance_after`].
#[derive(Clone, Debug)]
pub struct Ledger {
    balances: BalanceTable,
}

impl View for Ledger {
    type V = Seq<(Seq<char>, u64)>;

    closed spec fn view(&self) -> Seq<(Seq<char>, u64)> {
        self.balances@
    }
}

impl Ledger {
    pub open spec fn wf(&self) -> bool {
        canonical(self@)
    }

    pub fn new() -> (r: Self)
        ensures
            r.wf(),
            r@ == Seq::<(Seq<char>, u64)>::empty(),
    {
        Ledger { balances: BalanceTable::new() }
    }

    pub fn apply(&mut self, op: &Op) -> (r: Result<(), ApplyError>)
        requires
            old(self).wf(),
        ensures
            final(self).wf(),
            crate::op::outcome_view(r) == ledger_outcome(old(self)@, op@),
            forall|k: Seq<char>|
                #[trigger] balance_of(final(self)@, k) == ledger_balance_after(old(self)@, op@, k),
    {
        match op {
            Op::Deposit { account, amount } => self.deposit(account, *amount),
            Op::Withdraw { account, amount } => self.withdraw(account, *amount),
            Op::Transfer { from, to, amount } => self.transfer(from, to, *amount),
        }
    }

    /// The accounts with a positive balance, sorted by name.
    pub fn snapshot(&self) -> (r: Vec<(String, u64)>)
        requires
            self.wf(),
        ensures
            snapshot_view(r@) == self@,
            canonical(snapshot_view(r@)),
    {
        self.balances.entries()
    }

    /// The balance of `account`: 0 if it has none.
    pub fn balance(&self, account: &String) -> (r: u64)
        requires
            self.wf(),
        ensures
            r == balance_of(self@, account@),
    {
        self.balances.balance(account)
    }

    fn set_balance(&mut self, account: &String, balance: u64)
        requires
            old(self).wf(),
        ensures
            final(self).wf(),
            forall|k: Seq<char>|
                #[trigger] balance_of(final(self)@, k) == if k == account@ {
                    balance
                } else {
                    balance_of(old(self)@, k)
                },
    {
        self.balances.set_balance(account, balance);
    }

    fn deposit(&mut self, account: &String, amount: u64) -> (r: Result<(), ApplyError>)
        requires
            old(self).wf(),
        ensures
            final(self).wf(),
            r is Ok,
            forall|k: Seq<char>|
                #[trigger] balance_of(final(self)@, k) == if k == account@ {
                    sat_add(balance_of(old(self)@, k), amount)
                } else {
                    balance_of(old(self)@, k)
                },
    {
        let balance = self.balance(account);
        let next = balance.saturating_add(amount);
        self.set_balance(account, next);
        Ok(())
    }

    fn withdraw(&mut self, account: &String, amount: u64) -> (r: Result<(), ApplyError>)
        requires
            old(self).wf(),
        ensures
            final(self).wf(),
            crate::op::outcome_view(r) == ledger_outcome(
                old(self)@,
                OpModel::Withdraw { account: account@, amount },
            ),
            forall|k: Seq<char>|
                #[trigger] balance_of(final(self)@, k) == ledger_balance_after(
                    old(self)@,
                    OpModel::Withdraw { account: account@, amount },
                    k,
                ),
    {
        let balance = self.balance(account);
        if balance <= amount {
            return Err(ApplyError::InsufficientFunds { account: account.clone(), balance, amount });
        }
        self.set_balance(account, balance - amount);
        Ok(())
    }

    fn transfer(&mut self, from: &String, to: &String, amount: u64) -> (r: Result<(), ApplyError>)
        requires
            old(self).wf(),
        ensures
            final(self).wf(),
            crate::op::outcome_view(r) == ledger_outcome(
                old(self)@,
                OpModel::Transfer { from: from@, to: to@, amount },
            ),
            forall|k: Seq<char>| #[trigger] balance_of(final(self)@, k) == balance_of(old(self)@, k),
    {
        let ghost s0 = self@;
        let r = self.withdraw(from, amount);
        if r.is_err() {
            return r;
        }
        let r2 = self.deposit(from, amount);
        assert forall|k: Seq<char>| #[trigger] balance_of(self@, k) == balance_of(s0, k) by {
            if k == from@ {
                assert(balance_of(s0, k) > amount);
            }
        }
        r2
    }
}

impl Subject for Ledger {
    open spec fn modelled() -> bool {
        true
    }

    closed spec fn state(&self) -> Seq<(Seq<char>, u64)> {
        self@
    }

    closed spec fn inv(&self) -> bool {
        self.wf()
    }

    open spec fn outcome_of(s: Seq<(Seq<char>, u64)>, op: OpModel) -> Result<(), ApplyErrorModel> {
        ledger_outcome(s, op)
    }

    open spec fn balance_after(s: Seq<(Seq<char>, u64)>, op: OpModel, k: Seq<char>) -> u64 {
        ledger_balance_after(s, op, k)
    }

    fn fresh() -> (r: Self) {
        Ledger::new()
    }

    fn apply(&mut self, op: &Op) -> (r: Result<(), ApplyError>) {
        Ledger::apply(self, op)
    }

    fn snapshot(&self) -> (r: Vec<(String, u64)>) {
        Ledger::snapshot(self)
    }
}

} // verus!
