use vstd::prelude::*;

use crate::ledger::sat_add;
use crate::op::{outcome_view, ApplyError, ApplyErrorModel, Op, OpModel};
use crate::subject::Subject;
use crate::table::{balance_of, canonical, snapshot_view, BalanceTable};

verus! {

/// The outcome of `op` on the reference ledger in state `s`. A withdrawal, and
/// a transfer from its source, succeed exactly when the balance covers the
/// amount (`balance >= amount`); the error names the account that lacks funds.
pub open spec fn reference_outcome(s: Seq<(Seq<char>, u64)>, op: OpModel) -> Result<(), ApplyErrorModel> {
    match op {
        OpModel::Deposit { .. } => Ok(()),
        OpModel::Withdraw { account, amount } => if balance_of(s, account) < amount {
            Err(ApplyErrorModel::InsufficientFunds { account, balance: balance_of(s, account), amount })
        } else {
            Ok(())
        },
        OpModel::Transfer { from, amount, .. } => if balance_of(s, from) < amount {
            Err(ApplyErrorModel::InsufficientFunds { account: from, balance: balance_of(s, from), amount })
        } else {
            Ok(())
        },
    }
}

/// The balance of `k` after `op` on the reference ledger in state `s`. A
/// transfer is atomic: it either fails and changes nothing, or debits the
/// source and credits the destination; a transfer to the source itself changes
/// nothing. Credits are held at `u64::MAX`.
pub open spec fn reference_balance_after(s: Seq<(Seq<char>, u64)>, op: OpModel, k: Seq<char>) -> u64 {
    match op {
        OpModel::Deposit { account, amount } => if k == account {
            sat_add(balance_of(s, k), amount)
        } else {
            balance_of(s, k)
        },
        OpModel::Withdraw { account, amount } => if k == account && balance_of(s, k) >= amount {
            (balance_of(s, k) - amount) as u64
        } else {
            balance_of(s, k)
        },
        OpModel::Transfer { from, to, amount } => if balance_of(s, from) < amount || from == to {
            balance_of(s, k)
        } else if k == from {
            (balance_of(s, k) - amount) as u64
        } else if k == to {
            sat_add(balance_of(s, k), amount)
        } else {
            balance_of(s, k)
        },
    }
}

/// A reference ledger with the canonical rules of [`reference_outcome`] and
/// [`reference_balance_after`], to compare an implementation against.
#[derive(Clone, Debug)]
pub struct ReferenceLedger {
    balances: BalanceTable,
}

impl View for ReferenceLedger {
    type V = Seq<(Seq<char>, u64)>;

    closed spec fn view(&self) -> Seq<(Seq<char>, u64)> {
        self.balances@
    }
}

impl ReferenceLedger {
    pub open spec fn wf(&self) -> bool {
        canonical(self@)
    }

    pub fn new() -> (r: Self)
        ensures
            r.wf(),
            r@ == Seq::<(Seq<char>, u64)>::empty(),
    {
        ReferenceLedger { balances: BalanceTable::new() }
    }

    pub fn apply(&mut self, op: &Op) -> (r: Result<(), ApplyError>)
        requires
            old(self).wf(),
        ensures
            final(self).wf(),
            outcome_view(r) == reference_outcome(old(self)@, op@),
            forall|k: Seq<char>|
                #[trigger] balance_of(final(self)@, k) == reference_balance_after(old(self)@, op@, k),
    {
        match op {
            Op::Deposit { account, amount } => {
                let balance = self.balances.balance(account);
                self.balances.set_balance(account, balance.saturating_add(*amount));
                Ok(())
            },
            Op::Withdraw { account, amount } => {
                let balance = self.balances.balance(account);
                if balance < *amount {
                    return Err(
                        ApplyError::InsufficientFunds { account: account.clone(), balance, amount: *amount },
                    );
                }
                self.balances.set_balance(account, balance - *amount);
                Ok(())
            },
            Op::Transfer { from, to, amount } => {
                let balance = self.balances.balance(from);
                if balance < *amount {
                    return Err(
                        ApplyError::InsufficientFunds { account: from.clone(), balance, amount: *amount },
                    );
                }
                if *from == *to {
                    return Ok(());
                }
                let credited = self.balances.balance(to);
                self.balances.set_balance(from, balance - *amount);
                self.balances.set_balance(to, credited.saturating_add(*amount));
                Ok(())
            },
        }
    }

    /// The accounts with a positive balance, sorted by name.
    pub fn snapshot(&self) -> (r: Vec<(String, u64)>)
        requires
            self.wf(),
        ensures
            snapshot_view(r@) == self@,
            canonical(snapshot_view(r@)),
    {
        self.balances.entries()
    }

    /// The balance of `account`: 0 if it has none.
    pub fn balance(&self, account: &String) -> (r: u64)
        requires
            self.wf(),
        ensures
            r == balance_of(self@, account@),
    {
        self.balances.balance(account)
    }
}

impl Subject for ReferenceLedger {
    open spec fn modelled() -> bool {
        true
    }

    closed spec fn state(&self) -> Seq<(Seq<char>, u64)> {
        self@
    }

    closed spec fn inv(&self) -> bool {
        self.wf()
    }

    open spec fn outcome_of(s: Seq<(Seq<char>, u64)>, op: OpModel) -> Result<(), ApplyErrorModel> {
        reference_outcome(s, op)
    }

    open spec fn balance_after(s: Seq<(Seq<char>, u64)>, op: OpModel, k: Seq<char>) -> u64 {
        reference_balance_after(s, op, k)
    }

    fn fresh() -> (r: Self) {
        ReferenceLedger::new()
    }

    fn apply(&mut self, op: &Op) -> (r: Result<(), ApplyError>) {
        ReferenceLedger::apply(self, op)
    }

    fn snapshot(&self) -> (r: Vec<(String, u64)>) {
        ReferenceLedger::snapshot(self)
    }
}

} // verus!
