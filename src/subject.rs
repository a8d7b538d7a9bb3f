use vstd::prelude::*;

use crate::op::{outcome_view, ApplyError, ApplyErrorModel, Op, OpModel};
use crate::table::{balance_of, canonical, lemma_canonical_unique, snapshot_view};

verus! {

/// The narrow interface through which the engine drives a system under
/// comparison. Which rules `apply` follows is the subject's own choice.
///
/// A subject that is `modelled` promises that the outcome and the new
/// balances of `apply` are a function of the balances before and the
/// operation, given by `outcome_of` and `balance_after`, and that its
/// snapshot shows `state`. A subject that is not modelled (a foreign system
/// reached through its own interface, outside the verified library) promises
/// nothing: every clause below is conditional on `modelled`, which is false
/// unless an implementation says otherwise, so the defaults of the other spec
/// functions are never used to describe such a subject.
pub trait Subject: Sized {
    /// Whether the spec functions below describe this subject.
    closed spec fn modelled() -> bool {
        false
    }

    /// The balances the subject currently holds, as its snapshot shows them.
    closed spec fn state(&self) -> Seq<(Seq<char>, u64)> {
        Seq::empty()
    }

    /// The subject's own well-formedness; by default, none.
    closed spec fn inv(&self) -> bool {
        true
    }

    /// The outcome of `op` on a subject whose balances are `s`.
    closed spec fn outcome_of(s: Seq<(Seq<char>, u64)>, op: OpModel) -> Result<(), ApplyErrorModel> {
        Ok(())
    }

    /// The balance of `k` after `op` on a subject whose balances are `s`.
    closed spec fn balance_after(s: Seq<(Seq<char>, u64)>, op: OpModel, k: Seq<char>) -> u64 {
        balance_of(s, k)
    }

    /// A fresh subject with no balances.
    fn fresh() -> (r: Self)
        ensures
            r.inv(),
            Self::modelled() ==> r.state() == Seq::<(Seq<char>, u64)>::empty();

    /// Applies one operation in place.
    fn apply(&mut self, op: &Op) -> (r: Result<(), ApplyError>)
        requires
            old(self).inv(),
        ensures
            final(self).inv(),
            Self::modelled() ==> outcome_view(r) == Self::outcome_of(old(self).state(), op@),
            Self::modelled() ==> canonical(final(self).state()),
            Self::modelled() ==> forall|k: Seq<char>|
                #[trigger] balance_of(final(self).state(), k) == Self::balance_after(old(self).state(), op@, k);

    /// The accounts with a positive balance, sorted by name.
    fn snapshot(&self) -> (r: Vec<(String, u64)>)
        requires
            self.inv(),
        ensures
            Self::modelled() ==> snapshot_view(r@) == self.state(),
            Self::modelled() ==> canonical(self.state());
}

/// The balances of a subject of type `M` after `op`, from balances `s`: the
/// canonical snapshot that records `M::balance_after`.
pub open spec fn next_state<M: Subject>(s: Seq<(Seq<char>, u64)>, op: OpModel) -> Seq<(Seq<char>, u64)> {
    choose|t: Seq<(Seq<char>, u64)>|
        canonical(t) && forall|k: Seq<char>| #[trigger] balance_of(t, k) == M::balance_after(s, op, k)
}

/// A canonical snapshot that records the balances after `op` is `next_state`.
pub proof fn lemma_next_state<M: Subject>(s: Seq<(Seq<char>, u64)>, op: OpModel, t: Seq<(Seq<char>, u64)>)
    requires
        canonical(t),
        forall|k: Seq<char>| #[trigger] balance_of(t, k) == M::balance_after(s, op, k),
    ensures
        t == next_state::<M>(s, op),
{
    let u = next_state::<M>(s, op);
    assert(canonical(u) && forall|k: Seq<char>| #[trigger] balance_of(u, k) == M::balance_after(s, op, k));
    assert forall|k: Seq<char>| #[trigger] balance_of(t, k) == balance_of(u, k) by {}
    lemma_canonical_unique(t, u);
}

} // verus!
