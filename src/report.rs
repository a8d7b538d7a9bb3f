use vstd::prelude::*;
use vstd::string::StringExecFns;

use crate::fuzz::{history_view, FuzzFailure, StepModel, StepRecord};
use crate::op::{decimal, decimal_text, op_text, outcome_view, ApplyError, ApplyErrorModel};
use crate::table::snapshot_view;

verus! {

/// An account name between double quotes.
pub open spec fn quoted(name: Seq<char>) -> Seq<char> {
    "\""@ + name + "\""@
}

/// One snapshot entry as text: `("alice", 60)`.
pub open spec fn entry_text(e: (Seq<char>, u64)) -> Seq<char> {
    "("@ + quoted(e.0) + ", "@ + decimal_text(e.1 as nat) + ")"@
}

/// The entries of a snapshot as text, separated by `, `.
pub open spec fn entries_text(s: Seq<(Seq<char>, u64)>) -> Seq<char>
    decreases s.len(),
{
    if s.len() == 0 {
        Seq::empty()
    } else if s.len() == 1 {
        entry_text(s[0])
    } else {
        entries_text(s.drop_last()) + ", "@ + entry_text(s.last())
    }
}

/// A snapshot as text: `[("alice", 60), ("bob", 40)]`.
pub open spec fn snapshot_text(s: Seq<(Seq<char>, u64)>) -> Seq<char> {
    "["@ + entries_text(s) + "]"@
}

/// An error in the field-by-field form of the report.
pub open spec fn error_fields_text(e: ApplyErrorModel) -> Seq<char> {
    match e {
        ApplyErrorModel::InsufficientFunds { account, balance, amount } => "InsufficientFunds { account: "@
            + quoted(account) + ", balance: "@ + decimal_text(balance as nat) + ", amount: "@ + decimal_text(
            amount as nat,
        ) + " }"@,
    }
}

/// What the report shows of one subject: the snapshot on success, the error
/// otherwise.
pub open spec fn outcome_text(r: Result<(), ApplyErrorModel>, s: Seq<(Seq<char>, u64)>) -> Seq<char> {
    match r {
        Ok(()) => snapshot_text(s),
        Err(e) => "Err("@ + error_fields_text(e) + ")"@,
    }
}

/// Step `i` (counted from 0) of a history as text.
pub open spec fn step_text(i: nat, m: StepModel) -> Seq<char> {
    "  "@ + decimal_text(i + 1) + ": "@ + op_text(m.op) + "\n"@ + "     model: "@ + outcome_text(
        m.model_outcome,
        m.model_state,
    ) + "\n"@ + "     impl : "@ + outcome_text(m.impl_outcome, m.impl_state) + "\n"@
}

/// The steps of a history as text.
pub open spec fn steps_text(h: Seq<StepModel>) -> Seq<char>
    decreases h.len(),
{
    if h.len() == 0 {
        Seq::empty()
    } else {
        steps_text(h.drop_last()) + step_text((h.len() - 1) as nat, h.last())
    }
}

/// The report of a failure: where it happened, the diverging operation, what
/// each subject showed, how to replay it, and the whole history from the
/// seeded balances on.
pub open spec fn report_text(f: FuzzFailure) -> Seq<char> {
    let model_pre = snapshot_view(f.model_pre_snapshot@);
    let impl_pre = snapshot_view(f.impl_pre_snapshot@);
    let head = "\nmismatch detected (case="@ + decimal_text(f.case_index as nat) + ", step="@ + decimal_text(
        f.step_index as nat,
    ) + ", seed="@ + decimal_text(f.seed as nat) + ")\n"@ + "----------------------------------------\n"@
        + "op            : "@ + op_text(f.op@) + "\n"@ + "model         : "@ + outcome_text(
        outcome_view(f.model_result),
        model_pre,
    ) + "\n"@ + "impl          : "@ + outcome_text(outcome_view(f.impl_result), impl_pre) + "\n"@
        + "replay        : cargo run -- replay --seed "@ + decimal_text(f.seed as nat) + " --steps "@ + decimal_text(
        f.history@.len() as nat,
    ) + "\n"@ + "history:\n"@;
    let initial = if f.history@.len() > 0 {
        "  0: <initial>\n"@ + "     model: "@ + snapshot_text(model_pre) + "\n"@ + "     impl : "@
            + snapshot_text(impl_pre) + "\n"@
    } else {
        Seq::empty()
    };
    head + initial + steps_text(history_view(f.history@))
}

/// A snapshot as text.
pub fn render_snapshot(s: &Vec<(String, u64)>) -> (r: String)
    ensures
        r@ == snapshot_text(snapshot_view(s@)),
{
    let mut out = <String as StringExecFns>::from_str("[");
    let mut i: usize = 0;
    while i < s.len()
        invariant
            i <= s@.len(),
            out@ == "["@ + entries_text(snapshot_view(s@).take(i as int)),
        decreases s.len() - i,
    {
        let ghost prev = snapshot_view(s@).take(i as int);
        let ghost next = snapshot_view(s@).take(i + 1);
        assert(next.drop_last() =~= prev);
        if i > 0 {
            out = out.concat(", ");
        }
        out = out.concat("(\"").concat(s[i].0.as_str()).concat("\", ");
        out = out.concat(decimal(s[i].1).as_str()).concat(")");
        proof {
            reveal_strlit("(\"");
            reveal_strlit("(");
            reveal_strlit("\"");
            reveal_strlit("\", ");
            reveal_strlit(", ");
            assert("(\""@ =~= "("@ + "\""@);
            assert("\", "@ =~= "\""@ + ", "@);
            if i == 0 {
                assert(prev =~= Seq::<(Seq<char>, u64)>::empty());
            }
            assert(out@ =~= "["@ + entries_text(next));
        }
        i = i + 1;
    }
    assert(snapshot_view(s@).take(i as int) =~= snapshot_view(s@));
    out.concat("]")
}

/// What the report shows of one subject.
fn render_outcome(r: &Result<(), ApplyError>, s: &Vec<(String, u64)>) -> (t: String)
    ensures
        t@ == outcome_text(outcome_view(*r), snapshot_view(s@)),
{
    match r {
        Ok(()) => render_snapshot(s),
        Err(ApplyError::InsufficientFunds { account, balance, amount }) => {
            let t = <String as StringExecFns>::from_str("Err(InsufficientFunds { account: \"");
            let t = t.concat(account.as_str()).concat("\", balance: ");
            let t = t.concat(decimal(*balance).as_str()).concat(", amount: ");
            let t = t.concat(decimal(*amount).as_str()).concat(" })");
            proof {
                reveal_strlit("Err(InsufficientFunds { account: \"");
                reveal_strlit("Err(");
                reveal_strlit("InsufficientFunds { account: ");
                reveal_strlit("\"");
                reveal_strlit("\", balance: ");
                reveal_strlit(", balance: ");
                reveal_strlit(" })");
                reveal_strlit(" }");
                reveal_strlit(")");
                assert("Err(InsufficientFunds { account: \""@ =~= "Err("@ + "InsufficientFunds { account: "@
                    + "\""@);
                assert("\", balance: "@ =~= "\""@ + ", balance: "@);
                assert(" })"@ =~= " }"@ + ")"@);
                assert(t@ =~= outcome_text(outcome_view(*r), snapshot_view(s@)));
            }
            t
        },
    }
}

/// Step `i` of a history as text.
fn render_step(i: usize, step: &StepRecord) -> (t: String)
    requires
        i < usize::MAX,
    ensures
        t@ == step_text(i as nat, history_view(seq![*step])[0]),
{
    let t = <String as StringExecFns>::from_str("  ");
    let t = t.concat(decimal((i + 1) as u64).as_str()).concat(": ");
    let t = t.concat(step.op.describe().as_str()).concat("\n");
    let t = t.concat("     model: ").concat(render_outcome(&step.model_result, &step.model_snapshot).as_str());
    let t = t.concat("\n").concat("     impl : ");
    let t = t.concat(render_outcome(&step.impl_result, &step.impl_snapshot).as_str()).concat("\n");
    t
}

impl FuzzFailure {
    /// The full diagnostic report of this failure.
    pub fn report(&self) -> (r: String)
        ensures
            r@ == report_text(*self),
    {
        let t = <String as StringExecFns>::from_str("\nmismatch detected (case=");
        let t = t.concat(decimal(self.case_index).as_str()).concat(", step=");
        let t = t.concat(decimal(self.step_index as u64).as_str()).concat(", seed=");
        let t = t.concat(decimal(self.seed).as_str()).concat(")\n");
        let t = t.concat("----------------------------------------\n");
        let t = t.concat("op            : ").concat(self.op.describe().as_str()).concat("\n");
        let t = t.concat("model         : ").concat(
            render_outcome(&self.model_result, &self.model_pre_snapshot).as_str(),
        ).concat("\n");
        let t = t.concat("impl          : ").concat(
            render_outcome(&self.impl_result, &self.impl_pre_snapshot).as_str(),
        ).concat("\n");
        let t = t.concat("replay        : cargo run -- replay --seed ").concat(decimal(self.seed).as_str());
        let t = t.concat(" --steps ").concat(decimal(self.history.len() as u64).as_str()).concat("\n");
        let mut t = t.concat("history:\n");
        if self.history.len() > 0 {
            t = t.concat("  0: <initial>\n").concat("     model: ").concat(
                render_snapshot(&self.model_pre_snapshot).as_str(),
            );
            t = t.concat("\n").concat("     impl : ").concat(render_snapshot(&self.impl_pre_snapshot).as_str()).concat(
                "\n",
            );
        }
        let ghost head = t@;
        let ghost h = history_view(self.history@);
        let mut i: usize = 0;
        while i < self.history.len()
            invariant
                i <= self.history@.len(),
                h == history_view(self.history@),
                t@ == head + steps_text(h.take(i as int)),
            decreases self.history.len() - i,
        {
            let step = render_step(i, &self.history[i]);
            proof {
                assert(h.take(i + 1).drop_last() =~= h.take(i as int));
                assert(history_view(seq![self.history@[i as int]])[0] == h[i as int]);
            }
            t = t.concat(step.as_str());
            proof {
                assert(t@ =~= head + steps_text(h.take(i + 1)));
            }
            i = i + 1;
        }
        proof {
            assert(h.take(i as int) =~= h);
        }
        t
    }
}

} // verus!
