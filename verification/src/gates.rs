//! Gates: named requirements on a kernel's results.
//!
//! A gate either holds or leaves a failure behind that says what was found. An
//! oracle runs through a list of gates and reports the failures in order.
use vstd::prelude::*;
use crate::text::{texts, Line};

verus! {

/// A requirement: whether it holds, and what is reported when it does not.
pub struct Gate {
    pub holds: bool,
    pub detail: Seq<char>,
}

/// The reports of the gates that do not hold, in order.
pub open spec fn failing(gates: Seq<Gate>) -> Seq<Seq<char>>
    decreases gates.len(),
{
    if gates.len() == 0 {
        Seq::empty()
    } else if gates.last().holds {
        failing(gates.drop_last())
    } else {
        failing(gates.drop_last()).push(gates.last().detail)
    }
}

/// Whether every gate of the list holds.
pub open spec fn all_hold(gates: Seq<Gate>) -> bool {
    forall|i: int| 0 <= i < gates.len() ==> (#[trigger] gates[i]).holds
}

/// Nothing is reported if and only if every gate holds.
pub proof fn failing_is_empty_iff_all_hold(gates: Seq<Gate>)
    ensures
        failing(gates).len() == 0 <==> all_hold(gates),
    decreases gates.len(),
{
    if gates.len() > 0 {
        let rest = gates.drop_last();
        failing_is_empty_iff_all_hold(rest);
        if failing(gates).len() == 0 {
            assert forall|i: int| 0 <= i < gates.len() implies (#[trigger] gates[i]).holds by {
                if i < rest.len() {
                    assert(rest[i] == gates[i]);
                }
            }
        }
        if all_hold(gates) {
            assert forall|i: int| 0 <= i < rest.len() implies (#[trigger] rest[i]).holds by {
                assert(gates[i].holds);
            }
            assert(gates[gates.len() - 1].holds);
        }
    }
}

/// The report of every gate that does not hold is among the failures.
pub proof fn failing_gate_is_reported(gates: Seq<Gate>, i: int)
    requires
        0 <= i < gates.len(),
        !gates[i].holds,
    ensures
        failing(gates).contains(gates[i].detail),
    decreases gates.len(),
{
    let rest = gates.drop_last();
    if i == gates.len() - 1 {
        assert(failing(gates)[failing(rest).len() as int] == gates[i].detail);
    } else {
        assert(rest[i] == gates[i]);
        failing_gate_is_reported(rest, i);
        let k = choose|k: int| 0 <= k < failing(rest).len() && failing(rest)[k] == gates[i].detail;
        assert(failing(gates)[k] == gates[i].detail);
    }
}

/// Two lists of gates report first the failures of the one, then of the other.
pub proof fn failing_of_concatenation(first: Seq<Gate>, second: Seq<Gate>)
    ensures
        failing(first + second) == failing(first) + failing(second),
    decreases second.len(),
{
    if second.len() == 0 {
        assert(first + second =~= first);
        assert(failing(second) =~= Seq::empty());
    } else {
        let both = first + second;
        assert(both.drop_last() =~= first + second.drop_last());
        assert(both.last() == second.last());
        failing_of_concatenation(first, second.drop_last());
    }
}

/// A concatenation of two lists of gates holds where both lists do.
pub proof fn all_hold_of_concatenation(first: Seq<Gate>, second: Seq<Gate>)
    ensures
        all_hold(first + second) <==> all_hold(first) && all_hold(second),
{
    let both = first + second;
    if all_hold(both) {
        assert forall|i: int| 0 <= i < first.len() implies (#[trigger] first[i]).holds by {
            assert(both[i].holds);
        }
        assert forall|i: int| 0 <= i < second.len() implies (#[trigger] second[i]).holds by {
            assert(both[first.len() + i].holds);
        }
    }
    if all_hold(first) && all_hold(second) {
        assert forall|i: int| 0 <= i < both.len() implies (#[trigger] both[i]).holds by {
            if i < first.len() {
                assert(first[i].holds);
            } else {
                assert(second[i - first.len()].holds);
            }
        }
    }
}

/// Records `detail` as a failure unless the condition holds.
pub fn gate(failures: &mut Vec<String>, condition: bool, detail: String)
    ensures
        final(failures)@ == if condition {
            old(failures)@
        } else {
            old(failures)@.push(detail)
        },
{
    if !condition {
        failures.push(detail);
    }
}

/// The failures found so far, and the gates they come from.
pub struct Ledger {
    failures: Vec<String>,
    gates: Ghost<Seq<Gate>>,
}

impl Ledger {
    /// The gates checked so far.
    pub closed spec fn gates(&self) -> Seq<Gate> {
        self.gates@
    }

    /// The failures are those of the gates checked so far.
    pub closed spec fn wf(&self) -> bool {
        texts(self.failures@) == failing(self.gates@)
    }

    /// A ledger without any gate.
    pub fn new() -> (ledger: Ledger)
        ensures
            ledger.wf(),
            ledger.gates() == Seq::<Gate>::empty(),
    {
        let failures: Vec<String> = Vec::new();
        assert(texts(failures@) =~= Seq::empty());
        Ledger { failures, gates: Ghost(Seq::empty()) }
    }

    /// Checks one more gate.
    pub fn check(&mut self, condition: bool, detail: Line)
        requires
            old(self).wf(),
        ensures
            final(self).wf(),
            final(self).gates() == old(self).gates().push(
                (Gate { holds: condition, detail: detail@ }),
            ),
    {
        let ghost next = Gate { holds: condition, detail: detail@ };
        let ghost before = self.gates@;
        let ghost listed = texts(self.failures@);
        let text: String = detail.done();
        gate(&mut self.failures, condition, text);
        self.gates = Ghost(before.push(next));
        assert(before.push(next).drop_last() =~= before);
        if !condition {
            assert(texts(self.failures@) =~= listed.push(next.detail));
        }
    }

    /// The failures, in the order of the gates.
    pub fn into_failures(self) -> (failures: Vec<String>)
        requires
            self.wf(),
        ensures
            texts(failures@) == failing(self.gates()),
    {
        self.failures
    }
}

} // verus!
