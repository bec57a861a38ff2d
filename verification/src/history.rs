//! What holds over the whole life of a record, whatever updates are asked for.

use crate::address::{AccountAddress, Address};
use crate::contract::update_outcome;
use crate::decimal::{acceptable, decimal_of, lemma_not_less_reflexive, lemma_not_less_transitive};
use crate::state::{RecvSchema, StateView};
use concordium_std::ParseError;
use vstd::prelude::*;

verus! {

/// One request for an update, as the host hands it over.
pub ghost struct Call {
    pub sender: Address,
    pub param: Result<RecvSchema, ParseError>,
    pub throw_error: Result<bool, ParseError>,
}

/// The update `call` is accepted on the record `s`.
pub open spec fn accepted(s: StateView, owner: AccountAddress, call: Call) -> bool {
    update_outcome(s, owner, call.sender, call.param, call.throw_error) is Ok
}

/// The record after `call`: the updated record if the call is accepted, the
/// record as it was if not.
pub open spec fn after(s: StateView, owner: AccountAddress, call: Call) -> StateView {
    match update_outcome(s, owner, call.sender, call.param, call.throw_error) {
        Ok(next) => next,
        Err(_) => s,
    }
}

/// The record after the calls of `calls`, one after the other.
pub open spec fn after_all(s: StateView, owner: AccountAddress, calls: Seq<Call>) -> StateView
    decreases calls.len(),
{
    if calls.len() == 0 {
        s
    } else {
        after(after_all(s, owner, calls.drop_last()), owner, calls.last())
    }
}

/// How many of the calls of `calls` are accepted, each on the record that the
/// calls before it left.
pub open spec fn accepted_count(s: StateView, owner: AccountAddress, calls: Seq<Call>) -> nat
    decreases calls.len(),
{
    if calls.len() == 0 {
        0
    } else {
        let before = calls.drop_last();
        accepted_count(s, owner, before) + if accepted(
            after_all(s, owner, before),
            owner,
            calls.last(),
        ) {
            1nat
        } else {
            0nat
        }
    }
}

/// The version counter counts the accepted updates and nothing else: after
/// any calls it stands at its first value plus the number of calls that were
/// accepted. A rejected call does not move it.
pub proof fn lemma_version_counts_accepted(s: StateView, owner: AccountAddress, calls: Seq<Call>)
    ensures
        after_all(s, owner, calls).ver_cnt == s.ver_cnt + accepted_count(s, owner, calls),
    decreases calls.len(),
{
    if calls.len() > 0 {
        lemma_version_counts_accepted(s, owner, calls.drop_last());
    }
}

/// After `n` updates that were all accepted the version counter has grown by
/// `n`.
pub proof fn lemma_version_after_accepted(s: StateView, owner: AccountAddress, calls: Seq<Call>)
    requires
        forall|i: int|
            0 <= i < calls.len() ==> accepted(
                after_all(s, owner, #[trigger] calls.take(i)),
                owner,
                calls[i],
            ),
    ensures
        after_all(s, owner, calls).ver_cnt == s.ver_cnt + calls.len(),
    decreases calls.len(),
{
    if calls.len() > 0 {
        let before = calls.drop_last();
        assert forall|i: int| 0 <= i < before.len() implies accepted(
            after_all(s, owner, #[trigger] before.take(i)),
            owner,
            before[i],
        ) by {
            assert(before.take(i) =~= calls.take(i));
        }
        lemma_version_after_accepted(s, owner, before);
        assert(calls.take(calls.len() - 1) =~= before);
    }
}

/// The names of the model and of the dataset are those the record was created
/// with, whatever calls arrive.
pub proof fn lemma_names_stay(s: StateView, owner: AccountAddress, calls: Seq<Call>)
    ensures
        after_all(s, owner, calls).model == s.model,
        after_all(s, owner, calls).dataset == s.dataset,
    decreases calls.len(),
{
    if calls.len() > 0 {
        lemma_names_stay(s, owner, calls.drop_last());
    }
}

/// A record that is well formed stays so, whatever calls arrive.
pub proof fn lemma_stays_well_formed(s: StateView, owner: AccountAddress, calls: Seq<Call>)
    requires
        s.wf(),
    ensures
        after_all(s, owner, calls).wf(),
    decreases calls.len(),
{
    if calls.len() > 0 {
        lemma_stays_well_formed(s, owner, calls.drop_last());
    }
}

/// The recorded accuracy never goes down: after any calls it is not below
/// what it was before them.
pub proof fn lemma_accuracy_never_decreases(s: StateView, owner: AccountAddress, calls: Seq<Call>)
    ensures
        acceptable(s.avg_acc, after_all(s, owner, calls).avg_acc),
    decreases calls.len(),
{
    if calls.len() == 0 {
        lemma_not_less_reflexive(decimal_of(s.avg_acc));
    } else {
        let before = after_all(s, owner, calls.drop_last());
        let last = after(before, owner, calls.last());
        lemma_accuracy_never_decreases(s, owner, calls.drop_last());
        lemma_not_less_reflexive(decimal_of(before.avg_acc));
        assert(acceptable(before.avg_acc, last.avg_acc));
        lemma_not_less_transitive(
            decimal_of(last.avg_acc),
            decimal_of(before.avg_acc),
            decimal_of(s.avg_acc),
        );
    }
}

} // verus!
