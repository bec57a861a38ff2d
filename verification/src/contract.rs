//! The operations on the record: create it, update it, read it.
//!
//! Every operation takes what the host has already read for it: the record,
//! the owner of the instance, the sender of the call, and the outcome of
//! decoding the parameter. A rejected call leaves the record as it was.

use crate::accuracy::{is_acceptable_accuracy, Accuracy};
use crate::decimal::{acceptable, is_decimal_text};
use crate::address::{is_owner, AccountAddress, Address};
use crate::error::Error;
use crate::state::{Amount, InitSchema, RecvSchema, State, StateView, ViewFree, MAX_VERSION};
use concordium_std::ParseError;
use vstd::prelude::*;

verus! {

/// What creating a deployment gives: the initial record for the decoded names,
/// or a rejection when the parameter did not decode.
pub open spec fn init_outcome(param: Result<InitSchema, ParseError>) -> Result<StateView, Error> {
    match param {
        Ok(p) => Ok(StateView::initial(p.model@, p.dataset@)),
        Err(_) => Err(Error::ParseParamsError),
    }
}

/// What an update of the record `s` gives. The checks come in this order, and
/// the first that fails decides the rejection:
/// the sender is the owner; the parameter and the failure flag decoded and the
/// accuracy is a decimal text; the accuracy is not below the recorded one; the
/// caller did not ask for a failure; the version counter can count one more.
pub open spec fn update_outcome(
    s: StateView,
    owner: AccountAddress,
    sender: Address,
    param: Result<RecvSchema, ParseError>,
    throw_error: Result<bool, ParseError>,
) -> Result<StateView, Error> {
    if !is_owner(sender, owner) {
        Err(Error::AccessDenied)
    } else if param is Err || throw_error is Err {
        Err(Error::ParseParamsError)
    } else {
        let p = param->Ok_0;
        if !is_decimal_text(p.avg_acc@) {
            Err(Error::ParseParamsError)
        } else if !acceptable(s.avg_acc, p.avg_acc@) {
            Err(Error::AccuracyRegression)
        } else if throw_error->Ok_0 {
            Err(Error::ParseParamsError)
        } else if s.ver_cnt >= MAX_VERSION {
            Err(Error::VersionOverflow)
        } else {
            Ok(s.updated(p.amount, p.avg_acc@, p.json_value@))
        }
    }
}

/// Creates the record of a deployment from the outcome of decoding its
/// parameter. Any caller may do this.
pub fn init(param: Result<InitSchema, ParseError>) -> (r: Result<State, Error>)
    ensures
        match init_outcome(param) {
            Ok(record) => r matches Ok(state) && state@ == record && state@.wf(),
            Err(e) => r matches Err(got) && got == e,
        },
        r is Ok <==> param is Ok,
        r matches Ok(state) ==> {
            &&& state@.model == param->Ok_0.model@
            &&& state@.dataset == param->Ok_0.dataset@
            &&& state@.amount.micro_ccd == 0
            &&& state@.avg_acc == seq!['0']
            &&& state@.ver_cnt == 0
            &&& state@.json_value == seq!['n', 'u', 'l', 'l']
        },
{
    match param {
        Ok(p) => Ok(State::new(p.model, p.dataset)),
        Err(e) => Err(Error::from(e)),
    }
}

/// Updates the record for the owner: replaces amount, accuracy and JSON
/// payload and counts one more version. Whatever the rejection, the record is
/// then left as it was.
pub fn receive(
    state: &mut State,
    owner: AccountAddress,
    sender: Address,
    param: Result<RecvSchema, ParseError>,
    throw_error: Result<bool, ParseError>,
) -> (r: Result<(), Error>)
    ensures
        match update_outcome(old(state)@, owner, sender, param, throw_error) {
            Ok(next) => r is Ok && final(state)@ == next,
            Err(e) => r == Err::<(), Error>(e) && *final(state) == *old(state),
        },
        final(state)@.wf(),
        // a rejected update changes no field
        r is Err ==> final(state)@ == old(state)@,
        // only the owner gets through
        !is_owner(sender, owner) ==> r == Err::<(), Error>(Error::AccessDenied),
        // the accuracy that is stored is the proposed one, and is not below
        // the one that was there
        r is Ok ==> param is Ok && final(state)@.avg_acc == param->Ok_0.avg_acc@ && acceptable(
            old(state)@.avg_acc,
            final(state)@.avg_acc,
        ),
        // a proposed accuracy below the recorded one is rejected
        param is Ok && is_decimal_text(param->Ok_0.avg_acc@) && !acceptable(
            old(state)@.avg_acc,
            param->Ok_0.avg_acc@,
        ) ==> r is Err,
        // an accepted update counts exactly one version
        r is Ok ==> final(state)@.ver_cnt == old(state)@.ver_cnt + 1,
        // the names never change
        final(state)@.model == old(state)@.model,
        final(state)@.dataset == old(state)@.dataset,
        // a failure that was asked for is given, once everything else is in
        // order
        is_owner(sender, owner) && param is Ok && is_decimal_text(param->Ok_0.avg_acc@)
            && acceptable(old(state)@.avg_acc, param->Ok_0.avg_acc@) && throw_error == Ok::<
            bool,
            ParseError,
        >(true) ==> r == Err::<(), Error>(Error::ParseParamsError),
{
    let current = state.avg_acc();
    if !is_owner(sender, owner) {
        return Err(Error::AccessDenied);
    }
    let p = match param {
        Ok(p) => p,
        Err(e) => {
            return Err(Error::from(e));
        },
    };
    let asked_to_fail = match throw_error {
        Ok(flag) => flag,
        Err(e) => {
            return Err(Error::from(e));
        },
    };
    let proposed = match Accuracy::parse(p.avg_acc.as_str()) {
        Some(score) => score,
        None => {
            return Err(Error::ParseParamsError);
        },
    };
    if !is_acceptable_accuracy(current, &proposed) {
        return Err(Error::AccuracyRegression);
    }
    if asked_to_fail {
        return Err(Error::ParseParamsError);
    }
    state.store(p.amount, proposed, p.json_value)
}

/// The whole record, for any caller.
pub fn view(state: &State) -> (record: &State)
    ensures
        *record == *state,
{
    state
}

/// The whole record, for the owner only.
pub fn view_owner(state: &State, owner: AccountAddress, sender: Address) -> (r: Result<
    &State,
    Error,
>)
    ensures
        is_owner(sender, owner) ==> r == Ok::<&State, Error>(state),
        !is_owner(sender, owner) ==> r == Err::<&State, Error>(Error::AccessDenied),
{
    if !is_owner(sender, owner) {
        return Err(Error::AccessDenied);
    }
    Ok(state)
}

/// The public part of the record, for any caller: everything but the JSON
/// payload.
pub fn view_free(state: &State) -> (part: ViewFree)
    ensures
        part@ == state@.projection(),
{
    state.project()
}

/// The whole record, for any caller. A payment that comes with the call is
/// accepted and plays no part.
pub fn view_payer(state: &State, amount: Amount) -> (record: &State)
    ensures
        *record == *state,
{
    state
}

} // verus!
