//! The record and the shapes that go into and come out of the operations.

use crate::accuracy::Accuracy;
use crate::decimal::is_decimal_text;
use crate::error::Error;
use vstd::prelude::*;
use vstd::string::*;

verus! {

/// The highest value the version counter can hold.
pub const MAX_VERSION: u8 = 255;

/// An amount of the chain's currency, in its smallest unit.
#[derive(Debug, Clone, Copy, PartialEq, Eq, Structural)]
pub struct Amount {
    pub micro_ccd: u64,
}

/// What a deployment is created from.
#[derive(Debug, Clone, PartialEq, Eq)]
pub struct InitSchema {
    pub model: String,
    pub dataset: String,
}

/// What an update carries.
#[derive(Debug, Clone, PartialEq, Eq)]
pub struct RecvSchema {
    pub amount: Amount,
    pub avg_acc: String,
    pub json_value: String,
}

/// The public part of the record: all of it but the JSON payload.
#[derive(Debug, Clone, PartialEq, Eq)]
pub struct ViewFree {
    pub model: String,
    pub dataset: String,
    pub amount: Amount,
    pub avg_acc: String,
    pub ver_cnt: u8,
}

/// The record of one deployment.
#[derive(Debug, PartialEq, Eq)]
pub struct State {
    model: String,
    dataset: String,
    amount: Amount,
    avg_acc: Accuracy,
    ver_cnt: u8,
    json_value: String,
}

/// What a record holds.
pub ghost struct StateView {
    pub model: Seq<char>,
    pub dataset: Seq<char>,
    pub amount: Amount,
    pub avg_acc: Seq<char>,
    pub ver_cnt: nat,
    pub json_value: Seq<char>,
}

/// What the public part of a record holds.
pub ghost struct ViewFreeView {
    pub model: Seq<char>,
    pub dataset: Seq<char>,
    pub amount: Amount,
    pub avg_acc: Seq<char>,
    pub ver_cnt: nat,
}

impl StateView {
    /// The accuracy is a decimal text and the counter is one that fits.
    pub open spec fn wf(self) -> bool {
        &&& is_decimal_text(self.avg_acc)
        &&& self.ver_cnt <= MAX_VERSION
    }

    /// The record right after creation: the two names as given, nothing paid,
    /// accuracy zero, version zero and the JSON value `null`.
    pub open spec fn initial(model: Seq<char>, dataset: Seq<char>) -> StateView {
        StateView {
            model,
            dataset,
            amount: Amount { micro_ccd: 0 },
            avg_acc: seq!['0'],
            ver_cnt: 0,
            json_value: seq!['n', 'u', 'l', 'l'],
        }
    }

    /// The record after one more update: amount, accuracy and payload are
    /// replaced, the version grows by one, the two names stay.
    pub open spec fn updated(
        self,
        amount: Amount,
        avg_acc: Seq<char>,
        json_value: Seq<char>,
    ) -> StateView {
        StateView { amount, avg_acc, ver_cnt: self.ver_cnt + 1, json_value, ..self }
    }

    /// The public part of the record.
    pub open spec fn projection(self) -> ViewFreeView {
        ViewFreeView {
            model: self.model,
            dataset: self.dataset,
            amount: self.amount,
            avg_acc: self.avg_acc,
            ver_cnt: self.ver_cnt,
        }
    }
}

impl View for ViewFree {
    type V = ViewFreeView;

    open spec fn view(&self) -> ViewFreeView {
        ViewFreeView {
            model: self.model@,
            dataset: self.dataset@,
            amount: self.amount,
            avg_acc: self.avg_acc@,
            ver_cnt: self.ver_cnt as nat,
        }
    }
}

impl View for State {
    type V = StateView;

    closed spec fn view(&self) -> StateView {
        StateView {
            model: self.model@,
            dataset: self.dataset@,
            amount: self.amount,
            avg_acc: self.avg_acc@,
            ver_cnt: self.ver_cnt as nat,
            json_value: self.json_value@,
        }
    }
}

/// `serde_json::Value::Null.to_string()`: the compact JSON text of the null
/// value, which is the four letters `null`.
#[verifier::external_body]
fn json_null_text() -> (text: String)
    ensures
        text@ == seq!['n', 'u', 'l', 'l'],
{
    serde_json::Value::Null.to_string()
}

impl State {
    /// A fresh record for `model` and `dataset`.
    pub(crate) fn new(model: String, dataset: String) -> (state: State)
        ensures
            state@ == StateView::initial(model@, dataset@),
            state@.wf(),
    {
        State {
            model,
            dataset,
            amount: Amount { micro_ccd: 0 },
            avg_acc: Accuracy::zero(),
            ver_cnt: 0,
            json_value: json_null_text(),
        }
    }

    /// A record with the given content.
    pub fn from_parts(
        model: String,
        dataset: String,
        amount: Amount,
        avg_acc: Accuracy,
        ver_cnt: u8,
        json_value: String,
    ) -> (state: State)
        ensures
            state@ == (StateView {
                model: model@,
                dataset: dataset@,
                amount,
                avg_acc: avg_acc@,
                ver_cnt: ver_cnt as nat,
                json_value: json_value@,
            }),
            state@.wf(),
    {
        proof {
            use_type_invariant(&avg_acc);
            avg_acc.lemma_decimal_text();
        }
        State { model, dataset, amount, avg_acc, ver_cnt, json_value }
    }

    /// The name of the model.
    pub fn model(&self) -> (text: &str)
        ensures
            text@ == self@.model,
    {
        self.model.as_str()
    }

    /// The name of the dataset.
    pub fn dataset(&self) -> (text: &str)
        ensures
            text@ == self@.dataset,
    {
        self.dataset.as_str()
    }

    /// The amount that came with the last update.
    pub fn amount(&self) -> (amount: Amount)
        ensures
            amount == self@.amount,
    {
        self.amount
    }

    /// The recorded accuracy.
    pub fn avg_acc(&self) -> (score: &Accuracy)
        ensures
            score@ == self@.avg_acc,
            self@.wf(),
    {
        proof {
            use_type_invariant(&self.avg_acc);
            self.avg_acc.lemma_decimal_text();
        }
        &self.avg_acc
    }

    /// The number of updates so far.
    pub fn ver_cnt(&self) -> (count: u8)
        ensures
            count == self@.ver_cnt,
    {
        self.ver_cnt
    }

    /// The JSON payload of the last update.
    pub fn json_value(&self) -> (text: &str)
        ensures
            text@ == self@.json_value,
    {
        self.json_value.as_str()
    }

    /// The public part of the record.
    pub(crate) fn project(&self) -> (part: ViewFree)
        ensures
            part@ == self@.projection(),
    {
        ViewFree {
            model: self.model.clone(),
            dataset: self.dataset.clone(),
            amount: self.amount,
            avg_acc: self.avg_acc.text().to_owned(),
            ver_cnt: self.ver_cnt,
        }
    }

    /// Replaces amount, accuracy and payload and counts one more version, or
    /// leaves the record as it is when the counter is full.
    pub(crate) fn store(&mut self, amount: Amount, avg_acc: Accuracy, json_value: String) -> (r:
        Result<(), Error>)
        ensures
            old(self)@.ver_cnt < MAX_VERSION ==> r is Ok && final(self)@ == old(self)@.updated(
                amount,
                avg_acc@,
                json_value@,
            ),
            old(self)@.ver_cnt >= MAX_VERSION ==> r == Err::<(), Error>(Error::VersionOverflow)
                && *final(self) == *old(self),
    {
        if self.ver_cnt == MAX_VERSION {
            return Err(Error::VersionOverflow);
        }
        self.amount = amount;
        self.avg_acc = avg_acc;
        self.ver_cnt = self.ver_cnt + 1;
        self.json_value = json_value;
        Ok(())
    }
}

impl Clone for State {
    fn clone(&self) -> (copy: State)
        ensures
            copy@ == self@,
    {
        State {
            model: self.model.clone(),
            dataset: self.dataset.clone(),
            amount: self.amount,
            avg_acc: self.avg_acc.clone(),
            ver_cnt: self.ver_cnt,
            json_value: self.json_value.clone(),
        }
    }
}

} // verus!
