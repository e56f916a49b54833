//! The tagged value type stored in the key-value store and returned as the
//! reply to every command.

use vstd::prelude::*;

verus! {

/// Mathematical model of a [`RespData`] value: the same four variants with
/// strings abstracted to character sequences and machine integers to `int`.
pub enum RespDataView {
    Okay,
    SimpleStr(Seq<char>),
    Number(int),
    Error(Seq<char>),
}

/// A value as stored in the store and sent back to a client: a success
/// marker, a string, a signed integer, or an error message.
#[derive(Debug)]
pub enum RespData {
    Okay,
    SimpleStr(String),
    Number(i64),
    Error(String),
}

impl View for RespData {
    type V = RespDataView;

    open spec fn view(&self) -> RespDataView {
        match self {
            RespData::Okay => RespDataView::Okay,
            RespData::SimpleStr(s) => RespDataView::SimpleStr(s@),
            RespData::Number(n) => RespDataView::Number(*n as int),
            RespData::Error(s) => RespDataView::Error(s@),
        }
    }
}

impl RespData {
    /// The success marker replied to commands that mutate the store.
    pub fn ok() -> (r: RespData)
        ensures
            r@ == RespDataView::Okay,
    {
        RespData::Okay
    }
}

impl Clone for RespData {
    fn clone(&self) -> (res: Self)
        ensures
            res == *self,
    {
        match self {
            RespData::Okay => RespData::Okay,
            RespData::SimpleStr(s) => RespData::SimpleStr(s.clone()),
            RespData::Number(n) => RespData::Number(*n),
            RespData::Error(s) => RespData::Error(s.clone()),
        }
    }
}

impl PartialEq for RespData {
    fn eq(&self, other: &Self) -> (r: bool) {
        match (self, other) {
            (RespData::Okay, RespData::Okay) => true,
            (RespData::SimpleStr(a), RespData::SimpleStr(b)) => *a == *b,
            (RespData::Number(a), RespData::Number(b)) => *a == *b,
            (RespData::Error(a), RespData::Error(b)) => *a == *b,
            _ => false,
        }
    }
}

impl vstd::std_specs::cmp::PartialEqSpecImpl for RespData {
    open spec fn obeys_eq_spec() -> bool {
        true
    }

    open spec fn eq_spec(&self, other: &Self) -> bool {
        self@ == other@
    }
}

} // verus!
