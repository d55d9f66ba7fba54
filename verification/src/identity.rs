//! Identifiers of aggregates and requests.
use vstd::prelude::*;
use vstd::string::*;

verus! {

/// An identifier in its textual form.
#[derive(Debug, PartialEq, Eq)]
pub struct UlidStr {
    value: String,
}

pub type JobId = UlidStr;

pub type BatchId = UlidStr;

pub type WorkUnitId = UlidStr;

impl View for UlidStr {
    type V = Seq<char>;

    closed spec fn view(&self) -> Seq<char> {
        self.value@
    }
}

impl Clone for UlidStr {
    fn clone(&self) -> (copy: Self)
        ensures
            copy == *self,
    {
        UlidStr { value: self.value.clone() }
    }
}

impl UlidStr {
    pub fn new(value: &str) -> (id: UlidStr)
        ensures
            id@ == value@,
    {
        UlidStr { value: value.to_owned() }
    }

    pub fn as_str(&self) -> (text: &str)
        ensures
            text@ == self@,
    {
        self.value.as_str()
    }

    /// Whether both identifiers have the same text.
    pub fn same(&self, other: &UlidStr) -> (answer: bool)
        ensures
            answer == (self@ == other@),
    {
        self.value == other.value
    }
}

} // verus!
