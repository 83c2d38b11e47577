//! Process identifiers: the number the operating system gave a child, and the
//! decimal text under which the user interface knows it.

use vstd::prelude::*;
use crate::decimal::{decimal, decimal_value, parse_unsigned, unsigned_text, lemma_decimal_round_trip, lemma_decimal_injective};

verus! {

/// The identifier of one spawned process. It is unique among the processes
/// that are registered at one moment; the system may hand it out again later.
#[derive(Clone, Copy, Debug, PartialEq, Eq, Structural, Hash)]
pub struct ProcessId(pub u32);

impl View for ProcessId {
    type V = u32;

    open spec fn view(&self) -> u32 {
        self.0
    }
}

impl ProcessId {
    /// The text under which this id crosses the boundary.
    pub open spec fn text(self) -> Seq<char> {
        decimal(self.0 as nat)
    }

    /// The id that `text` names, if it names one.
    pub open spec fn named_by(text: Seq<char>) -> Option<ProcessId> {
        match decimal_value(text) {
            Some(n) => Some(ProcessId(n)),
            None => None,
        }
    }

    /// Writes the id as text.
    pub fn to_text(&self) -> (r: String)
        ensures
            r@ == self.text(),
    {
        unsigned_text(self.0 as u64)
    }

    /// Reads an id from the text that the user interface sent. Only the exact
    /// text that `to_text` writes names an id.
    pub fn parse(text: &str) -> (r: Option<ProcessId>)
        ensures
            r == ProcessId::named_by(text@),
    {
        match parse_unsigned(text) {
            Some(n) => Some(ProcessId(n)),
            None => None,
        }
    }
}

/// What `to_text` writes, `parse` reads back as the same id, and two ids
/// never share a text.
pub proof fn lemma_id_text_round_trip(id: ProcessId)
    ensures
        ProcessId::named_by(id.text()) == Some(id),
        forall|other: ProcessId| other.text() == id.text() ==> other == id,
{
    lemma_decimal_round_trip(id.0);
    assert forall|other: ProcessId| other.text() == id.text() implies other == id by {
        lemma_decimal_injective(other.0 as nat, id.0 as nat);
    }
}

/// A text names the id `id` exactly when it is the text of `id`.
pub proof fn lemma_named_by_text(text: Seq<char>, id: ProcessId)
    ensures
        ProcessId::named_by(text) == Some(id) <==> text == id.text(),
{
    if text == id.text() {
        lemma_id_text_round_trip(id);
    }
}

} // verus!
