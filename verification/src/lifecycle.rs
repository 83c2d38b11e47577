//! The life of registry entries over any run of the supervisor: an id is
//! registered exactly while its process has been started and has neither
//! been killed nor retired since.

use vstd::prelude::*;
use crate::ids::{lemma_named_by_text, ProcessId};
use crate::terminator::after_kill;

verus! {

/// One thing that happens to the registry. Each is one registry operation,
/// done under the registry's lock; a run of the supervisor is a sequence of
/// them, whatever threads they came from.
pub enum Action<H> {
    /// A spawn was settled and the process had started.
    Started { id: ProcessId, handle: H },
    /// A spawn was settled and the process had not started.
    StartFailed,
    /// The process that `id_text` names was asked to be killed.
    KillRequested { id_text: Seq<char> },
    /// The relay of the process retired it.
    Retired { id: ProcessId },
}

impl<H> Action<H> {
    /// Whether the action registers `id`.
    pub open spec fn starts(self, id: ProcessId) -> bool {
        self matches Action::Started { id: started, .. } && started == id
    }

    /// Whether the action takes `id` out of the registry, if it is there.
    pub open spec fn removes(self, id: ProcessId) -> bool {
        match self {
            Action::KillRequested { id_text } => id_text == id.text(),
            Action::Retired { id: retired } => retired == id,
            _ => false,
        }
    }
}

/// The registry after one action.
pub open spec fn apply<H>(table: Map<u32, H>, action: Action<H>) -> Map<u32, H> {
    match action {
        Action::Started { id, handle } => table.insert(id@, handle),
        Action::StartFailed => table,
        Action::KillRequested { id_text } => after_kill(table, id_text),
        Action::Retired { id } => table.remove(id@),
    }
}

/// The registry after a run that began with an empty registry.
pub open spec fn replay<H>(history: Seq<Action<H>>) -> Map<u32, H>
    decreases history.len(),
{
    if history.len() == 0 {
        Map::empty()
    } else {
        apply(replay(history.drop_last()), history.last())
    }
}

/// Whether `id` is live after the run: it was started at some point, and
/// nothing after that point took it out.
pub open spec fn live<H>(history: Seq<Action<H>>, id: ProcessId) -> bool {
    exists|i: int|
        0 <= i < history.len() && (#[trigger] history[i]).starts(id) && forall|j: int|
            i < j < history.len() ==> !(#[trigger] history[j]).removes(id)
}

/// One action changes the entry of `id` only if it starts or removes `id`.
proof fn lemma_apply_other<H>(table: Map<u32, H>, action: Action<H>, id: ProcessId)
    requires
        !action.starts(id),
        !action.removes(id),
    ensures
        apply(table, action).contains_key(id@) == table.contains_key(id@),
{
    match action {
        Action::KillRequested { id_text } => {
            lemma_named_by_text(id_text, id);
        },
        _ => {},
    }
}

/// The registry's invariant. After any run, an id is registered if and only
/// if it is live: its process was started and has not been killed or retired
/// since.
pub proof fn lemma_registered_iff_live<H>(history: Seq<Action<H>>, id: ProcessId)
    ensures
        replay(history).contains_key(id@) <==> live(history, id),
    decreases history.len(),
{
    if history.len() > 0 {
        let earlier = history.drop_last();
        let last = history.last();
        let end = history.len() - 1;
        lemma_registered_iff_live(earlier, id);
        if last.starts(id) {
            assert(history[end].starts(id));
        } else if last.removes(id) {
            match last {
                Action::KillRequested { id_text } => {
                    lemma_named_by_text(id_text, id);
                },
                _ => {},
            }
            assert(!replay(history).contains_key(id@));
            if live(history, id) {
                let i = choose|i: int|
                    0 <= i < history.len() && (#[trigger] history[i]).starts(id) && forall|j: int|
                        i < j < history.len() ==> !(#[trigger] history[j]).removes(id);
                assert(history[end].removes(id));
            }
        } else {
            lemma_apply_other(replay(earlier), last, id);
            if live(earlier, id) {
                let i = choose|i: int|
                    0 <= i < earlier.len() && (#[trigger] earlier[i]).starts(id) && forall|j: int|
                        i < j < earlier.len() ==> !(#[trigger] earlier[j]).removes(id);
                assert(history[i] == earlier[i]);
                assert forall|j: int| i < j < history.len() implies !(#[trigger] history[j]).removes(
                    id,
                ) by {
                    if j < end {
                        assert(history[j] == earlier[j]);
                    }
                }
            }
            if live(history, id) {
                let i = choose|i: int|
                    0 <= i < history.len() && (#[trigger] history[i]).starts(id) && forall|j: int|
                        i < j < history.len() ==> !(#[trigger] history[j]).removes(id);
                assert(i < end);
                assert(earlier[i] == history[i]);
                assert forall|j: int| i < j < earlier.len() implies !(#[trigger] earlier[j]).removes(
                    id,
                ) by {
                    assert(earlier[j] == history[j]);
                }
            }
        }
    }
}

} // verus!
