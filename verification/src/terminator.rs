//! The terminator: a request to kill a process takes its entry out of the
//! registry, and only the call that found the entry gets the handle.

use vstd::prelude::*;
use crate::decimal::decimal_value;
use crate::ids::ProcessId;
use crate::registry::Registry;

verus! {

/// The registered process that the text `id_text` names, if it names one.
pub open spec fn kill_target<H>(table: Map<u32, H>, id_text: Seq<char>) -> Option<u32> {
    match decimal_value(id_text) {
        Some(n) => if table.contains_key(n) {
            Some(n)
        } else {
            None
        },
        None => None,
    }
}

/// The registry after a request to kill `id_text`.
pub open spec fn after_kill<H>(table: Map<u32, H>, id_text: Seq<char>) -> Map<u32, H> {
    match kill_target(table, id_text) {
        Some(n) => table.remove(n),
        None => table,
    }
}

/// The handle that a request to kill `id_text` hands out for termination.
pub open spec fn kill_handle<H>(table: Map<u32, H>, id_text: Seq<char>) -> Option<H> {
    match kill_target(table, id_text) {
        Some(n) => Some(table[n]),
        None => None,
    }
}

/// Handles a request to kill the process that `id_text` names. If it is
/// registered, its entry leaves the registry and its handle is returned: the
/// caller asks the system to terminate it and does not wait. If it is not
/// (it has exited, was killed before, or the text names no process), nothing
/// changes and nothing is returned. The request never fails.
pub fn kill<H>(registry: &mut Registry<H>, id_text: &str) -> (handle: Option<H>)
    ensures
        final(registry)@ == after_kill(old(registry)@, id_text@),
        handle == kill_handle(old(registry)@, id_text@),
        kill_target(old(registry)@, id_text@) is None ==> final(registry)@ == old(registry)@,
{
    match ProcessId::parse(id_text) {
        Some(id) => registry.remove(id),
        None => None,
    }
}

/// A second request for the same id finds nothing. Whatever the registry
/// held, after one request to kill `id_text` another one hands out no handle
/// and changes nothing: of two requests at most one reaches the system.
pub proof fn lemma_kill_once<H>(table: Map<u32, H>, id_text: Seq<char>)
    ensures
        kill_handle(after_kill(table, id_text), id_text) is None,
        after_kill(after_kill(table, id_text), id_text) == after_kill(table, id_text),
{
}

/// A request for an id that is not registered changes nothing and hands out
/// nothing.
pub proof fn lemma_kill_absent<H>(table: Map<u32, H>, id: ProcessId)
    requires
        !table.contains_key(id@),
    ensures
        after_kill(table, id.text()) == table,
        kill_handle(table, id.text()) is None,
{
    crate::ids::lemma_id_text_round_trip(id);
}

/// A request for a registered id takes exactly that entry out and hands out
/// its handle.
pub proof fn lemma_kill_present<H>(table: Map<u32, H>, id: ProcessId)
    requires
        table.contains_key(id@),
    ensures
        after_kill(table, id.text()) == table.remove(id@),
        kill_handle(table, id.text()) == Some(table[id@]),
{
    crate::ids::lemma_id_text_round_trip(id);
}

/// The life of an entry. A process is registered from the moment its spawn is
/// settled; it is not once its relay has retired it, and not once it has
/// been killed. The relay and the terminator may both take the entry out, in
/// either order: the one that comes second finds nothing.
pub proof fn lemma_registered_until_removed<H>(table: Map<u32, H>, id: ProcessId, handle: H)
    ensures
        table.insert(id@, handle).contains_key(id@),
        !table.insert(id@, handle).remove(id@).contains_key(id@),
        !after_kill(table.insert(id@, handle), id.text()).contains_key(id@),
        kill_handle(table.insert(id@, handle), id.text()) == Some(handle),
        kill_handle(table.insert(id@, handle).remove(id@), id.text()) is None,
        after_kill(table.insert(id@, handle), id.text()).remove(id@) == after_kill(
            table.insert(id@, handle),
            id.text(),
        ),
{
    crate::ids::lemma_id_text_round_trip(id);
    let killed = after_kill(table.insert(id@, handle), id.text());
    assert(killed.remove(id@) =~= killed);
}

} // verus!
