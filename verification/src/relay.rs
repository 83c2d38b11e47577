//! The event relay: what one child process reports is turned, event by event
//! and in order, into notices tagged with the process id, until the process
//! has terminated.

use vstd::prelude::*;
use crate::decimal::{signed_decimal, signed_text, lemma_decimal_injective};
use crate::ids::ProcessId;
use crate::registry::Registry;

verus! {

/// One item from a child's output and exit channel.
#[derive(Debug, PartialEq, Eq)]
pub enum ChildEvent {
    /// A chunk of standard output.
    Stdout(String),
    /// A chunk of standard error.
    Stderr(String),
    /// A failure to read from the child, reported while it runs.
    Error(String),
    /// The child has ended. The system may leave out the code, the signal or
    /// both.
    Terminated { code: Option<i32>, signal: Option<i32> },
}

/// The model of a `ChildEvent`: the same cases, with texts as sequences.
pub enum EventModel {
    Stdout(Seq<char>),
    Stderr(Seq<char>),
    Error(Seq<char>),
    Terminated { code: Option<i32>, signal: Option<i32> },
}

impl View for ChildEvent {
    type V = EventModel;

    open spec fn view(&self) -> EventModel {
        match self {
            ChildEvent::Stdout(data) => EventModel::Stdout(data@),
            ChildEvent::Stderr(data) => EventModel::Stderr(data@),
            ChildEvent::Error(data) => EventModel::Error(data@),
            ChildEvent::Terminated { code, signal } => EventModel::Terminated {
                code: *code,
                signal: *signal,
            },
        }
    }
}

impl ChildEvent {
    /// A copy of the event.
    pub fn duplicate(&self) -> (r: ChildEvent)
        ensures
            r@ == self@,
    {
        match self {
            ChildEvent::Stdout(data) => ChildEvent::Stdout(data.clone()),
            ChildEvent::Stderr(data) => ChildEvent::Stderr(data.clone()),
            ChildEvent::Error(data) => ChildEvent::Error(data.clone()),
            ChildEvent::Terminated { code, signal } => ChildEvent::Terminated {
                code: *code,
                signal: *signal,
            },
        }
    }
}

/// What the subscriber is told. Every notice names the process it is about.
#[derive(Debug, PartialEq, Eq)]
pub enum Notification {
    /// Output on the standard stream.
    Stdout { pid: String, data: String },
    /// Output on the error stream, or a read failure.
    Stderr { pid: String, data: String },
    /// The process has ended, with its exit code and signal as text.
    Exit { pid: String, code: String, signal: String },
}

/// The model of a `Notification`.
pub enum NoticeModel {
    Stdout { pid: Seq<char>, data: Seq<char> },
    Stderr { pid: Seq<char>, data: Seq<char> },
    Exit { pid: Seq<char>, code: Seq<char>, signal: Seq<char> },
}

impl NoticeModel {
    /// The process that the notice names.
    pub open spec fn pid(self) -> Seq<char> {
        match self {
            NoticeModel::Stdout { pid, .. } => pid,
            NoticeModel::Stderr { pid, .. } => pid,
            NoticeModel::Exit { pid, .. } => pid,
        }
    }
}

impl View for Notification {
    type V = NoticeModel;

    open spec fn view(&self) -> NoticeModel {
        match self {
            Notification::Stdout { pid, data } => NoticeModel::Stdout { pid: pid@, data: data@ },
            Notification::Stderr { pid, data } => NoticeModel::Stderr { pid: pid@, data: data@ },
            Notification::Exit { pid, code, signal } => NoticeModel::Exit {
                pid: pid@,
                code: code@,
                signal: signal@,
            },
        }
    }
}

/// The number that is reported where the system reported none.
pub open spec fn reported(value: Option<i32>) -> int {
    match value {
        Some(v) => v as int,
        None => 0,
    }
}

/// The notice that the event `event` of process `pid` becomes. A read failure
/// is reported as error output; a missing exit code or signal as `0`.
pub open spec fn notice_for(pid: ProcessId, event: EventModel) -> NoticeModel {
    match event {
        EventModel::Stdout(data) => NoticeModel::Stdout { pid: pid.text(), data },
        EventModel::Stderr(data) => NoticeModel::Stderr { pid: pid.text(), data },
        EventModel::Error(data) => NoticeModel::Stderr { pid: pid.text(), data },
        EventModel::Terminated { code, signal } => NoticeModel::Exit {
            pid: pid.text(),
            code: signed_decimal(reported(code)),
            signal: signed_decimal(reported(signal)),
        },
    }
}

/// Builds the notice for one event of process `pid`.
pub fn notify(pid: ProcessId, event: ChildEvent) -> (notice: Notification)
    ensures
        notice@ == notice_for(pid, event@),
{
    match event {
        ChildEvent::Stdout(data) => Notification::Stdout { pid: pid.to_text(), data },
        ChildEvent::Stderr(data) => Notification::Stderr { pid: pid.to_text(), data },
        ChildEvent::Error(data) => Notification::Stderr { pid: pid.to_text(), data },
        ChildEvent::Terminated { code, signal } => {
            let code_value: i32 = match code {
                Some(v) => v,
                None => 0,
            };
            let signal_value: i32 = match signal {
                Some(v) => v,
                None => 0,
            };
            Notification::Exit {
                pid: pid.to_text(),
                code: signed_text(code_value),
                signal: signed_text(signal_value),
            }
        },
    }
}

impl NoticeModel {
    /// The name of the event under which the notice is sent.
    pub open spec fn event_name(self) -> Seq<char> {
        match self {
            NoticeModel::Stdout { .. } => "child-process-stdout"@,
            NoticeModel::Stderr { .. } => "child-process-stderr"@,
            NoticeModel::Exit { .. } => "child-process-exit"@,
        }
    }
}

impl Notification {
    /// The name of the event under which the notice is sent to the subscriber.
    pub fn event_name(&self) -> (name: &'static str)
        ensures
            name@ == self@.event_name(),
    {
        match self {
            Notification::Stdout { .. } => "child-process-stdout",
            Notification::Stderr { .. } => "child-process-stderr",
            Notification::Exit { .. } => "child-process-exit",
        }
    }
}

/// The relay of one process: it is streaming until the process has
/// terminated or its channel has closed, and finished from then on.
#[derive(Debug)]
pub struct Relay {
    pid: ProcessId,
    finished: bool,
}

impl Relay {
    /// The process whose events the relay forwards.
    pub closed spec fn pid(&self) -> ProcessId {
        self.pid
    }

    /// Whether the relay has ended.
    pub closed spec fn finished(&self) -> bool {
        self.finished
    }

    /// The relay for the process `pid`, streaming.
    pub fn new(pid: ProcessId) -> (r: Relay)
        ensures
            r.pid() == pid,
            !r.finished(),
    {
        Relay { pid, finished: false }
    }

    /// The process whose events the relay forwards.
    pub fn process(&self) -> (pid: ProcessId)
        ensures
            pid == self.pid(),
    {
        self.pid
    }

    /// Whether the relay has ended. Once it has, the process is to be taken
    /// out of the registry and no further event is read.
    pub fn is_finished(&self) -> (b: bool)
        ensures
            b == self.finished(),
    {
        self.finished
    }

    /// Takes the next event from the child's channel. While the relay is
    /// streaming, the event becomes exactly one notice, tagged with the
    /// relay's process, and a `Terminated` event ends the relay. After the end
    /// nothing is delivered.
    pub fn on_event(&mut self, event: ChildEvent) -> (notice: Option<Notification>)
        ensures
            final(self).pid() == old(self).pid(),
            old(self).finished() ==> notice is None && final(self).finished(),
            !old(self).finished() ==> {
                &&& notice matches Some(n)
                &&& n@ == notice_for(old(self).pid(), event@)
                &&& final(self).finished() == (event@ is Terminated)
            },
    {
        if self.finished {
            return None;
        }
        if let ChildEvent::Terminated { .. } = &event {
            self.finished = true;
        }
        Some(notify(self.pid, event))
    }

    /// Takes the relay's process out of the registry: the last thing a relay
    /// does. If the process was killed meanwhile, its entry is gone already
    /// and the registry stays as it is.
    pub fn retire<H>(&self, registry: &mut Registry<H>)
        ensures
            final(registry)@ == old(registry)@.remove(self.pid()@),
            !final(registry)@.contains_key(self.pid()@),
            !old(registry)@.contains_key(self.pid()@) ==> final(registry)@ == old(registry)@,
    {
        let _ = registry.remove(self.pid);
    }

    /// The child's channel has closed: the relay ends, with nothing to
    /// deliver.
    pub fn on_closed(&mut self)
        ensures
            final(self).pid() == old(self).pid(),
            final(self).finished(),
    {
        self.finished = true;
    }
}

/// How many events of a stream are delivered: every event up to the first
/// `Terminated`, and that one too.
pub open spec fn delivered(events: Seq<EventModel>) -> nat
    decreases events.len(),
{
    if events.len() == 0 {
        0
    } else if events[0] is Terminated {
        1
    } else {
        1 + delivered(events.drop_first())
    }
}

/// The notices that the subscriber gets for the stream `events` of process
/// `pid`: one for each delivered event, at the event's own position.
pub open spec fn relayed(pid: ProcessId, events: Seq<EventModel>) -> Seq<NoticeModel> {
    Seq::new(delivered(events), |i: int| notice_for(pid, events[i]))
}

/// The models of a sequence of events.
pub open spec fn event_models(events: Seq<ChildEvent>) -> Seq<EventModel> {
    events.map_values(|e: ChildEvent| e@)
}

/// The models of a sequence of notices.
pub open spec fn notice_models(notices: Seq<Notification>) -> Seq<NoticeModel> {
    notices.map_values(|n: Notification| n@)
}

/// No more events are delivered than the stream holds.
pub proof fn lemma_delivered_bound(events: Seq<EventModel>)
    ensures
        delivered(events) <= events.len(),
    decreases events.len(),
{
    if events.len() > 0 && !(events[0] is Terminated) {
        lemma_delivered_bound(events.drop_first());
    }
}

/// Where the stream's first `Terminated` stands at `k`, exactly the events up
/// to and including `k` are delivered.
pub proof fn lemma_delivered_through_terminal(events: Seq<EventModel>, k: int)
    requires
        0 <= k < events.len(),
        events[k] is Terminated,
        forall|j: int| 0 <= j < k ==> !(#[trigger] events[j] is Terminated),
    ensures
        delivered(events) == k + 1,
    decreases events.len(),
{
    if k > 0 {
        let rest = events.drop_first();
        assert forall|j: int| 0 <= j < k - 1 implies !(#[trigger] rest[j] is Terminated) by {
            assert(rest[j] == events[j + 1]);
        }
        lemma_delivered_through_terminal(rest, k - 1);
    }
}

/// A stream without a `Terminated` is delivered whole.
pub proof fn lemma_delivered_whole(events: Seq<EventModel>)
    requires
        forall|j: int| 0 <= j < events.len() ==> !(#[trigger] events[j] is Terminated),
    ensures
        delivered(events) == events.len(),
    decreases events.len(),
{
    if events.len() > 0 {
        let rest = events.drop_first();
        assert forall|j: int| 0 <= j < rest.len() implies !(#[trigger] rest[j] is Terminated) by {
            assert(rest[j] == events[j + 1]);
        }
        lemma_delivered_whole(rest);
    }
}

/// Of the delivered events only the last can be a `Terminated`.
pub proof fn lemma_delivered_prefix(events: Seq<EventModel>, j: int)
    requires
        0 <= j,
        j + 1 < delivered(events),
    ensures
        j < events.len(),
        !(events[j] is Terminated),
    decreases events.len(),
{
    lemma_delivered_bound(events);
    if j > 0 {
        lemma_delivered_prefix(events.drop_first(), j - 1);
        assert(events.drop_first()[j - 1] == events[j]);
    }
}

/// Runs a relay over a recorded stream and collects what it delivers.
pub fn relay_all(pid: ProcessId, events: &Vec<ChildEvent>) -> (notices: Vec<Notification>)
    ensures
        notice_models(notices@) == relayed(pid, event_models(events@)),
{
    let ghost models = event_models(events@);
    let mut relay = Relay::new(pid);
    let mut notices: Vec<Notification> = Vec::new();
    let mut i: usize = 0;
    while i < events.len() && !relay.is_finished()
        invariant
            0 <= i <= events.len(),
            models == event_models(events@),
            relay.pid() == pid,
            notices@.len() == i,
            forall|k: int| 0 <= k < i ==> (#[trigger] notices@[k])@ == notice_for(pid, models[k]),
            !relay.finished() ==> forall|k: int| 0 <= k < i ==> !(#[trigger] models[k] is Terminated),
            relay.finished() ==> i >= 1 && models[i - 1] is Terminated && forall|k: int|
                0 <= k < i - 1 ==> !(#[trigger] models[k] is Terminated),
        decreases events.len() - i,
    {
        let notice = relay.on_event(events[i].duplicate());
        match notice {
            Some(n) => {
                notices.push(n);
            },
            None => {},
        }
        i = i + 1;
    }
    proof {
        if relay.finished() {
            lemma_delivered_through_terminal(models, i - 1);
        } else {
            lemma_delivered_whole(models);
        }
        assert(notice_models(notices@) =~= relayed(pid, models));
    }
    notices
}

/// Order is kept. Let a chunk of output stand at `i` in a process's stream
/// and a `Terminated` at a later place `j`. Whenever the exit notice of `j` is
/// delivered, the notice of the chunk was delivered before it, each at its
/// event's position; and the exit notice of the stream's first `Terminated` is
/// delivered.
pub proof fn lemma_output_before_exit(pid: ProcessId, events: Seq<EventModel>, i: int, j: int)
    requires
        0 <= i < j < events.len(),
        events[i] is Stdout,
        events[j] is Terminated,
    ensures
        j < delivered(events) ==> {
            &&& relayed(pid, events)[i] == notice_for(pid, events[i])
            &&& relayed(pid, events)[i] is Stdout
            &&& relayed(pid, events)[j] == notice_for(pid, events[j])
            &&& relayed(pid, events)[j] is Exit
        },
        (forall|k: int| 0 <= k < j ==> !(#[trigger] events[k] is Terminated)) ==> j < delivered(
            events,
        ),
{
    if forall|k: int| 0 <= k < j ==> !(#[trigger] events[k] is Terminated) {
        lemma_delivered_through_terminal(events, j);
    }
}

/// An exit notice ends what is delivered: no notice follows it, and every
/// notice before the last is output.
pub proof fn lemma_exit_is_last(pid: ProcessId, events: Seq<EventModel>)
    ensures
        forall|k: int|
            0 <= k < relayed(pid, events).len() && #[trigger] relayed(pid, events)[k] is Exit
                ==> k == relayed(pid, events).len() - 1,
{
    assert forall|k: int|
        0 <= k < relayed(pid, events).len() && #[trigger] relayed(
            pid,
            events,
        )[k] is Exit implies k == relayed(pid, events).len() - 1 by {
        if k + 1 < delivered(events) {
            lemma_delivered_prefix(events, k);
        }
    }
}

/// Streams do not mix. Every notice of a process's stream names that
/// process, and the notices of two different processes never coincide,
/// whatever the two streams hold.
pub proof fn lemma_streams_do_not_mix(
    first: ProcessId,
    first_events: Seq<EventModel>,
    second: ProcessId,
    second_events: Seq<EventModel>,
)
    requires
        first != second,
    ensures
        forall|i: int|
            0 <= i < relayed(first, first_events).len() ==> (#[trigger] relayed(
                first,
                first_events,
            )[i]).pid() == first.text(),
        forall|j: int|
            0 <= j < relayed(second, second_events).len() ==> (#[trigger] relayed(
                second,
                second_events,
            )[j]).pid() == second.text(),
        first.text() != second.text(),
        forall|i: int, j: int|
            0 <= i < relayed(first, first_events).len() && 0 <= j < relayed(
                second,
                second_events,
            ).len() ==> #[trigger] relayed(first, first_events)[i] != #[trigger] relayed(
                second,
                second_events,
            )[j],
{
    if first.text() == second.text() {
        lemma_decimal_injective(first.0 as nat, second.0 as nat);
    }
}

} // verus!
