//! The serializer: what to do with each package, given how well the MQTT
//! client keeps up.
//!
//! The serializer itself neither waits nor sends. It is told what happened
//! (an [`Event`]) and answers with what to do next (an [`Action`]); whoever
//! drives it owns the collector channel, the MQTT client and the spool.

use crate::config::{position, stream_names, Config};
use crate::error::Error;
use crate::json::{push_bytes, quoted};
use crate::metrics::{
    add_capped, cleared, errors_with, fresh, report, stamped, sub_floored, Metrics, MetricsView,
};
use crate::mqtt::{
    body_len, encodable, frame, read_packet, read_publish, readable, reads_back, topic_bytes,
    Publish, PublishView, QoS,
};
use crate::stream::Package;
use vstd::prelude::*;

verus! {

/// How the serializer currently treats what it receives.
#[derive(Debug, Clone, PartialEq, Eq)]
pub enum Status {
    /// Packages go straight to the client.
    Normal,
    /// The client's queue was full: the packet it turned down is being
    /// delivered, and packages go to the spool meanwhile.
    SlowEventloop(Publish),
    /// The spool is being drained; packages go to the spool meanwhile.
    EventLoopReady,
    /// The client gave a packet back: packages go to the spool from now on.
    EventLoopCrash(Publish),
}

/// What a status holds.
pub ghost enum StatusView {
    Normal,
    SlowEventloop(PublishView),
    EventLoopReady,
    EventLoopCrash(PublishView),
}

impl View for Status {
    type V = StatusView;

    open spec fn view(&self) -> StatusView {
        match self {
            Status::Normal => StatusView::Normal,
            Status::SlowEventloop(p) => StatusView::SlowEventloop(p@),
            Status::EventLoopReady => StatusView::EventLoopReady,
            Status::EventLoopCrash(p) => StatusView::EventLoopCrash(p@),
        }
    }
}

/// How the client answered a publish that must not block.
#[derive(Debug, Clone, PartialEq, Eq)]
pub enum Tried {
    /// The packet is in the client's queue.
    Accepted,
    /// The queue was full; the packet comes back.
    Full(Publish),
    /// The client failed otherwise.
    Failed,
}

/// How a publish that was waited for ended.
#[derive(Debug, Clone, PartialEq, Eq)]
pub enum Sent {
    /// The packet is in the client's queue.
    Delivered,
    /// The client's event loop is gone; the packet comes back.
    Reclaimed(Publish),
    /// The client failed otherwise.
    Failed,
}

/// What the spool did after bytes were appended to it.
#[derive(Debug, Clone, Copy, PartialEq, Eq, Structural)]
pub enum Flushed {
    /// Every segment is still there.
    Kept,
    /// The oldest segment was deleted to stay within the quota.
    Evicted,
    /// The spool reported an error.
    Failed,
}

/// What the spool had when it was asked for its next segment.
#[derive(Debug, Clone, PartialEq, Eq)]
pub enum Loaded {
    /// Nothing is left to read.
    Eof,
    /// The spool reported an error.
    Failed,
    /// The bytes that are to be read next.
    Segment(Vec<u8>),
}

/// What happened.
#[derive(Debug)]
pub enum Event<P> {
    /// The collector handed over a package.
    Data(P),
    /// The collector channel has no sender left.
    Closed,
    /// The metrics are due; the time is given in milliseconds since the epoch.
    Tick(u64),
    /// The client answered [`Action::TryPublish`].
    Tried(Tried),
    /// The publish begun by [`Action::Send`] or [`Action::Publish`] ended.
    Sent(Sent),
    /// The spool took the bytes of [`Action::Write`].
    Written(Flushed),
    /// The spool answered [`Action::Load`].
    Loaded(Loaded),
}

/// What to do next.
#[derive(Debug, Clone, PartialEq, Eq)]
pub enum Action {
    /// Wait for the next event.
    Wait,
    /// Offer the packet to the client without blocking and report how it
    /// answered.
    TryPublish(Publish),
    /// Publish the packet, wait until the client has taken it, and report
    /// how that ended.
    Send(Publish),
    /// Begin to publish the packet, go on waiting for events, and report how
    /// the publish ended once it has.
    Publish(Publish),
    /// Append the bytes to the spool, let it rotate its segments, and report
    /// what it did.
    Write(Vec<u8>),
    /// Ask the spool for its next segment and report what it had.
    Load,
}

/// What a package lets be seen of itself.
pub ghost struct PackageView {
    pub topic: Seq<char>,
    pub payload: Seq<u8>,
    pub anomalies: Option<(Seq<char>, usize)>,
}

/// What a package lets be seen of itself.
pub open spec fn seen<P: Package>(package: &P) -> PackageView {
    PackageView {
        topic: package.spec_topic(),
        payload: package.spec_payload(),
        anomalies: package.spec_anomalies(),
    }
}

/// What an answer to a publish that must not block holds.
pub ghost enum TriedView {
    Accepted,
    Full(PublishView),
    Failed,
}

/// What the end of a publish holds.
pub ghost enum SentView {
    Delivered,
    Reclaimed(PublishView),
    Failed,
}

/// What an answer of the spool holds.
pub ghost enum LoadedView {
    Eof,
    Failed,
    Segment(Seq<u8>),
}

/// What an event holds.
pub ghost enum EventView {
    Data(PackageView),
    Closed,
    Tick(u64),
    Tried(TriedView),
    Sent(SentView),
    Written(Flushed),
    Loaded(LoadedView),
}

/// What an action holds.
pub ghost enum ActionView {
    Wait,
    TryPublish(PublishView),
    Send(PublishView),
    Publish(PublishView),
    Write(Seq<u8>),
    Load,
}

impl View for Tried {
    type V = TriedView;

    open spec fn view(&self) -> TriedView {
        match self {
            Tried::Accepted => TriedView::Accepted,
            Tried::Full(p) => TriedView::Full(p@),
            Tried::Failed => TriedView::Failed,
        }
    }
}

impl View for Sent {
    type V = SentView;

    open spec fn view(&self) -> SentView {
        match self {
            Sent::Delivered => SentView::Delivered,
            Sent::Reclaimed(p) => SentView::Reclaimed(p@),
            Sent::Failed => SentView::Failed,
        }
    }
}

impl View for Loaded {
    type V = LoadedView;

    open spec fn view(&self) -> LoadedView {
        match self {
            Loaded::Eof => LoadedView::Eof,
            Loaded::Failed => LoadedView::Failed,
            Loaded::Segment(bytes) => LoadedView::Segment(bytes@),
        }
    }
}

impl<P: Package> View for Event<P> {
    type V = EventView;

    open spec fn view(&self) -> EventView {
        match self {
            Event::Data(package) => EventView::Data(seen(package)),
            Event::Closed => EventView::Closed,
            Event::Tick(now) => EventView::Tick(*now),
            Event::Tried(tried) => EventView::Tried(tried@),
            Event::Sent(sent) => EventView::Sent(sent@),
            Event::Written(flushed) => EventView::Written(*flushed),
            Event::Loaded(loaded) => EventView::Loaded(loaded@),
        }
    }
}

impl View for Action {
    type V = ActionView;

    open spec fn view(&self) -> ActionView {
        match self {
            Action::Wait => ActionView::Wait,
            Action::TryPublish(p) => ActionView::TryPublish(p@),
            Action::Send(p) => ActionView::Send(p@),
            Action::Publish(p) => ActionView::Publish(p@),
            Action::Write(bytes) => ActionView::Write(bytes@),
            Action::Load => ActionView::Load,
        }
    }
}

/// The view of an answer of the serializer.
pub open spec fn answer(outcome: Result<Action, Error>) -> Result<ActionView, Error> {
    match outcome {
        Ok(action) => Ok(action@),
        Err(e) => Err(e),
    }
}

/// What the serializer holds.
pub ghost struct State {
    pub status: StatusView,
    /// The bytes of the spool segment that is being read back; `None` where
    /// no spool is configured.
    pub storage: Option<Seq<u8>>,
    pub max_packet_size: usize,
    pub metrics: MetricsView,
    /// The size of the payload that the client was handed and has not
    /// answered for.
    pub in_flight: Option<usize>,
}

/// The counters after the anomalies of a package were noted.
pub open spec fn noted(metrics: MetricsView, anomalies: Option<(Seq<char>, usize)>) -> MetricsView {
    match anomalies {
        Some((text, count)) => MetricsView {
            error_count: add_capped(metrics.error_count, count),
            errors: errors_with(metrics.errors, text),
            ..metrics
        },
        None => metrics,
    }
}

/// The packet that carries `payload` to `topic`: to be delivered at least
/// once, not retained.
pub open spec fn outgoing(topic: Seq<char>, payload: Seq<u8>) -> PublishView {
    PublishView { dup: false, qos: QoS::AtLeastOnce, retain: false, topic, pkid: 0, payload }
}

/// The packet as it is written to the spool.
pub open spec fn spooled(topic: Seq<char>, payload: Seq<u8>) -> PublishView {
    PublishView { pkid: 1, ..outgoing(topic, payload) }
}

/// What spilling a package does: its anomalies are noted, and where its
/// packet can be encoded, the packet's bytes go to the spool and the size of
/// its payload is counted as on disk.
pub open spec fn spilled(metrics: MetricsView, package: PackageView) -> (
    MetricsView,
    Option<Seq<u8>>,
) {
    let metrics = noted(metrics, package.anomalies);
    let packet = spooled(package.topic, package.payload);
    if encodable(packet) {
        (
            MetricsView {
                total_disk_size: add_capped(
                    metrics.total_disk_size,
                    package.payload.len() as usize,
                ),
                ..metrics
            },
            Some(frame(packet)),
        )
    } else {
        (metrics, None)
    }
}

/// The action that follows a spill.
pub open spec fn spill_action(bytes: Option<Seq<u8>>) -> ActionView {
    match bytes {
        Some(bytes) => ActionView::Write(bytes),
        None => ActionView::Wait,
    }
}

/// The counters after the spool told what it did.
pub open spec fn flushed(metrics: MetricsView, flushed: Flushed) -> MetricsView {
    if flushed == Flushed::Evicted {
        MetricsView { lost_segments: add_capped(metrics.lost_segments, 1), ..metrics }
    } else {
        metrics
    }
}

/// What follows a look for the next packet in the spool: a packet that was
/// found is sent on its way, and `rest`, which the look has left of the
/// segment, is read on later. Where none was found, the drain is over, and
/// what is left of the segment is given up.
pub open spec fn resumed(state: State, found: Option<PublishView>, rest: Seq<u8>) -> (
    State,
    ActionView,
) {
    match found {
        Some(packet) => (
            State {
                status: StatusView::EventLoopReady,
                storage: Some(rest),
                in_flight: Some(packet.payload.len() as usize),
                ..state
            },
            ActionView::Publish(packet),
        ),
        None => (
            State {
                status: StatusView::Normal,
                storage: Some(Seq::<u8>::empty()),
                in_flight: None,
                ..state
            },
            ActionView::Wait,
        ),
    }
}

/// The drain of the spool begins: the spool is asked for its next segment.
pub open spec fn entered(state: State) -> (State, ActionView) {
    (State { status: StatusView::EventLoopReady, in_flight: None, ..state }, ActionView::Load)
}

/// Reads the next packet off `reader`, and goes on as `resumed` says.
pub open spec fn decoded(state: State, reader: Seq<u8>) -> (State, ActionView) {
    let (found, rest) = read_packet(reader, state.max_packet_size);
    resumed(state, found, rest)
}

/// Takes up the drain of the spool: the next segment is asked for where
/// none is being read, else the next packet is read off the segment.
pub open spec fn drained(state: State) -> (State, ActionView) {
    let reader = state.storage->0;
    if reader.len() == 0 {
        entered(state)
    } else {
        decoded(state, reader)
    }
}

/// The first step of a serializer: without a spool it waits for packages,
/// with one it drains what an earlier run left there.
pub open spec fn started(state: State) -> (State, ActionView) {
    if state.storage is None {
        (State { status: StatusView::Normal, in_flight: None, ..state }, ActionView::Wait)
    } else {
        drained(state)
    }
}

/// The state and the packet after the metrics came due at `now`.
pub open spec fn ticked(state: State, now: u64) -> (State, PublishView) {
    let told = stamped(state.metrics, now);
    let payload = report(told, quoted(state.metrics.errors));
    (
        State { metrics: cleared(told), in_flight: Some(payload.len() as usize), ..state },
        outgoing(state.metrics.topic, payload),
    )
}

/// The state after a package was taken in for sending, and its packet.
pub open spec fn taken(state: State, package: PackageView) -> (State, PublishView) {
    (
        State {
            metrics: noted(state.metrics, package.anomalies),
            in_flight: Some(package.payload.len() as usize),
            ..state
        },
        outgoing(package.topic, package.payload),
    )
}

/// The counters after the packet in flight was taken by the client.
pub open spec fn counted(metrics: MetricsView, in_flight: Option<usize>) -> MetricsView {
    match in_flight {
        Some(size) => MetricsView {
            total_sent_size: add_capped(metrics.total_sent_size, size),
            ..metrics
        },
        None => metrics,
    }
}

/// The counters after the packet in flight, which came from the spool, was
/// taken by the client.
pub open spec fn recovered(metrics: MetricsView, in_flight: Option<usize>) -> MetricsView {
    match in_flight {
        Some(size) => MetricsView {
            total_disk_size: sub_floored(metrics.total_disk_size, size),
            total_sent_size: add_capped(metrics.total_sent_size, size),
            ..metrics
        },
        None => metrics,
    }
}

/// Without a spool: every package and every report is published and waited
/// for, and any failure ends the serializer.
pub open spec fn direct_step(state: State, event: EventView) -> (State, Result<ActionView, Error>) {
    match event {
        EventView::Data(package) => {
            let (next, packet) = taken(state, package);
            (next, Ok(ActionView::Send(packet)))
        },
        EventView::Tick(now) => {
            let (next, packet) = ticked(state, now);
            (next, Ok(ActionView::Send(packet)))
        },
        EventView::Sent(SentView::Delivered) => (
            State { metrics: counted(state.metrics, state.in_flight), in_flight: None, ..state },
            Ok(ActionView::Wait),
        ),
        EventView::Sent(_) => (state, Err(Error::Client)),
        EventView::Closed => (state, Err(Error::Collector)),
        _ => (state, Ok(ActionView::Wait)),
    }
}

/// Normal mode: every package and every report is offered to the client;
/// a full queue leads to the slow mode, with the packet that was turned down.
pub open spec fn normal_step(state: State, event: EventView) -> (State, Result<ActionView, Error>) {
    match event {
        EventView::Data(package) => {
            let (next, packet) = taken(state, package);
            (next, Ok(ActionView::TryPublish(packet)))
        },
        EventView::Tick(now) => {
            let (next, packet) = ticked(state, now);
            (next, Ok(ActionView::TryPublish(packet)))
        },
        EventView::Tried(TriedView::Accepted) => (
            State { metrics: counted(state.metrics, state.in_flight), in_flight: None, ..state },
            Ok(ActionView::Wait),
        ),
        EventView::Tried(TriedView::Full(packet)) => (
            State { status: StatusView::SlowEventloop(packet), in_flight: None, ..state },
            Ok(ActionView::Publish(packet)),
        ),
        EventView::Tried(TriedView::Failed) => (state, Err(Error::Client)),
        EventView::Closed => (state, Err(Error::Collector)),
        _ => (state, Ok(ActionView::Wait)),
    }
}

/// What every mode with a spool does with a package, and with the spool's
/// answer: the package is spilled, a lost segment is counted.
pub open spec fn spill_step(state: State, event: EventView) -> (State, Result<ActionView, Error>) {
    match event {
        EventView::Data(package) => {
            let (metrics, bytes) = spilled(state.metrics, package);
            (State { metrics, ..state }, Ok(spill_action(bytes)))
        },
        EventView::Written(told) => (
            State { metrics: flushed(state.metrics, told), ..state },
            Ok(ActionView::Wait),
        ),
        EventView::Closed => (state, Err(Error::Collector)),
        _ => (state, Ok(ActionView::Wait)),
    }
}

/// Slow mode: packages are spilled until the packet that was turned down is
/// delivered; then the drain of the spool begins. A failure of that delivery
/// ends the serializer.
pub open spec fn disk_step(state: State, event: EventView) -> (State, Result<ActionView, Error>) {
    match event {
        EventView::Sent(SentView::Delivered) => {
            let (next, action) = entered(state);
            (next, Ok(action))
        },
        EventView::Sent(_) => (state, Err(Error::Client)),
        _ => spill_step(state, event),
    }
}

/// Draining the spool: packages are spilled; every packet that the client
/// takes is counted as sent and as gone from the disk, and the next one is
/// read. When the spool has no more, normal mode follows; when the client
/// gives a packet back, the crash mode does, and holds that packet.
pub open spec fn catchup_step(state: State, event: EventView) -> (
    State,
    Result<ActionView, Error>,
) {
    match event {
        EventView::Sent(SentView::Delivered) => {
            let (next, action) = drained(
                State { metrics: recovered(state.metrics, state.in_flight), ..state },
            );
            (next, Ok(action))
        },
        EventView::Sent(SentView::Reclaimed(packet)) => (
            State {
                status: StatusView::EventLoopCrash(packet),
                in_flight: None,
                ..state
            },
            Ok(ActionView::Wait),
        ),
        EventView::Sent(SentView::Failed) => (state, Err(Error::Client)),
        EventView::Loaded(LoadedView::Segment(bytes)) => {
            let (next, action) = decoded(state, bytes);
            (next, Ok(action))
        },
        EventView::Loaded(_) => (
            State { status: StatusView::Normal, in_flight: None, ..state },
            Ok(ActionView::Wait),
        ),
        _ => spill_step(state, event),
    }
}

/// Crash mode: packages are spilled, whatever else happens.
pub open spec fn crash_step(state: State, event: EventView) -> (State, Result<ActionView, Error>) {
    spill_step(state, event)
}

/// What the serializer does with an event: its next state and its answer.
pub open spec fn step(state: State, event: EventView) -> (State, Result<ActionView, Error>) {
    if state.storage is None {
        direct_step(state, event)
    } else {
        match state.status {
            StatusView::Normal => normal_step(state, event),
            StatusView::SlowEventloop(_) => disk_step(state, event),
            StatusView::EventLoopReady => catchup_step(state, event),
            StatusView::EventLoopCrash(_) => crash_step(state, event),
        }
    }
}

/// Whether a serializer in status `from` can be in status `to` one event
/// later: it stays where it is, or it moves from normal to slow, from slow to
/// the drain, or from the drain to normal or to crash.
pub open spec fn follows(from: StatusView, to: StatusView) -> bool {
    ||| to == from
    ||| from is Normal && to is SlowEventloop
    ||| from is SlowEventloop && to is EventLoopReady
    ||| from is EventLoopReady && (to is Normal || to is EventLoopCrash)
}

/// The serializer only ever moves along the edges of `follows`.
pub proof fn lemma_step_follows(state: State, event: EventView)
    requires
        state.storage is None ==> state.status is Normal,
    ensures
        follows(state.status, step(state, event).0.status),
        state.storage is None ==> step(state, event).0.status is Normal,
        step(state, event).0.storage is None <==> state.storage is None,
{
}

/// Once in crash mode, the serializer stays there; it spills every package
/// it is given, and nothing but the end of the collector stops it.
pub proof fn lemma_crash_is_final(state: State, event: EventView)
    requires
        state.storage is Some,
        state.status is EventLoopCrash,
    ensures
        step(state, event).0.status == state.status,
        step(state, event).1 is Err <==> event is Closed,
        event matches EventView::Data(package) ==> step(state, event).1 == Ok::<
            ActionView,
            Error,
        >(spill_action(spilled(state.metrics, package).1)),
{
}

/// The count of bytes sent never goes down, and the count of bytes on disk
/// never leaves the range of its type, whatever happens.
pub proof fn lemma_sizes(state: State, event: EventView)
    ensures
        step(state, event).0.metrics.total_sent_size >= state.metrics.total_sent_size,
        0 <= step(state, event).0.metrics.total_disk_size <= usize::MAX,
{
}

/// While the spool is drained, in slow mode and in crash mode, no package
/// is dropped without a trace: its packet goes to the spool, or it cannot be
/// encoded at all.
pub proof fn lemma_spill(state: State, package: PackageView)
    requires
        state.storage is Some,
        !(state.status is Normal),
    ensures
        step(state, EventView::Data(package)).0.status == state.status,
        step(state, EventView::Data(package)).1 == if encodable(
            spooled(package.topic, package.payload),
        ) {
            Ok::<ActionView, Error>(
                ActionView::Write(frame(spooled(package.topic, package.payload))),
            )
        } else {
            Ok::<ActionView, Error>(ActionView::Wait)
        },
{
}

/// The place of the stream named `metrics` among the configured streams,
/// or their number where none has that name.
pub open spec fn metrics_at(config: Config) -> int {
    position(stream_names(config.streams@), "metrics"@)
}

/// The state of a serializer that was just made for `config`, which names
/// a stream for the metrics.
pub open spec fn initial(config: Config) -> State {
    State {
        status: if config.persistence is Some {
            StatusView::EventLoopReady
        } else {
            StatusView::Normal
        },
        storage: if config.persistence is Some {
            Some(Seq::<u8>::empty())
        } else {
            None
        },
        max_packet_size: config.max_packet_size,
        metrics: fresh(config.streams@[metrics_at(config)].1.topic@),
        in_flight: None,
    }
}

/// The state after a run of events, each taken in as `step` says.
pub open spec fn ran(state: State, events: Seq<EventView>) -> State
    decreases events.len(),
{
    if events.len() == 0 {
        state
    } else {
        step(ran(state, events.drop_last()), events.last()).0
    }
}

/// The answer to the event `at` of a run.
pub open spec fn answered(state: State, events: Seq<EventView>, at: int) -> Result<
    ActionView,
    Error,
> {
    step(ran(state, events.subrange(0, at)), events[at]).1
}

/// Whether an event is one of a run in which the client keeps up: a
/// package, a report that is due, or the client's word that it took a packet.
pub open spec fn keeps_up(event: EventView) -> bool {
    event is Data || event is Tick || event == EventView::Tried(TriedView::Accepted)
}

/// While the client keeps up, a serializer in normal mode stays there
/// through any run: every package and every report is offered to the
/// client, nothing goes to the spool, and the count of bytes on disk and what
/// is read back from the spool stay as they are.
pub proof fn lemma_normal_run(state: State, events: Seq<EventView>)
    requires
        state.storage is Some,
        state.status is Normal,
        forall|i: int| 0 <= i < events.len() ==> keeps_up(#[trigger] events[i]),
    ensures
        ran(state, events).status is Normal,
        ran(state, events).storage == state.storage,
        ran(state, events).metrics.total_disk_size == state.metrics.total_disk_size,
        ran(state, events).metrics.total_sent_size >= state.metrics.total_sent_size,
        forall|i: int|
            0 <= i < events.len() ==> match #[trigger] events[i] {
                EventView::Data(package) => answered(state, events, i) == Ok::<ActionView, Error>(
                    ActionView::TryPublish(outgoing(package.topic, package.payload)),
                ),
                EventView::Tick(_) => answered(state, events, i) matches Ok(
                    ActionView::TryPublish(_),
                ),
                _ => answered(state, events, i) == Ok::<ActionView, Error>(ActionView::Wait),
            },
    decreases events.len(),
{
    if events.len() > 0 {
        let front = events.drop_last();
        lemma_normal_run(state, front);
        assert forall|i: int| 0 <= i < events.len() implies match #[trigger] events[i] {
            EventView::Data(package) => answered(state, events, i) == Ok::<ActionView, Error>(
                ActionView::TryPublish(outgoing(package.topic, package.payload)),
            ),
            EventView::Tick(_) => answered(state, events, i) matches Ok(ActionView::TryPublish(_)),
            _ => answered(state, events, i) == Ok::<ActionView, Error>(ActionView::Wait),
        } by {
            if i < front.len() {
                assert(front.subrange(0, i) == events.subrange(0, i));
                assert(answered(state, front, i) == answered(state, events, i));
            } else {
                assert(events.subrange(0, i) == front);
            }
        }
    }
}

/// Through any run, the count of bytes sent never goes down, a serializer
/// with a spool keeps it, and one in crash mode stays in crash mode, with
/// the packet that the client gave back.
pub proof fn lemma_run(state: State, events: Seq<EventView>)
    requires
        state.storage is None ==> state.status is Normal,
    ensures
        ran(state, events).metrics.total_sent_size >= state.metrics.total_sent_size,
        ran(state, events).storage is None <==> state.storage is None,
        ran(state, events).storage is None ==> ran(state, events).status is Normal,
        state.status is EventLoopCrash ==> ran(state, events).status == state.status,
    decreases events.len(),
{
    if events.len() > 0 {
        lemma_run(state, events.drop_last());
        lemma_step_follows(ran(state, events.drop_last()), events.last());
        lemma_sizes(ran(state, events.drop_last()), events.last());
    }
}

/// A package that was written to the spool is read back as an equal packet:
/// where what `write_to_storage` has written for it stands at the head of the
/// segment that `read_from_storage` reads, the packet found has the package's
/// topic and payload and is to be delivered at least once, and what follows
/// it in the segment is left. This holds of a package whose topic is no
/// longer than 65,535 bytes and whose packet is within the size that the
/// reader takes.
pub proof fn lemma_spooled_is_read_back(
    metrics: MetricsView,
    package: PackageView,
    rest: Seq<u8>,
    max_packet_size: usize,
    found: Option<PublishView>,
    left: Seq<u8>,
)
    requires
        spilled(metrics, package).1 matches Some(written) && reads_back(
            written + rest,
            max_packet_size,
            found,
            left,
        ),
        topic_bytes(spooled(package.topic, package.payload)).len() <= 65_535,
        body_len(spooled(package.topic, package.payload)) <= max_packet_size,
    ensures
        found == Some(spooled(package.topic, package.payload)),
        found->0.topic == package.topic,
        found->0.payload == package.payload,
        found->0.qos == QoS::AtLeastOnce,
        left == rest,
{
    let packet = spooled(package.topic, package.payload);
    assert(readable(packet, max_packet_size));
    assert(spilled(metrics, package).1->0 == frame(packet));
}

/// The library's end of the spool: the segment that is being read back.
#[derive(Debug)]
pub struct Storage {
    reader: Vec<u8>,
}

impl View for Storage {
    type V = Seq<u8>;

    closed spec fn view(&self) -> Seq<u8> {
        self.reader@
    }
}

/// The bytes being read back, where there is a spool.
pub open spec fn reading(storage: Option<Storage>) -> Option<Seq<u8>> {
    match storage {
        Some(storage) => Some(storage@),
        None => None,
    }
}

impl Storage {
    /// A spool end with nothing to read.
    pub fn new() -> (storage: Storage)
        ensures
            storage@ == Seq::<u8>::empty(),
    {
        Storage { reader: Vec::new() }
    }

    /// Takes `segment` as what is to be read next.
    pub fn load(&mut self, segment: Vec<u8>)
        ensures
            final(self)@ == segment@,
    {
        self.reader = segment;
    }

    /// The number of bytes that wait to be read.
    pub fn unread(&self) -> (n: usize)
        ensures
            n == self@.len(),
    {
        self.reader.len()
    }
}

/// Takes topic and payload out of a package and notes its anomalies in the
/// metrics. The number in the middle is the payload's size.
pub fn get_payload<P: Package>(data: &P, metrics: &mut Metrics) -> (out: (String, usize, Vec<u8>))
    ensures
        final(metrics)@ == noted(old(metrics)@, data.spec_anomalies()),
        old(metrics).wf() ==> final(metrics).wf(),
        out.0@ == data.spec_topic(),
        out.1 == out.2@.len(),
        out.2@ == data.spec_payload(),
{
    if let Some((errors, count)) = data.anomalies() {
        metrics.add_errors(errors.as_str(), count);
    }
    let payload = data.serialize();
    (data.topic(), payload.len(), payload)
}

/// Encodes the packet of a package for the spool and counts its payload as
/// on disk. Nothing comes back where the packet cannot be encoded. Without
/// a spool the call fails, and the metrics stay as they are.
pub fn write_to_storage<P: Package>(
    data: &P,
    metrics: &mut Metrics,
    storage: &Option<Storage>,
) -> (written: Result<Option<Vec<u8>>, Error>)
    ensures
        old(metrics).wf() ==> final(metrics).wf(),
        match written {
            Ok(Some(bytes)) => storage is Some && (final(metrics)@, Some(bytes@)) == spilled(
                old(metrics)@,
                seen(data),
            ),
            Ok(None) => storage is Some && (final(metrics)@, None::<Seq<u8>>) == spilled(
                old(metrics)@,
                seen(data),
            ),
            Err(e) => storage is None && e == Error::MissingPersistence && final(metrics)@ == old(
                metrics,
            )@,
        },
{
    if storage.is_none() {
        return Err(Error::MissingPersistence);
    }
    let (topic, payload_size, payload) = get_payload(data, metrics);
    let mut publish = Publish::new(topic, QoS::AtLeastOnce, payload);
    publish.pkid = 1;
    match publish.encode() {
        Some(bytes) => {
            metrics.add_total_disk_size(payload_size);
            Ok(Some(bytes))
        },
        None => Ok(None),
    }
}

/// Reads the next packet off the segment that is being read back. Nothing
/// comes back where no packet is found there. Without a spool the call
/// fails.
pub fn read_from_storage(storage: &mut Option<Storage>, max_packet_size: usize) -> (read: Result<
    Option<Publish>,
    Error,
>)
    ensures
        match read {
            Ok(found) => {
                &&& reading(*old(storage)) is Some
                &&& reading(*final(storage)) is Some
                &&& (crate::mqtt::view_of(found), reading(*final(storage))->0) == read_packet(
                    reading(*old(storage))->0,
                    max_packet_size,
                )
                &&& reads_back(
                    reading(*old(storage))->0,
                    max_packet_size,
                    crate::mqtt::view_of(found),
                    reading(*final(storage))->0,
                )
            },
            Err(e) => {
                &&& e == Error::MissingPersistence
                &&& reading(*old(storage)) is None
                &&& reading(*final(storage)) is None
            },
        },
{
    match storage {
        Some(storage) => Ok(read_publish(&mut storage.reader, max_packet_size)),
        None => Err(Error::MissingPersistence),
    }
}

/// A copy of a packet.
pub fn copy_of(publish: &Publish) -> (copy: Publish)
    ensures
        copy@ == publish@,
{
    let mut payload: Vec<u8> = Vec::new();
    push_bytes(&mut payload, publish.payload.as_slice());
    Publish {
        dup: publish.dup,
        qos: publish.qos,
        retain: publish.retain,
        topic: publish.topic.clone(),
        pkid: publish.pkid,
        payload,
    }
}

/// The one who decides how packages reach the broker.
#[derive(Debug)]
pub struct Serializer {
    status: Status,
    storage: Option<Storage>,
    max_packet_size: usize,
    metrics: Metrics,
    in_flight: Option<usize>,
}

impl View for Serializer {
    type V = State;

    closed spec fn view(&self) -> State {
        State {
            status: self.status@,
            storage: reading(self.storage),
            max_packet_size: self.max_packet_size,
            metrics: self.metrics@,
            in_flight: self.in_flight,
        }
    }
}

impl Serializer {
    /// Without a spool the serializer is in no other mode than normal, and
    /// the error text of its metrics keeps within its bound.
    pub closed spec fn wf(&self) -> bool {
        &&& self.metrics.wf()
        &&& self.storage is None ==> self.status is Normal
    }

    /// A serializer for `config`: it reports on the topic of the stream
    /// named `metrics` and spills to a spool exactly if `config` has a
    /// place for one. A configuration without that stream is refused.
    pub fn new(config: &Config) -> (made: Result<Serializer, Error>)
        ensures
            match made {
                Ok(serializer) => {
                    &&& metrics_at(*config) < config.streams@.len()
                    &&& serializer.wf()
                    &&& serializer@ == initial(*config)
                },
                Err(e) => {
                    &&& e == Error::MissingMetrics
                    &&& metrics_at(*config) == config.streams@.len()
                },
            },
    {
        let metrics = match config.stream("metrics") {
            Some(stream) => Metrics::new(stream.topic.as_str()),
            None => {
                return Err(Error::MissingMetrics);
            },
        };
        let (status, storage) = match &config.persistence {
            Some(_) => (Status::EventLoopReady, Some(Storage::new())),
            None => (Status::Normal, None),
        };
        Ok(
            Serializer {
                status,
                storage,
                max_packet_size: config.max_packet_size,
                metrics,
                in_flight: None,
            },
        )
    }

    /// The mode the serializer is in.
    pub fn status(&self) -> (status: &Status)
        ensures
            status@ == self@.status,
    {
        &self.status
    }

    /// The serializer's counters.
    pub fn metrics(&self) -> (metrics: &Metrics)
        ensures
            metrics@ == self@.metrics,
    {
        &self.metrics
    }

    /// Whether a spool is configured.
    pub fn persistent(&self) -> (persistent: bool)
        ensures
            persistent == self@.storage is Some,
    {
        self.storage.is_some()
    }

    /// Takes up the drain of the spool.
    fn drain(&mut self) -> (action: Action)
        requires
            old(self).wf(),
            old(self).storage is Some,
        ensures
            final(self).wf(),
            (final(self)@, action@) == drained(old(self)@),
    {
        let unread = match &self.storage {
            Some(storage) => storage.unread(),
            None => 0,
        };
        if unread == 0 {
            return self.enter();
        }
        self.decode()
    }

    /// Goes on with the drain after a look for the next packet in the
    /// spool: a packet that was found is to be published; where none was
    /// found, what is left of the segment is given up and normal mode
    /// begins.
    pub fn resume(&mut self, found: Option<Publish>) -> (action: Action)
        requires
            old(self).wf(),
            old(self)@.storage is Some,
        ensures
            final(self).wf(),
            (final(self)@, action@) == resumed(
                old(self)@,
                crate::mqtt::view_of(found),
                old(self)@.storage->0,
            ),
    {
        match found {
            Some(publish) => {
                self.status = Status::EventLoopReady;
                self.in_flight = Some(publish.payload.len());
                Action::Publish(publish)
            },
            None => {
                if let Some(storage) = &mut self.storage {
                    storage.load(Vec::new());
                }
                self.status = Status::Normal;
                self.in_flight = None;
                Action::Wait
            },
        }
    }

    /// Begins the drain of the spool.
    fn enter(&mut self) -> (action: Action)
        requires
            old(self).wf(),
            old(self).storage is Some,
        ensures
            final(self).wf(),
            (final(self)@, action@) == entered(old(self)@),
    {
        self.status = Status::EventLoopReady;
        self.in_flight = None;
        Action::Load
    }

    /// Reads the next packet off the segment that is being read back.
    fn decode(&mut self) -> (action: Action)
        requires
            old(self).wf(),
            old(self).storage is Some,
        ensures
            final(self).wf(),
            (final(self)@, action@) == decoded(old(self)@, old(self)@.storage->0),
    {
        let found = match read_from_storage(&mut self.storage, self.max_packet_size) {
            Ok(found) => found,
            Err(_) => None,
        };
        self.resume(found)
    }

    /// Begins the serializer's work: without a spool it waits for packages,
    /// with one it first drains what an earlier run left there.
    pub fn start(&mut self) -> (action: Action)
        requires
            old(self).wf(),
        ensures
            final(self).wf(),
            (final(self)@, action@) == started(old(self)@),
    {
        if self.storage.is_none() {
            self.status = Status::Normal;
            self.in_flight = None;
            return Action::Wait;
        }
        self.drain()
    }

    /// Takes a package in for sending: its anomalies are noted, and its
    /// packet is made.
    fn take<P: Package>(&mut self, package: &P) -> (packet: Publish)
        requires
            old(self).wf(),
        ensures
            final(self).wf(),
            (final(self)@, packet@) == taken(old(self)@, seen(package)),
    {
        let (topic, payload_size, payload) = get_payload(package, &mut self.metrics);
        self.in_flight = Some(payload_size);
        Publish::new(topic, QoS::AtLeastOnce, payload)
    }

    /// Makes the packet of the metrics' report, which is due at `now`.
    fn tick(&mut self, now: u64) -> (packet: Publish)
        requires
            old(self).wf(),
        ensures
            final(self).wf(),
            (final(self)@, packet@) == ticked(old(self)@, now),
    {
        let (topic, payload) = self.metrics.next(now);
        self.in_flight = Some(payload.len());
        Publish::new(topic, QoS::AtLeastOnce, payload)
    }

    /// Spills a package, counts a lost segment, ends on a closed collector
    /// and lets everything else pass.
    fn spill<P: Package>(&mut self, event: Event<P>) -> (outcome: Result<Action, Error>)
        requires
            old(self).wf(),
            old(self).storage is Some,
        ensures
            final(self).wf(),
            (final(self)@, answer(outcome)) == spill_step(old(self)@, event@),
    {
        match event {
            Event::Data(package) => {
                match write_to_storage(&package, &mut self.metrics, &self.storage) {
                    Ok(Some(bytes)) => Ok(Action::Write(bytes)),
                    Ok(None) => Ok(Action::Wait),
                    Err(e) => Err(e),
                }
            },
            Event::Written(told) => {
                if told == Flushed::Evicted {
                    self.metrics.increment_lost_segments();
                }
                Ok(Action::Wait)
            },
            Event::Closed => Err(Error::Collector),
            _ => Ok(Action::Wait),
        }
    }

    /// One event without a spool: packages and reports are published one
    /// by one, and any failure ends the serializer.
    pub fn direct<P: Package>(&mut self, event: Event<P>) -> (outcome: Result<Action, Error>)
        requires
            old(self).wf(),
        ensures
            final(self).wf(),
            final(self)@.status == old(self)@.status,
            final(self)@.storage == old(self)@.storage,
            (final(self)@, answer(outcome)) == direct_step(old(self)@, event@),
    {
        match event {
            Event::Data(package) => Ok(Action::Send(self.take(&package))),
            Event::Tick(now) => Ok(Action::Send(self.tick(now))),
            Event::Sent(Sent::Delivered) => {
                if let Some(size) = self.in_flight {
                    self.metrics.add_total_sent_size(size);
                }
                self.in_flight = None;
                Ok(Action::Wait)
            },
            Event::Sent(_) => Err(Error::Client),
            Event::Closed => Err(Error::Collector),
            _ => Ok(Action::Wait),
        }
    }

    /// One event in normal mode.
    pub fn normal<P: Package>(&mut self, event: Event<P>) -> (outcome: Result<Action, Error>)
        requires
            old(self).wf(),
            old(self)@.storage is Some,
        ensures
            final(self).wf(),
            final(self)@.storage is Some,
            (final(self)@, answer(outcome)) == normal_step(old(self)@, event@),
    {
        match event {
            Event::Data(package) => Ok(Action::TryPublish(self.take(&package))),
            Event::Tick(now) => Ok(Action::TryPublish(self.tick(now))),
            Event::Tried(Tried::Accepted) => {
                if let Some(size) = self.in_flight {
                    self.metrics.add_total_sent_size(size);
                }
                self.in_flight = None;
                Ok(Action::Wait)
            },
            Event::Tried(Tried::Full(packet)) => {
                self.status = Status::SlowEventloop(copy_of(&packet));
                self.in_flight = None;
                Ok(Action::Publish(packet))
            },
            Event::Tried(Tried::Failed) => Err(Error::Client),
            Event::Closed => Err(Error::Collector),
            _ => Ok(Action::Wait),
        }
    }

    /// One event in slow mode.
    pub fn disk<P: Package>(&mut self, event: Event<P>) -> (outcome: Result<Action, Error>)
        requires
            old(self).wf(),
            old(self)@.storage is Some,
        ensures
            final(self).wf(),
            final(self)@.storage is Some,
            (final(self)@, answer(outcome)) == disk_step(old(self)@, event@),
    {
        match event {
            Event::Sent(Sent::Delivered) => Ok(self.enter()),
            Event::Sent(_) => Err(Error::Client),
            _ => self.spill(event),
        }
    }

    /// One event while the spool is drained.
    pub fn catchup<P: Package>(&mut self, event: Event<P>) -> (outcome: Result<Action, Error>)
        requires
            old(self).wf(),
            old(self)@.storage is Some,
        ensures
            final(self).wf(),
            final(self)@.storage is Some,
            (final(self)@, answer(outcome)) == catchup_step(old(self)@, event@),
    {
        match event {
            Event::Sent(Sent::Delivered) => {
                if let Some(size) = self.in_flight {
                    self.metrics.sub_total_disk_size(size);
                    self.metrics.add_total_sent_size(size);
                }
                Ok(self.drain())
            },
            Event::Sent(Sent::Reclaimed(packet)) => {
                self.status = Status::EventLoopCrash(packet);
                self.in_flight = None;
                Ok(Action::Wait)
            },
            Event::Sent(Sent::Failed) => Err(Error::Client),
            Event::Loaded(Loaded::Segment(bytes)) => {
                if let Some(storage) = &mut self.storage {
                    storage.load(bytes);
                }
                Ok(self.decode())
            },
            Event::Loaded(_) => {
                self.status = Status::Normal;
                self.in_flight = None;
                Ok(Action::Wait)
            },
            _ => self.spill(event),
        }
    }

    /// One event in crash mode.
    pub fn crash<P: Package>(&mut self, event: Event<P>) -> (outcome: Result<Action, Error>)
        requires
            old(self).wf(),
            old(self)@.storage is Some,
        ensures
            final(self).wf(),
            final(self)@.storage is Some,
            (final(self)@, answer(outcome)) == crash_step(old(self)@, event@),
    {
        self.spill(event)
    }

    /// Takes in what happened and says what to do next. An error ends the
    /// serializer.
    pub fn handle<P: Package>(&mut self, event: Event<P>) -> (outcome: Result<Action, Error>)
        requires
            old(self).wf(),
        ensures
            final(self).wf(),
            (final(self)@, answer(outcome)) == step(old(self)@, event@),
            follows(old(self)@.status, final(self)@.status),
            final(self)@.metrics.total_sent_size >= old(self)@.metrics.total_sent_size,
    {
        proof {
            lemma_step_follows(self@, event@);
            lemma_sizes(self@, event@);
        }
        if self.storage.is_none() {
            return self.direct(event);
        }
        match &self.status {
            Status::Normal => self.normal(event),
            Status::SlowEventloop(_) => self.disk(event),
            Status::EventLoopReady => self.catchup(event),
            Status::EventLoopCrash(_) => self.crash(event),
        }
    }
}

} // verus!
