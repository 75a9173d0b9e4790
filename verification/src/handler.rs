//! Routing of data points to their streams, and the timers that flush
//! streams which fill too slowly.
//!
//! The timers need a Tokio runtime around every call that takes in a point
//! or looks at the timers.

use crate::config::{lemma_position, lemma_position_is, position, Config, StreamConfig};
use crate::delay::{
    armed, first_due, no_deadlines, DelayMap, Expiry, MAX_ENTRIES, MAX_PERIOD,
};
use crate::stream::{
    dynamic_topic, emits, fed, fed_one, lemma_fed_batches, Buffer, Payload, Stream, StreamView,
    MAX_BUFFER_SIZE,
};
use std::task::Context;
use vstd::prelude::*;

verus! {

/// The number of streams beyond which none is created for an unknown name.
pub const MAX_STREAMS: usize = 20;

/// The flush period, in seconds, of a device that configures none.
pub const DEFAULT_FLUSH_PERIOD: u64 = 10;

/// What the handler holds.
pub ghost struct HandlerView {
    pub project_id: Seq<char>,
    pub device_id: Seq<char>,
    /// The time, in milliseconds, after which a stream that holds points is
    /// flushed.
    pub period: u64,
    /// The live streams, in the order of their creation.
    pub streams: Seq<StreamView<Payload>>,
    /// The streams that wait to be flushed, by name, each with the time at
    /// which it is due, in milliseconds after the handler was made.
    pub timers: Map<Seq<char>, u64>,
}

/// The names of `streams`, in their order.
pub open spec fn names(streams: Seq<StreamView<Payload>>) -> Seq<Seq<char>> {
    streams.map_values(|s: StreamView<Payload>| s.name)
}

/// The stream that a configuration entry asks for.
pub open spec fn configured_stream(entry: (String, StreamConfig)) -> StreamView<Payload> {
    StreamView {
        name: entry.0@,
        topic: entry.1.topic@,
        max_buffer_size: entry.1.buf_size,
        held: Seq::<Payload>::empty(),
    }
}

/// The streams that a configuration asks for: one for each name, after the
/// first entry of that name.
pub open spec fn configured(entries: Seq<(String, StreamConfig)>) -> Seq<StreamView<Payload>>
    decreases entries.len(),
{
    if entries.len() == 0 {
        Seq::<StreamView<Payload>>::empty()
    } else {
        let front = configured(entries.drop_last());
        if position(names(front), entries.last().0@) < front.len() {
            front
        } else {
            front.push(configured_stream(entries.last()))
        }
    }
}

/// The flush period, in milliseconds, that a configuration asks for.
pub open spec fn configured_period(flush_period: Option<u64>) -> int {
    match flush_period {
        Some(seconds) => seconds * 1000,
        None => DEFAULT_FLUSH_PERIOD * 1000,
    }
}

/// The stream that is created for a name that no stream has.
pub open spec fn dynamic_stream(handler: HandlerView, name: Seq<char>) -> StreamView<Payload> {
    StreamView {
        name,
        topic: dynamic_topic(handler.project_id, handler.device_id, name),
        max_buffer_size: MAX_BUFFER_SIZE,
        held: Seq::<Payload>::empty(),
    }
}

/// Whether a point for `name` finds no stream and no room for a new one.
pub open spec fn refused(handler: HandlerView, name: Seq<char>) -> bool {
    position(names(handler.streams), name) == handler.streams.len() && handler.streams.len()
        >= MAX_STREAMS
}

/// The streams among which a point for `name` finds its own: the live ones,
/// and a new one where none has that name.
pub open spec fn admitted(handler: HandlerView, name: Seq<char>) -> Seq<StreamView<Payload>> {
    if position(names(handler.streams), name) == handler.streams.len() {
        handler.streams.push(dynamic_stream(handler, name))
    } else {
        handler.streams
    }
}

/// What became of a data point.
#[derive(Debug)]
pub enum Handled {
    /// The point names a stream that does not exist, and no further stream
    /// can be created: the point is dropped.
    Dropped,
    /// The point waits in its stream, which will be flushed when the flush
    /// period has passed without another point.
    Buffered,
    /// The point filled its stream's batch, which is to be sent. The flag
    /// tells whether the stream was waiting to be flushed.
    Flushed(Buffer<Payload>, bool),
}

/// Whether `after` and `handled` are what becomes of the handler `before`
/// and of the point `data`: a point that is refused is dropped and changes
/// nothing; any other is fed to its stream, whose timer is removed when it
/// emits a batch and set anew, a flush period from now, when it does not.
/// The timers of the other streams stay as they are.
pub open spec fn routed(
    before: HandlerView,
    data: Payload,
    after: HandlerView,
    handled: Handled,
) -> bool {
    if refused(before, data.stream@) {
        handled is Dropped && after == before
    } else {
        let at = position(names(before.streams), data.stream@);
        let streams = admitted(before, data.stream@);
        let fed = fed_one(streams[at].capacity(), streams[at].held, data);
        &&& after.project_id == before.project_id
        &&& after.device_id == before.device_id
        &&& after.period == before.period
        &&& after.streams == streams.update(at, StreamView { held: fed.1, ..streams[at] })
        &&& match handled {
            Handled::Flushed(batch, timed) => {
                &&& fed.0 is Some
                &&& emits(streams[at], batch, streams[at].held.push(data))
                &&& timed == before.timers.contains_key(data.stream@)
                &&& after.timers == before.timers.remove(data.stream@)
            },
            Handled::Buffered => {
                &&& fed.0 is None
                &&& armed(before.timers, data.stream@, before.period, after.timers)
            },
            Handled::Dropped => false,
        }
    }
}

/// Whether `after` and `flush` are what a look at the timers of the
/// handler `before` may bring: the stream of a timer before which none is
/// due is flushed and the timer removed, or nothing changes.
pub open spec fn flushed(before: HandlerView, after: HandlerView, flush: Flush) -> bool {
    match flush {
        Flush::Done(name, emitted) => {
            let at = position(names(before.streams), name@);
            &&& after.project_id == before.project_id
            &&& after.device_id == before.device_id
            &&& after.period == before.period
            &&& before.timers.contains_key(name@)
            &&& first_due(before.timers, name@)
            &&& after.timers == before.timers.remove(name@)
            &&& at < before.streams.len()
            &&& after.streams == before.streams.update(
                at,
                StreamView { held: Seq::<Payload>::empty(), ..before.streams[at] },
            )
            &&& match emitted {
                Some(batch) => before.streams[at].held.len() > 0 && emits(
                    before.streams[at],
                    batch,
                    before.streams[at].held,
                ),
                None => before.streams[at].held.len() == 0,
            }
        },
        Flush::Idle => before.timers.dom().is_empty() && after == before,
        Flush::Pending => after == before,
    }
}

/// The live streams never grow beyond their limit.
pub proof fn lemma_stream_limit(
    before: HandlerView,
    data: Payload,
    after: HandlerView,
    handled: Handled,
)
    requires
        before.streams.len() <= MAX_STREAMS,
        routed(before, data, after, handled),
    ensures
        after.streams.len() <= MAX_STREAMS,
{
    lemma_position(names(before.streams), data.stream@);
}

/// What a look at the flush timers brought.
#[derive(Debug)]
pub enum Flush {
    /// No stream is due yet; the caller is woken when one is.
    Pending,
    /// No stream waits to be flushed.
    Idle,
    /// The stream of this name was due. Its batch is to be sent, if it held
    /// any point.
    Done(String, Option<Buffer<Payload>>),
}

/// The router of data points and keeper of the flush timers.
pub struct StreamHandler {
    project_id: String,
    device_id: String,
    period: u64,
    flush_handler: DelayMap,
    streams: Vec<Stream<Payload>>,
}

impl View for StreamHandler {
    type V = HandlerView;

    closed spec fn view(&self) -> HandlerView {
        HandlerView {
            project_id: self.project_id@,
            device_id: self.device_id@,
            period: self.period,
            streams: self.streams@.map_values(|s: Stream<Payload>| s@),
            timers: self.flush_handler@,
        }
    }
}

/// No more timers than streams: a set of names that all occur among
/// `streams` is finite and no larger than `streams` is long.
pub proof fn lemma_timers_bounded(timers: Set<Seq<char>>, streams: Seq<StreamView<Payload>>)
    requires
        forall|name: Seq<char>| timers.contains(name) ==> names(streams).contains(name),
    ensures
        timers.finite(),
        timers.len() <= streams.len(),
{
    let all = names(streams).to_set();
    names(streams).lemma_cardinality_of_set();
    vstd::seq_lib::seq_to_set_is_finite(names(streams));
    vstd::set_lib::lemma_len_subset(timers, all);
}

/// As `lemma_timers_bounded`, for timers that leave one of the names out.
pub proof fn lemma_timers_leave_room(
    timers: Set<Seq<char>>,
    streams: Seq<StreamView<Payload>>,
    name: Seq<char>,
)
    requires
        forall|n: Seq<char>| timers.contains(n) ==> names(streams).contains(n),
        names(streams).contains(name),
        !timers.contains(name),
    ensures
        timers.finite(),
        timers.len() < streams.len(),
{
    let all = names(streams).to_set();
    names(streams).lemma_cardinality_of_set();
    vstd::seq_lib::seq_to_set_is_finite(names(streams));
    vstd::set_lib::lemma_len_subset(timers, all.remove(name));
}

impl StreamHandler {
    /// Every stream is well formed, no two streams share a name, every
    /// timer belongs to a stream, and both the flush period and the number
    /// of streams are within what the timers can take.
    pub closed spec fn wf(&self) -> bool {
        &&& self.flush_handler.wf()
        &&& self.period <= MAX_PERIOD
        &&& self.streams@.len() < MAX_ENTRIES
        &&& forall|i: int| 0 <= i < self.streams@.len() ==> (#[trigger] self.streams@[i]).wf()
        &&& forall|i: int, j: int|
            0 <= i < j < self.streams@.len() ==> (#[trigger] self.streams@[i])@.name != (
            #[trigger] self.streams@[j])@.name
        &&& forall|name: Seq<char>| #[trigger]
            self.flush_handler@.contains_key(name) ==> names(self@.streams).contains(name)
    }

    /// In a well-formed handler no two streams share a name, and every timer
    /// bears the name of a stream.
    pub proof fn lemma_wf(&self)
        requires
            self.wf(),
        ensures
            forall|i: int, j: int|
                0 <= i < j < self@.streams.len() ==> (#[trigger] self@.streams[i]).name != (
                #[trigger] self@.streams[j]).name,
            forall|name: Seq<char>| #[trigger]
                self@.timers.contains_key(name) ==> names(self@.streams).contains(name),
            self@.timers.dom().finite(),
            self@.timers.dom().len() <= self@.streams.len(),
            self@.period <= MAX_PERIOD,
    {
        lemma_timers_bounded(self@.timers.dom(), self@.streams);
    }

    /// The position of the stream `name` among the streams, or their number
    /// where no stream has that name.
    fn find(&self, name: &String) -> (at: usize)
        ensures
            at == position(names(self@.streams), name@),
            at <= self.streams@.len(),
            at < self.streams@.len() ==> self.streams@[at as int]@.name == name@,
    {
        let mut i: usize = 0;
        while i < self.streams.len()
            invariant
                i <= self.streams@.len(),
                forall|j: int| 0 <= j < i ==> #[trigger] names(self@.streams)[j] != name@,
            decreases self.streams@.len() - i,
        {
            if self.streams[i].is_named(name) {
                proof {
                    lemma_position_is(names(self@.streams), name@, i as int);
                }
                return i;
            }
            i += 1;
        }
        proof {
            lemma_position_is(names(self@.streams), name@, i as int);
        }
        i
    }

    /// A handler with one empty stream for each stream that `config` names,
    /// and no timer. The flush period is that of `config`, or ten seconds.
    pub fn new(config: &Config) -> (handler: StreamHandler)
        requires
            config.streams@.len() < MAX_ENTRIES,
            configured_period(config.flush_period) <= MAX_PERIOD,
        ensures
            handler.wf(),
            handler@ == (HandlerView {
                project_id: config.project_id@,
                device_id: config.device_id@,
                period: configured_period(config.flush_period) as u64,
                streams: configured(config.streams@),
                timers: no_deadlines(),
            }),
    {
        let period = match config.flush_period {
            Some(seconds) => seconds * 1000,
            None => DEFAULT_FLUSH_PERIOD * 1000,
        };
        let mut handler = StreamHandler {
            project_id: config.project_id.clone(),
            device_id: config.device_id.clone(),
            period,
            flush_handler: DelayMap::new(),
            streams: Vec::new(),
        };
        assert(handler@.streams =~= configured(config.streams@.subrange(0, 0)));
        let mut i: usize = 0;
        while i < config.streams.len()
            invariant
                i <= config.streams@.len(),
                config.streams@.len() < MAX_ENTRIES,
                handler.wf(),
                handler.streams@.len() <= i,
                handler@ == (HandlerView {
                    project_id: config.project_id@,
                    device_id: config.device_id@,
                    period,
                    streams: configured(config.streams@.subrange(0, i as int)),
                    timers: no_deadlines(),
                }),
            decreases config.streams@.len() - i,
        {
            let ghost before = config.streams@.subrange(0, i as int);
            let ghost after = config.streams@.subrange(0, i + 1);
            assert(after.drop_last() == before);
            let entry = &config.streams[i];
            let at = handler.find(&entry.0);
            if at == handler.streams.len() {
                let stream = Stream::new(entry.0.clone(), entry.1.topic.clone(), entry.1.buf_size);
                let ghost old_streams = handler@.streams;
                proof {
                    lemma_position(names(old_streams), entry.0@);
                }
                handler.streams.push(stream);
                assert(handler@.streams =~= old_streams.push(configured_stream(*entry)));
                assert forall|a: int, b: int| 0 <= a < b < handler.streams@.len() implies (
                #[trigger] handler.streams@[a])@.name != (
                #[trigger] handler.streams@[b])@.name by {
                    if b == handler.streams@.len() - 1 {
                        assert(names(old_streams)[a] != entry.0@);
                    }
                }
            }
            i += 1;
        }
        assert(config.streams@.subrange(0, i as int) == config.streams@);
        handler
    }

    /// Sends a point to the stream it names, creating the stream if there
    /// is room for it, and keeps the stream's flush timer: a stream that
    /// has emitted its batch waits for no flush, any other stream waits
    /// anew for the whole flush period.
    pub fn handle_data(&mut self, data: Payload) -> (handled: Handled)
        requires
            old(self).wf(),
        ensures
            final(self).wf(),
            routed(old(self)@, data, final(self)@, handled),
            old(self)@.streams.len() <= MAX_STREAMS ==> final(self)@.streams.len() <= MAX_STREAMS,
    {
        let at = self.find(&data.stream);
        proof {
            lemma_position(names(self@.streams), data.stream@);
        }
        if at == self.streams.len() {
            if self.streams.len() >= MAX_STREAMS {
                return Handled::Dropped;
            }
            let stream = Stream::dynamic(
                data.stream.as_str(),
                self.project_id.as_str(),
                self.device_id.as_str(),
            );
            let ghost old_streams = self@.streams;
            self.streams.push(stream);
            assert forall|a: int, b: int| 0 <= a < b < self.streams@.len() implies (
            #[trigger] self.streams@[a])@.name != (#[trigger] self.streams@[b])@.name by {
                if b == self.streams@.len() - 1 {
                    assert(names(old_streams)[a] != data.stream@);
                }
            }
            assert forall|name: Seq<char>| #[trigger]
                self.flush_handler@.contains_key(name) implies names(self@.streams).contains(
                name,
            ) by {
                let k = choose|k: int|
                    0 <= k < names(old_streams).len() && names(old_streams)[k] == name;
                assert(names(self@.streams)[k] == name);
            }
        }
        let ghost streams = self@.streams;
        assert(streams == admitted(old(self)@, data.stream@));
        let name = data.stream.clone();
        let flushed = self.streams[at].fill(data);
        let ghost filled = self.streams@[at as int]@;
        proof {
            assert(self@.streams =~= streams.update(at as int, filled));
            assert(names(self@.streams) =~= names(streams));
            assert(names(streams)[at as int] == name@);
        }
        match flushed {
            Some(batch) => {
                let timed = self.flush_handler.update(name.as_str(), self.period, true);
                Handled::Flushed(batch, timed)
            },
            None => {
                proof {
                    if !self.flush_handler@.contains_key(name@) {
                        lemma_timers_leave_room(self.flush_handler@.dom(), self@.streams, name@);
                    }
                }
                self.flush_handler.update(name.as_str(), self.period, false);
                Handled::Buffered
            },
        }
    }

    /// Looks for a stream whose flush period has passed, and flushes it.
    pub fn next(&mut self, cx: &mut Context<'_>) -> (flush: Flush)
        requires
            old(self).wf(),
        ensures
            final(self).wf(),
            flushed(old(self)@, final(self)@, flush),
    {
        let expiry = self.flush_handler.next(cx);
        proof {
            if expiry is Expired {
                lemma_position(names(self@.streams), expiry->Expired_0@);
            }
        }
        self.expire(expiry)
    }

    /// Does what a look at the timers has asked for: the stream whose timer
    /// has fired is flushed, and where none has fired, nothing is done. The
    /// timers themselves stay as they are.
    pub fn expire(&mut self, expiry: Expiry) -> (flush: Flush)
        requires
            old(self).wf(),
            expiry matches Expiry::Expired(name) ==> names(old(self)@.streams).contains(name@),
        ensures
            final(self).wf(),
            settled(old(self)@, expiry, final(self)@, flush),
    {
        let name = match expiry {
            Expiry::Expired(name) => name,
            Expiry::Idle => {
                return Flush::Idle;
            },
            Expiry::Pending => {
                return Flush::Pending;
            },
        };
        let at = self.find(&name);
        proof {
            lemma_position(names(self@.streams), name@);
        }
        let ghost streams = self@.streams;
        let flushed = self.streams[at].flush();
        let ghost emptied = self.streams@[at as int]@;
        proof {
            assert(self@.streams =~= streams.update(at as int, emptied));
            assert(names(self@.streams) =~= names(streams));
        }
        Flush::Done(name, flushed)
    }

    /// Whether no stream waits to be flushed.
    pub fn is_empty(&self) -> (empty: bool)
        requires
            self.wf(),
        ensures
            empty == self@.timers.dom().is_empty(),
    {
        self.flush_handler.is_empty()
    }

    /// The number of live streams.
    pub fn len(&self) -> (n: usize)
        ensures
            n == self@.streams.len(),
    {
        self.streams.len()
    }

    /// The stream `name`, if there is one.
    pub fn stream(&self, name: &String) -> (found: Option<&Stream<Payload>>)
        ensures
            match found {
                Some(stream) => position(names(self@.streams), name@) < self@.streams.len()
                    && stream@ == self@.streams[position(names(self@.streams), name@)],
                None => position(names(self@.streams), name@) == self@.streams.len(),
            },
    {
        let at = self.find(name);
        if at < self.streams.len() {
            Some(&self.streams[at])
        } else {
            None
        }
    }
}

/// Whether `after` and `flush` are what the handler `before` makes of the
/// timers' answer `expiry`: the stream of a key that has fired is emptied
/// and its batch, if it held any point, handed out; any other answer is
/// passed on and changes nothing.
pub open spec fn settled(
    before: HandlerView,
    expiry: Expiry,
    after: HandlerView,
    flush: Flush,
) -> bool {
    match expiry {
        Expiry::Expired(name) => {
            let at = position(names(before.streams), name@);
            &&& after == HandlerView {
                streams: before.streams.update(
                    at,
                    StreamView { held: Seq::<Payload>::empty(), ..before.streams[at] },
                ),
                ..before
            }
            &&& flush matches Flush::Done(flushed, emitted) && flushed@ == name@ && match emitted {
                Some(batch) => before.streams[at].held.len() > 0 && emits(
                    before.streams[at],
                    batch,
                    before.streams[at].held,
                ),
                None => before.streams[at].held.len() == 0,
            }
        },
        Expiry::Idle => flush is Idle && after == before,
        Expiry::Pending => flush is Pending && after == before,
    }
}

/// Whether `states` and `handled` are those of a run of the handler that
/// takes in `points` one after another, with no flush by timer in between:
/// `states` holds the handler before the first point and after each point,
/// `handled` what became of each point.
pub open spec fn ran(
    states: Seq<HandlerView>,
    points: Seq<Payload>,
    handled: Seq<Handled>,
) -> bool {
    &&& states.len() == points.len() + 1
    &&& handled.len() == points.len()
    &&& forall|i: int|
        0 <= i < points.len() ==> routed(states[i], #[trigger] points[i], states[i + 1], handled[i])
}

/// The batches that a run has emitted, in the order of their emission.
pub open spec fn emitted(handled: Seq<Handled>) -> Seq<Seq<Payload>>
    decreases handled.len(),
{
    if handled.len() == 0 {
        Seq::<Seq<Payload>>::empty()
    } else {
        match handled.last() {
            Handled::Flushed(batch, _) => emitted(handled.drop_last()).push(batch.buffer@),
            _ => emitted(handled.drop_last()),
        }
    }
}

/// A run of points that all go to one live stream does to that stream what
/// `fed` says: no point is dropped, the batches emitted are those of `fed`,
/// in their order, and the stream holds what `fed` leaves. The stream keeps
/// its place, its name, its topic and its capacity.
pub proof fn lemma_run_feeds(
    states: Seq<HandlerView>,
    points: Seq<Payload>,
    handled: Seq<Handled>,
    name: Seq<char>,
)
    requires
        ran(states, points, handled),
        forall|i: int| 0 <= i < points.len() ==> (#[trigger] points[i]).stream@ == name,
        position(names(states[0].streams), name) < states[0].streams.len(),
    ensures
        ({
            let at = position(names(states[0].streams), name);
            let stream = states[0].streams[at];
            let result = fed(stream.capacity(), stream.held, points);
            &&& emitted(handled) == result.0
            &&& position(names(states.last().streams), name) == at
            &&& at < states.last().streams.len()
            &&& states.last().streams[at] == StreamView { held: result.1, ..stream }
            &&& forall|i: int| 0 <= i < handled.len() ==> !(#[trigger] handled[i] is Dropped)
        }),
    decreases points.len(),
{
    lemma_position(names(states[0].streams), name);
    if points.len() > 0 {
        let k = points.len() - 1;
        let front = points.drop_last();
        assert(ran(states.drop_last(), front, handled.drop_last())) by {
            assert forall|i: int| 0 <= i < front.len() implies routed(
                states.drop_last()[i],
                #[trigger] front[i],
                states.drop_last()[i + 1],
                handled.drop_last()[i],
            ) by {
                assert(routed(states[i], points[i], states[i + 1], handled[i]));
            }
        }
        assert forall|i: int| 0 <= i < front.len() implies (#[trigger] front[i]).stream@
            == name by {
            assert(points[i].stream@ == name);
        }
        lemma_run_feeds(states.drop_last(), front, handled.drop_last(), name);
        // the last point meets the stream as the points before it have left it
        let before = states[k];
        let after = states[k + 1];
        assert(states.drop_last().last() == before);
        assert(routed(before, points[k], after, handled[k]));
        assert(admitted(before, name) == before.streams);
        assert(names(after.streams) =~= names(before.streams));
        assert forall|i: int| 0 <= i < handled.len() implies !(
        #[trigger] handled[i] is Dropped) by {
            if i < k {
                assert(handled.drop_last()[i] == handled[i]);
            }
        }
    }
}

/// After `points` were handled for one live stream that held nothing, and
/// no timer has flushed it meanwhile, one batch has been emitted for every
/// full capacity of points, no more and no fewer; each batch holds the
/// points that were handled one after another, in their order; and what
/// came after the last full batch waits in the stream.
pub proof fn lemma_run_batches(
    states: Seq<HandlerView>,
    points: Seq<Payload>,
    handled: Seq<Handled>,
    name: Seq<char>,
)
    requires
        ran(states, points, handled),
        forall|i: int| 0 <= i < points.len() ==> (#[trigger] points[i]).stream@ == name,
        position(names(states[0].streams), name) < states[0].streams.len(),
        states[0].streams[position(names(states[0].streams), name)].held.len() == 0,
    ensures
        ({
            let at = position(names(states[0].streams), name);
            let capacity = states[0].streams[at].capacity();
            &&& emitted(handled).len() == points.len() / capacity
            &&& forall|j: int|
                0 <= j < points.len() / capacity ==> #[trigger] emitted(handled)[j]
                    == points.subrange(j * capacity, (j + 1) * capacity)
            &&& states.last().streams[at].held == points.subrange(
                ((points.len() / capacity) * capacity) as int,
                points.len() as int,
            )
        }),
{
    let at = position(names(states[0].streams), name);
    let stream = states[0].streams[at];
    lemma_run_feeds(states, points, handled, name);
    assert(stream.held =~= Seq::<Payload>::empty());
    lemma_fed_batches(stream.capacity(), points);
}

/// The stream that a point brings about which names a stream that does
/// not exist yet: a stream of that name with the topic made up for it, which
/// holds the point.
pub open spec fn created_stream(handler: HandlerView, point: Payload) -> StreamView<Payload> {
    StreamView { held: seq![point], ..dynamic_stream(handler, point.stream@) }
}

/// The number of streams that can still be created beside `live` ones.
pub open spec fn room(live: nat) -> nat {
    if live >= MAX_STREAMS {
        0
    } else {
        (MAX_STREAMS - live) as nat
    }
}

/// The number of streams that a run of `points` new names creates beside
/// `live` streams.
pub open spec fn creations(live: nat, points: nat) -> nat {
    if points <= room(live) {
        points
    } else {
        room(live)
    }
}

/// A run of points that each name a stream which no stream and no earlier
/// point has named creates one stream for each point while there is room,
/// in the order of the points and with the topic made up for its name, and
/// drops every point that comes after: the number of streams never passes
/// the limit where it began below it. The streams that were there stay as
/// they are.
pub proof fn lemma_run_of_new_names(
    states: Seq<HandlerView>,
    points: Seq<Payload>,
    handled: Seq<Handled>,
)
    requires
        ran(states, points, handled),
        forall|i: int|
            0 <= i < points.len() ==> !names(states[0].streams).contains(
                (#[trigger] points[i]).stream@,
            ),
        forall|i: int, j: int|
            0 <= i < j < points.len() ==> (#[trigger] points[i]).stream@ != (
            #[trigger] points[j]).stream@,
    ensures
        states.last().project_id == states[0].project_id,
        states.last().device_id == states[0].device_id,
        states.last().streams == states[0].streams + Seq::new(
            creations(states[0].streams.len(), points.len()),
            |i: int| created_stream(states[0], points[i]),
        ),
        forall|i: int|
            0 <= i < handled.len() ==> (#[trigger] handled[i] is Dropped) == (i >= room(
                states[0].streams.len(),
            )),
    decreases points.len(),
{
    let live = states[0].streams.len();
    if points.len() == 0 {
        assert(states[0].streams =~= states[0].streams + Seq::new(
            0,
            |i: int| created_stream(states[0], points[i]),
        ));
    } else {
        let k = points.len() - 1;
        let front = points.drop_last();
        assert(ran(states.drop_last(), front, handled.drop_last())) by {
            assert forall|i: int| 0 <= i < front.len() implies routed(
                states.drop_last()[i],
                #[trigger] front[i],
                states.drop_last()[i + 1],
                handled.drop_last()[i],
            ) by {
                assert(routed(states[i], points[i], states[i + 1], handled[i]));
            }
        }
        assert forall|i: int| 0 <= i < front.len() implies !names(states[0].streams).contains(
            (#[trigger] front[i]).stream@,
        ) by {
            assert(front[i] == points[i]);
        }
        assert forall|i: int, j: int| 0 <= i < j < front.len() implies (
        #[trigger] front[i]).stream@ != (#[trigger] front[j]).stream@ by {
            assert(front[i] == points[i] && front[j] == points[j]);
        }
        lemma_run_of_new_names(states.drop_last(), front, handled.drop_last());
        // the last point finds the streams that were there and those of the
        // points before it, none of which bears its name
        let before = states[k];
        let after = states[k + 1];
        let name = points[k].stream@;
        let made = creations(live, k as nat);
        assert(states.drop_last().last() == before);
        assert(states.drop_last()[0] == states[0]);
        assert(before.streams == states[0].streams + Seq::new(
            made,
            |i: int| created_stream(states[0], front[i]),
        ));
        assert forall|j: int| 0 <= j < before.streams.len() implies names(before.streams)[j]
            != name by {
            if j < live {
                assert(names(states[0].streams)[j] == names(before.streams)[j]);
                assert(names(states[0].streams).contains(names(before.streams)[j]));
            } else {
                assert(names(before.streams)[j] == points[j - live].stream@);
            }
        }
        lemma_position_is(names(before.streams), name, before.streams.len() as int);
        assert(routed(before, points[k], after, handled[k]));
        if before.streams.len() < MAX_STREAMS {
            assert(after.streams =~= states[0].streams + Seq::new(
                creations(live, points.len()),
                |i: int| created_stream(states[0], points[i]),
            )) by {
                let grown = before.streams.push(dynamic_stream(before, name));
                assert(grown[before.streams.len() as int] == dynamic_stream(before, name));
                assert forall|i: int| 0 <= i < made implies created_stream(states[0], front[i])
                    == created_stream(states[0], points[i]) by {
                    assert(front[i] == points[i]);
                }
                assert(Seq::<Payload>::empty().push(points[k]) =~= seq![points[k]]);
            }
        } else {
            assert(after.streams =~= states[0].streams + Seq::new(
                creations(live, points.len()),
                |i: int| created_stream(states[0], points[i]),
            )) by {
                assert forall|i: int| 0 <= i < made implies created_stream(states[0], front[i])
                    == created_stream(states[0], points[i]) by {
                    assert(front[i] == points[i]);
                }
            }
        }
        assert forall|i: int| 0 <= i < handled.len() implies (#[trigger] handled[i] is Dropped) == (
        i >= room(live)) by {
            if i < k {
                assert(handled.drop_last()[i] == handled[i]);
            }
        }
    }
}

} // verus!
