//! Data points, the batches they are collected in, and the streams that
//! fill one batch after another.

use crate::json::{decimal, push_decimal, push_range, push_text, text};
use vstd::prelude::*;
use vstd::string::StringExecFns;

verus! {

/// The capacity of a stream that no configuration names.
pub const MAX_BUFFER_SIZE: usize = 100;

/// A data point of a stream. `payload` holds the point's further fields as
/// the text of a JSON object.
#[derive(Debug, Clone, PartialEq, Eq)]
pub struct Payload {
    pub stream: String,
    pub sequence: u32,
    pub timestamp: u64,
    pub payload: Vec<u8>,
}

/// What a data point holds.
pub ghost struct PayloadView {
    pub stream: Seq<char>,
    pub sequence: u32,
    pub timestamp: u64,
    pub payload: Seq<u8>,
}

impl View for Payload {
    type V = PayloadView;

    open spec fn view(&self) -> PayloadView {
        PayloadView {
            stream: self.stream@,
            sequence: self.sequence,
            timestamp: self.timestamp,
            payload: self.payload@,
        }
    }
}

impl Payload {
    /// The producer's counter of this point.
    pub fn sequence(&self) -> (sequence: u32)
        ensures
            sequence == self.sequence,
    {
        self.sequence
    }

    /// The time of this point, in milliseconds since the epoch.
    pub fn timestamp(&self) -> (timestamp: u64)
        ensures
            timestamp == self.timestamp,
    {
        self.timestamp
    }
}

/// Whether a byte is white space between JSON tokens.
pub open spec fn is_space(byte: u8) -> bool {
    byte == 32 || byte == 9 || byte == 10 || byte == 13
}

/// Whether `body` stands between an opening and a closing brace.
pub open spec fn is_object(body: Seq<u8>) -> bool {
    body.len() >= 2 && body[0] == 123 && body[body.len() - 1] == 125
}

/// What stands between the braces of `body`.
pub open spec fn inner(body: Seq<u8>) -> Seq<u8> {
    body.subrange(1, body.len() - 1)
}

/// Whether `bytes` holds white space only.
pub open spec fn is_blank(bytes: Seq<u8>) -> bool {
    forall|i: int| 0 <= i < bytes.len() ==> is_space(#[trigger] bytes[i])
}

/// The fields that `body` adds to a point's object: a comma and what stands
/// between the braces of `body`; nothing where `body` is no object or an
/// empty one.
pub open spec fn members(body: Seq<u8>) -> Seq<u8> {
    if is_object(body) && !is_blank(inner(body)) {
        seq![44u8] + inner(body)
    } else {
        Seq::<u8>::empty()
    }
}

/// A data point as a JSON object: sequence number, time, and the fields of
/// its payload. The name of its stream is left out.
pub open spec fn point_json(point: PayloadView) -> Seq<u8> {
    text("{\"sequence\":") + decimal(point.sequence as nat) + text(",\"timestamp\":") + decimal(
        point.timestamp as nat,
    ) + members(point.payload) + seq![125u8]
}

/// The objects of `points`, with commas between them.
pub open spec fn joined(points: Seq<PayloadView>) -> Seq<u8>
    decreases points.len(),
{
    if points.len() == 0 {
        Seq::<u8>::empty()
    } else if points.len() == 1 {
        point_json(points[0])
    } else {
        joined(points.drop_last()) + seq![44u8] + point_json(points.last())
    }
}

/// A batch as a JSON array of its points.
pub open spec fn batch_json(points: Seq<PayloadView>) -> Seq<u8> {
    seq![91u8] + joined(points) + seq![93u8]
}

/// The views of a sequence of points.
pub open spec fn views(points: Seq<Payload>) -> Seq<PayloadView> {
    points.map_values(|p: Payload| p@)
}

/// Whether `bytes` holds white space only.
pub fn blank(bytes: &[u8], from: usize, to: usize) -> (blank: bool)
    requires
        from <= to <= bytes@.len(),
    ensures
        blank == is_blank(bytes@.subrange(from as int, to as int)),
{
    let ghost part = bytes@.subrange(from as int, to as int);
    let mut i: usize = from;
    while i < to
        invariant
            from <= i <= to <= bytes@.len(),
            part == bytes@.subrange(from as int, to as int),
            forall|j: int| 0 <= j < i - from ==> is_space(#[trigger] part[j]),
        decreases to - i,
    {
        let byte = bytes[i];
        if !(byte == 32 || byte == 9 || byte == 10 || byte == 13) {
            assert(!is_space(part[i - from]));
            return false;
        }
        i += 1;
    }
    true
}

/// Appends `point` as a JSON object to `out`.
pub fn push_point(out: &mut Vec<u8>, point: &Payload)
    ensures
        final(out)@ == old(out)@ + point_json(point@),
{
    push_text(out, "{\"sequence\":");
    push_decimal(out, point.sequence as u64);
    push_text(out, ",\"timestamp\":");
    push_decimal(out, point.timestamp);
    let body = point.payload.as_slice();
    let n = body.len();
    if n >= 2 && body[0] == 123 && body[n - 1] == 125 && !blank(body, 1, n - 1) {
        out.push(44u8);
        push_range(out, body, 1, n - 1);
    }
    out.push(125u8);
}

/// A unit that can be sent: a destination, the bytes to send, and what went
/// wrong while it was collected.
pub trait Package {
    /// The topic the package goes to, as contracts see it.
    spec fn spec_topic(&self) -> Seq<char>;

    /// The bytes of the package, as contracts see them.
    spec fn spec_payload(&self) -> Seq<u8>;

    /// The anomalies of the package, as contracts see them.
    spec fn spec_anomalies(&self) -> Option<(Seq<char>, usize)>;

    /// The topic the package goes to.
    fn topic(&self) -> (topic: String)
        ensures
            topic@ == self.spec_topic(),
    ;

    /// The bytes of the package.
    fn serialize(&self) -> (payload: Vec<u8>)
        ensures
            payload@ == self.spec_payload(),
    ;

    /// The anomalies noted while the package was collected, with their
    /// number; nothing where none was noted.
    fn anomalies(&self) -> (anomalies: Option<(String, usize)>)
        ensures
            match anomalies {
                Some((text, count)) => self.spec_anomalies() == Some((text@, count)),
                None => self.spec_anomalies() is None,
            },
    ;
}

/// A batch of the points of one stream.
#[derive(Debug, Clone, PartialEq, Eq)]
pub struct Buffer<T> {
    pub stream: String,
    pub topic: String,
    pub max_buffer_size: usize,
    pub buffer: Vec<T>,
    pub anomalies: String,
    pub anomaly_count: usize,
}

impl<T> Buffer<T> {
    /// The batch holds no more than its limit.
    pub open spec fn wf(&self) -> bool {
        self.buffer@.len() <= self.max_buffer_size
    }

    /// Whether the batch has reached its limit and must be emitted.
    pub open spec fn full(&self) -> bool {
        self.buffer@.len() >= self.max_buffer_size
    }

    /// An empty batch of `stream` that goes to `topic`.
    pub fn new(stream: String, topic: String, max_buffer_size: usize) -> (batch: Buffer<T>)
        ensures
            batch.stream@ == stream@,
            batch.topic@ == topic@,
            batch.max_buffer_size == max_buffer_size,
            batch.buffer@ == Seq::<T>::empty(),
            batch.anomalies@ == Seq::<char>::empty(),
            batch.anomaly_count == 0,
    {
        Buffer {
            stream,
            topic,
            max_buffer_size,
            buffer: Vec::new(),
            anomalies: String::new(),
            anomaly_count: 0,
        }
    }

    /// The anomalies noted in this batch and their number, if any was noted.
    pub fn anomalies(&self) -> (anomalies: Option<(String, usize)>)
        ensures
            match anomalies {
                Some((text, count)) => self.anomalies@.len() > 0 && text@ == self.anomalies@
                    && count == self.anomaly_count,
                None => self.anomalies@.len() == 0,
            },
    {
        if self.anomalies.as_str().is_empty() {
            return None;
        }
        Some((self.anomalies.clone(), self.anomaly_count))
    }
}

impl Package for Buffer<Payload> {
    open spec fn spec_topic(&self) -> Seq<char> {
        self.topic@
    }

    open spec fn spec_payload(&self) -> Seq<u8> {
        batch_json(views(self.buffer@))
    }

    open spec fn spec_anomalies(&self) -> Option<(Seq<char>, usize)> {
        if self.anomalies@.len() == 0 {
            None
        } else {
            Some((self.anomalies@, self.anomaly_count))
        }
    }

    fn topic(&self) -> (topic: String) {
        self.topic.clone()
    }

    fn serialize(&self) -> (payload: Vec<u8>) {
        let mut out: Vec<u8> = Vec::new();
        out.push(91u8);
        let ghost points = views(self.buffer@);
        let mut i: usize = 0;
        while i < self.buffer.len()
            invariant
                i <= self.buffer@.len(),
                points == views(self.buffer@),
                out@ == seq![91u8] + joined(points.subrange(0, i as int)),
            decreases self.buffer@.len() - i,
        {
            let ghost before = points.subrange(0, i as int);
            let ghost after = points.subrange(0, i + 1);
            proof {
                assert(after.drop_last() == before);
            }
            if i > 0 {
                out.push(44u8);
            }
            push_point(&mut out, &self.buffer[i]);
            i += 1;
        }
        proof {
            assert(points.subrange(0, i as int) == points);
        }
        out.push(93u8);
        out
    }

    fn anomalies(&self) -> (anomalies: Option<(String, usize)>) {
        Buffer::anomalies(self)
    }
}

/// The topic of a stream that no configuration names.
pub open spec fn dynamic_topic(project: Seq<char>, device: Seq<char>, name: Seq<char>) -> Seq<
    char,
> {
    "projects/"@ + project + "/devices/"@ + device + "/streams/"@ + name
}

/// The capacity that a stream works with: a stream configured with none
/// emits every point alone.
pub open spec fn capacity_of(max_buffer_size: usize) -> nat {
    if max_buffer_size == 0 {
        1
    } else {
        max_buffer_size as nat
    }
}

/// What one more item does to a batch that holds `held` and is emitted at
/// `capacity` items: the batch emitted, if one is, and what is held after.
pub open spec fn fed_one<T>(capacity: nat, held: Seq<T>, item: T) -> (Option<Seq<T>>, Seq<T>) {
    if held.len() + 1 >= capacity {
        (Some(held.push(item)), Seq::<T>::empty())
    } else {
        (None, held.push(item))
    }
}

/// What feeding `items` one by one does to a batch that holds `held`: the
/// batches emitted, in the order of their emission, and what is held after.
pub open spec fn fed<T>(capacity: nat, held: Seq<T>, items: Seq<T>) -> (Seq<Seq<T>>, Seq<T>)
    decreases items.len(),
{
    if items.len() == 0 {
        (Seq::<Seq<T>>::empty(), held)
    } else {
        let (emitted, rest) = fed(capacity, held, items.drop_last());
        match fed_one(capacity, rest, items.last()) {
            (Some(batch), after) => (emitted.push(batch), after),
            (None, after) => (emitted, after),
        }
    }
}

/// After `items` were fed to an empty stream of capacity `capacity`, one
/// batch has been emitted for every `capacity` items; each holds `capacity`
/// items that were fed one after another, in their order, the batches are in
/// order too, and the stream holds what came after the last full batch.
pub proof fn lemma_fed_batches<T>(capacity: nat, items: Seq<T>)
    requires
        capacity >= 1,
    ensures
        fed(capacity, Seq::<T>::empty(), items).0.len() == items.len() / capacity,
        forall|i: int|
            0 <= i < items.len() / capacity ==> #[trigger] fed(
                capacity,
                Seq::<T>::empty(),
                items,
            ).0[i] == items.subrange(i * capacity, (i + 1) * capacity),
        fed(capacity, Seq::<T>::empty(), items).1 == items.subrange(
            ((items.len() / capacity) * capacity) as int,
            items.len() as int,
        ),
    decreases items.len(),
{
    let n = capacity as int;
    let k = items.len() as int;
    if k == 0 {
        assert(0int / n == 0) by (nonlinear_arith)
            requires
                n >= 1,
        ;
    } else {
        let front = items.drop_last();
        lemma_fed_batches(capacity, front);
        let (emitted, rest) = fed(capacity, Seq::<T>::empty(), front);
        let q = (k - 1) / n;
        assert(q * n <= k - 1 < q * n + n && q >= 0) by (nonlinear_arith)
            requires
                n >= 1,
                k >= 1,
                q == (k - 1) / n,
        ;
        if rest.len() + 1 >= capacity {
            assert(k == (q + 1) * n) by (nonlinear_arith)
                requires
                    k - q * n >= n,
                    k - 1 < q * n + n,
            ;
            assert(k / n == q + 1) by (nonlinear_arith)
                requires
                    k == (q + 1) * n,
                    n >= 1,
            ;
            let all = fed(capacity, Seq::<T>::empty(), items).0;
            assert forall|i: int| 0 <= i < k / n implies #[trigger] all[i] == items.subrange(
                i * n,
                (i + 1) * n,
            ) by {
                if i < q {
                    assert((i + 1) * n <= q * n) by (nonlinear_arith)
                        requires
                            i + 1 <= q,
                            n >= 1,
                    ;
                    assert(i * n >= 0) by (nonlinear_arith)
                        requires
                            i >= 0,
                            n >= 1,
                    ;
                    assert(i * n <= (i + 1) * n) by (nonlinear_arith)
                        requires
                            n >= 1,
                    ;
                    assert(front.subrange(i * n, (i + 1) * n) == items.subrange(
                        i * n,
                        (i + 1) * n,
                    ));
                }
            }
        } else {
            assert(k / n == q) by (nonlinear_arith)
                requires
                    q * n <= k - 1,
                    k < q * n + n,
                    n >= 1,
                    q >= 0,
            ;
            let all = fed(capacity, Seq::<T>::empty(), items).0;
            assert forall|i: int| 0 <= i < k / n implies #[trigger] all[i] == items.subrange(
                i * n,
                (i + 1) * n,
            ) by {
                assert((i + 1) * n <= q * n) by (nonlinear_arith)
                    requires
                        i + 1 <= q,
                        n >= 1,
                ;
                assert(i * n >= 0) by (nonlinear_arith)
                    requires
                        i >= 0,
                        n >= 1,
                ;
                assert(i * n <= (i + 1) * n) by (nonlinear_arith)
                    requires
                        n >= 1,
                ;
            }
        }
    }
}

/// What a stream holds.
pub ghost struct StreamView<T> {
    pub name: Seq<char>,
    pub topic: Seq<char>,
    /// The batch size that the stream was made with.
    pub max_buffer_size: usize,
    /// The points that wait for their batch to fill.
    pub held: Seq<T>,
}

impl<T> StreamView<T> {
    /// The number of points at which the stream emits a batch.
    pub open spec fn capacity(self) -> nat {
        capacity_of(self.max_buffer_size)
    }
}

/// Whether `batch` is what the stream `stream` emits for the points `points`.
pub open spec fn emits<T>(stream: StreamView<T>, batch: Buffer<T>, points: Seq<T>) -> bool {
    &&& batch.stream@ == stream.name
    &&& batch.topic@ == stream.topic
    &&& batch.max_buffer_size == stream.max_buffer_size
    &&& batch.buffer@ == points
    &&& batch.anomalies@.len() == 0
    &&& batch.anomaly_count == 0
}

/// A stream: the batch that is being filled, and where its batches go.
#[derive(Debug)]
pub struct Stream<T> {
    name: String,
    topic: String,
    max_buffer_size: usize,
    buffer: Buffer<T>,
}

impl<T> View for Stream<T> {
    type V = StreamView<T>;

    closed spec fn view(&self) -> StreamView<T> {
        StreamView {
            name: self.name@,
            topic: self.topic@,
            max_buffer_size: self.max_buffer_size,
            held: self.buffer.buffer@,
        }
    }
}

impl<T> Stream<T> {
    /// The batch in the making carries the stream's name and topic and
    /// notes no anomaly.
    pub closed spec fn labelled(&self) -> bool {
        &&& self.buffer.stream@ == self.name@
        &&& self.buffer.topic@ == self.topic@
        &&& self.buffer.max_buffer_size == self.max_buffer_size
        &&& self.buffer.anomalies@.len() == 0
        &&& self.buffer.anomaly_count == 0
    }

    /// The batch in the making is the stream's own and holds less than the
    /// stream's capacity.
    pub open spec fn wf(&self) -> bool {
        self.labelled() && self@.held.len() < self@.capacity()
    }

    /// An empty stream `name` whose batches of `max_buffer_size` points go
    /// to `topic`.
    pub fn new(name: String, topic: String, max_buffer_size: usize) -> (stream: Stream<T>)
        ensures
            stream.wf(),
            stream@ == (StreamView {
                name: name@,
                topic: topic@,
                max_buffer_size,
                held: Seq::<T>::empty(),
            }),
    {
        let buffer = Buffer::new(name.clone(), topic.clone(), max_buffer_size);
        Stream { name, topic, max_buffer_size, buffer }
    }

    /// An empty stream `name` for a device that has configured none of that
    /// name.
    pub fn dynamic(name: &str, project_id: &str, device_id: &str) -> (stream: Stream<T>)
        ensures
            stream.wf(),
            stream@ == (StreamView {
                name: name@,
                topic: dynamic_topic(project_id@, device_id@, name@),
                max_buffer_size: MAX_BUFFER_SIZE,
                held: Seq::<T>::empty(),
            }),
    {
        let mut topic = String::from_str("projects/");
        topic.append(project_id);
        topic.append("/devices/");
        topic.append(device_id);
        topic.append("/streams/");
        topic.append(name);
        Stream::new(name.to_owned(), topic, MAX_BUFFER_SIZE)
    }

    /// The stream's name.
    pub fn name(&self) -> (name: &str)
        ensures
            name@ == self@.name,
    {
        self.name.as_str()
    }

    /// Whether the stream has the name `name`.
    pub fn is_named(&self, name: &String) -> (named: bool)
        ensures
            named == (self@.name == name@),
    {
        self.name == *name
    }

    /// The topic that the stream's batches go to.
    pub fn topic(&self) -> (topic: &str)
        ensures
            topic@ == self@.topic,
    {
        self.topic.as_str()
    }

    /// The number of points that wait in the stream.
    pub fn len(&self) -> (n: usize)
        ensures
            n == self@.held.len(),
    {
        self.buffer.buffer.len()
    }

    /// Takes the batch in the making out of the stream and leaves an empty
    /// one in its place.
    fn take_buffer(&mut self) -> (batch: Buffer<T>)
        requires
            old(self).labelled(),
        ensures
            final(self).wf(),
            final(self)@ == (StreamView { held: Seq::<T>::empty(), ..old(self)@ }),
            emits(old(self)@, batch, old(self)@.held),
    {
        let mut batch = Buffer::new(self.name.clone(), self.topic.clone(), self.max_buffer_size);
        std::mem::swap(&mut self.buffer, &mut batch);
        batch
    }

    /// Adds `item` to the batch in the making. A batch that has reached the
    /// stream's capacity is emitted, and an empty one takes its place.
    pub fn fill(&mut self, item: T) -> (flushed: Option<Buffer<T>>)
        requires
            old(self).wf(),
        ensures
            final(self).wf(),
            final(self)@ == (StreamView {
                held: fed_one(old(self)@.capacity(), old(self)@.held, item).1,
                ..old(self)@
            }),
            match flushed {
                Some(batch) => {
                    &&& fed_one(old(self)@.capacity(), old(self)@.held, item).0 is Some
                    &&& emits(old(self)@, batch, old(self)@.held.push(item))
                    &&& batch.full()
                    &&& old(self)@.max_buffer_size > 0 ==> batch.wf()
                },
                None => fed_one(old(self)@.capacity(), old(self)@.held, item).0 is None,
            },
    {
        self.buffer.buffer.push(item);
        if self.buffer.buffer.len() >= self.max_buffer_size {
            Some(self.take_buffer())
        } else {
            None
        }
    }

    /// Emits the batch in the making unless it is empty.
    pub fn flush(&mut self) -> (flushed: Option<Buffer<T>>)
        requires
            old(self).wf(),
        ensures
            final(self).wf(),
            final(self)@ == (StreamView { held: Seq::<T>::empty(), ..old(self)@ }),
            match flushed {
                Some(batch) => old(self)@.held.len() > 0 && emits(
                    old(self)@,
                    batch,
                    old(self)@.held,
                ),
                None => old(self)@.held.len() == 0,
            },
    {
        if self.buffer.buffer.len() == 0 {
            assert(self@.held =~= Seq::<T>::empty());
            None
        } else {
            Some(self.take_buffer())
        }
    }
}

} // verus!
