//! Counters that the serializer reports about its own work.

use crate::json::{decimal, push_bytes, push_decimal, push_text, quote, quoted, text};
use vstd::prelude::*;
use vstd::string::StringExecFns;
use vstd::string::StrSliceExecFns;

verus! {

/// The most characters that the error text holds.
pub const MAX_ERRORS: usize = 1024;

/// What the counters hold.
pub ghost struct MetricsView {
    pub topic: Seq<char>,
    pub sequence: u32,
    pub timestamp: u64,
    pub total_sent_size: usize,
    pub total_disk_size: usize,
    pub lost_segments: usize,
    pub errors: Seq<char>,
    pub error_count: usize,
}

/// The sum of two counts, held at the largest count.
pub open spec fn add_capped(total: usize, size: usize) -> usize {
    if total + size > usize::MAX {
        usize::MAX
    } else {
        (total + size) as usize
    }
}

/// The difference of two counts, held at zero.
pub open spec fn sub_floored(total: usize, size: usize) -> usize {
    if total < size {
        0
    } else {
        (total - size) as usize
    }
}

/// Counts never wrap: adding never lowers a count, taking away never
/// raises it, and what was added can be taken away again unless the count
/// was held at its largest.
pub proof fn lemma_counts_are_held(total: usize, size: usize)
    ensures
        total <= add_capped(total, size) <= usize::MAX,
        0 <= sub_floored(total, size) <= total,
        total + size <= usize::MAX ==> sub_floored(add_capped(total, size), size) == total,
        size <= total ==> add_capped(sub_floored(total, size), size) == total,
{
}

/// A change to the counts of bytes.
pub ghost enum Count {
    /// Bytes were sent.
    Sent(usize),
    /// Bytes were written to the spool.
    Spilled(usize),
    /// Bytes were taken back out of the spool.
    Recovered(usize),
}

/// The counters after a change to the counts of bytes.
pub open spec fn tallied(metrics: MetricsView, count: Count) -> MetricsView {
    match count {
        Count::Sent(size) => MetricsView {
            total_sent_size: add_capped(metrics.total_sent_size, size),
            ..metrics
        },
        Count::Spilled(size) => MetricsView {
            total_disk_size: add_capped(metrics.total_disk_size, size),
            ..metrics
        },
        Count::Recovered(size) => MetricsView {
            total_disk_size: sub_floored(metrics.total_disk_size, size),
            ..metrics
        },
    }
}

/// The counters after a series of changes, in their order.
pub open spec fn tallied_all(metrics: MetricsView, counts: Seq<Count>) -> MetricsView
    decreases counts.len(),
{
    if counts.len() == 0 {
        metrics
    } else {
        tallied(tallied_all(metrics, counts.drop_last()), counts.last())
    }
}

/// Whatever is added and taken away, and in whatever order, the count of
/// bytes sent never goes down, and the count of bytes on disk stays between
/// zero and the largest count.
pub proof fn lemma_tallies_are_held(metrics: MetricsView, counts: Seq<Count>)
    ensures
        tallied_all(metrics, counts).total_sent_size >= metrics.total_sent_size,
        0 <= tallied_all(metrics, counts).total_disk_size <= usize::MAX,
        forall|k: int|
            0 <= k <= counts.len() ==> #[trigger] tallied_all(
                metrics,
                counts.subrange(0, k),
            ).total_sent_size <= tallied_all(metrics, counts).total_sent_size,
    decreases counts.len(),
{
    if counts.len() > 0 {
        let front = counts.drop_last();
        lemma_tallies_are_held(metrics, front);
        assert forall|k: int| 0 <= k <= counts.len() implies #[trigger] tallied_all(
            metrics,
            counts.subrange(0, k),
        ).total_sent_size <= tallied_all(metrics, counts).total_sent_size by {
            if k < counts.len() {
                assert(counts.subrange(0, k) == front.subrange(0, k));
            } else {
                assert(counts.subrange(0, k) == counts);
            }
        }
    }
}

/// The error text after `error` was reported: the report and a separator
/// are added where both still fit.
pub open spec fn errors_with(errors: Seq<char>, error: Seq<char>) -> Seq<char> {
    if errors.len() + error.len() + 3 <= MAX_ERRORS {
        errors + error + seq![' ', '|', ' ']
    } else {
        errors
    }
}

/// Counters at zero, to be reported on `topic`.
pub open spec fn fresh(topic: Seq<char>) -> MetricsView {
    MetricsView {
        topic,
        sequence: 0,
        timestamp: 0,
        total_sent_size: 0,
        total_disk_size: 0,
        lost_segments: 0,
        errors: Seq::<char>::empty(),
        error_count: 0,
    }
}

/// The counters as they stand after a report at `timestamp`, before the
/// report clears what it has told.
pub open spec fn stamped(metrics: MetricsView, timestamp: u64) -> MetricsView {
    MetricsView {
        timestamp,
        sequence: if metrics.sequence < u32::MAX {
            (metrics.sequence + 1) as u32
        } else {
            metrics.sequence
        },
        ..metrics
    }
}

/// The counters after a report: error text and lost segments start anew.
pub open spec fn cleared(metrics: MetricsView) -> MetricsView {
    MetricsView { errors: Seq::<char>::empty(), lost_segments: 0, ..metrics }
}

/// The report of the counters: an array of one JSON object, the error text
/// given as `errors`.
pub open spec fn report(metrics: MetricsView, errors: Seq<u8>) -> Seq<u8> {
    text("[{\"sequence\":") + decimal(metrics.sequence as nat) + text(",\"timestamp\":") + decimal(
        metrics.timestamp as nat,
    ) + text(",\"total_sent_size\":") + decimal(metrics.total_sent_size as nat) + text(
        ",\"total_disk_size\":",
    ) + decimal(metrics.total_disk_size as nat) + text(",\"lost_segments\":") + decimal(
        metrics.lost_segments as nat,
    ) + text(",\"errors\":") + errors + text(",\"error_count\":") + decimal(
        metrics.error_count as nat,
    ) + text("}]")
}

/// The serializer's account of what it sent, spilled and lost.
#[derive(Debug)]
pub struct Metrics {
    topic: String,
    sequence: u32,
    timestamp: u64,
    total_sent_size: usize,
    total_disk_size: usize,
    lost_segments: usize,
    errors: String,
    error_count: usize,
}

impl View for Metrics {
    type V = MetricsView;

    closed spec fn view(&self) -> MetricsView {
        MetricsView {
            topic: self.topic@,
            sequence: self.sequence,
            timestamp: self.timestamp,
            total_sent_size: self.total_sent_size,
            total_disk_size: self.total_disk_size,
            lost_segments: self.lost_segments,
            errors: self.errors@,
            error_count: self.error_count,
        }
    }
}

impl Metrics {
    /// The error text keeps within its bound.
    pub open spec fn wf(&self) -> bool {
        self@.errors.len() <= MAX_ERRORS
    }

    /// Counters at zero, to be reported on `topic`.
    pub fn new(topic: &str) -> (metrics: Metrics)
        ensures
            metrics.wf(),
            metrics@ == fresh(topic@),
    {
        Metrics {
            topic: topic.to_owned(),
            sequence: 0,
            timestamp: 0,
            total_sent_size: 0,
            total_disk_size: 0,
            lost_segments: 0,
            errors: String::new(),
            error_count: 0,
        }
    }

    /// Counts `size` bytes as sent.
    pub fn add_total_sent_size(&mut self, size: usize)
        ensures
            final(self)@ == tallied(old(self)@, Count::Sent(size)),
            final(self)@.total_sent_size >= old(self)@.total_sent_size,
    {
        self.total_sent_size = self.total_sent_size.saturating_add(size);
    }

    /// Counts `size` bytes as written to the spool.
    pub fn add_total_disk_size(&mut self, size: usize)
        ensures
            final(self)@ == tallied(old(self)@, Count::Spilled(size)),
    {
        self.total_disk_size = self.total_disk_size.saturating_add(size);
    }

    /// Counts `size` bytes as taken back out of the spool.
    pub fn sub_total_disk_size(&mut self, size: usize)
        ensures
            final(self)@ == tallied(old(self)@, Count::Recovered(size)),
    {
        self.total_disk_size = self.total_disk_size.saturating_sub(size);
    }

    /// Counts one spool segment as lost.
    pub fn increment_lost_segments(&mut self)
        ensures
            final(self)@ == (MetricsView {
                lost_segments: add_capped(old(self)@.lost_segments, 1),
                ..old(self)@
            }),
    {
        self.lost_segments = self.lost_segments.saturating_add(1);
    }

    /// Counts `count` errors, and notes `error` in the error text where the
    /// text has room for it.
    pub fn add_errors(&mut self, error: &str, count: usize)
        ensures
            final(self)@ == (MetricsView {
                error_count: add_capped(old(self)@.error_count, count),
                errors: errors_with(old(self)@.errors, error@),
                ..old(self)@
            }),
            old(self).wf() ==> final(self).wf(),
    {
        self.error_count = self.error_count.saturating_add(count);
        let held = self.errors.as_str().unicode_len();
        let more = error.unicode_len();
        if held > MAX_ERRORS || more > MAX_ERRORS - held || MAX_ERRORS - held - more < 3 {
            return ;
        }
        self.errors.append(error);
        self.errors.append(" | ");
        proof {
            reveal_strlit(" | ");
            assert(" | "@ =~= seq![' ', '|', ' ']);
        }
    }

    /// The report of the counters as they stand after `stamped`, with the
    /// error text already written as the JSON string `errors`.
    pub fn report(&self, errors: &[u8]) -> (payload: Vec<u8>)
        ensures
            payload@ == report(self@, errors@),
    {
        let mut out: Vec<u8> = Vec::new();
        push_text(&mut out, "[{\"sequence\":");
        push_decimal(&mut out, self.sequence as u64);
        push_text(&mut out, ",\"timestamp\":");
        push_decimal(&mut out, self.timestamp);
        push_text(&mut out, ",\"total_sent_size\":");
        push_decimal(&mut out, self.total_sent_size as u64);
        push_text(&mut out, ",\"total_disk_size\":");
        push_decimal(&mut out, self.total_disk_size as u64);
        push_text(&mut out, ",\"lost_segments\":");
        push_decimal(&mut out, self.lost_segments as u64);
        push_text(&mut out, ",\"errors\":");
        push_bytes(&mut out, errors);
        push_text(&mut out, ",\"error_count\":");
        push_decimal(&mut out, self.error_count as u64);
        push_text(&mut out, "}]");
        out
    }

    /// Hands out the topic and the report of the counters, with the error
    /// text given as the JSON string `errors`; error text and lost segments
    /// then start anew.
    pub fn emit(&mut self, errors: &[u8]) -> (emitted: (String, Vec<u8>))
        ensures
            emitted.0@ == old(self)@.topic,
            emitted.1@ == report(old(self)@, errors@),
            final(self)@ == cleared(old(self)@),
            final(self).wf(),
    {
        let payload = self.report(errors);
        self.errors = String::new();
        self.lost_segments = 0;
        (self.topic.clone(), payload)
    }

    /// Stamps the counters with `timestamp`, advances the sequence number
    /// and hands out the topic and the report, which tells the counters as
    /// stamped; error text and lost segments then start anew.
    pub fn next(&mut self, timestamp: u64) -> (emitted: (String, Vec<u8>))
        ensures
            emitted.0@ == old(self)@.topic,
            emitted.1@ == report(stamped(old(self)@, timestamp), quoted(old(self)@.errors)),
            final(self)@ == cleared(stamped(old(self)@, timestamp)),
            final(self).wf(),
    {
        self.timestamp = timestamp;
        if self.sequence < u32::MAX {
            self.sequence = self.sequence + 1;
        }
        let errors = match quote(self.errors.as_str()) {
            Some(errors) => errors,
            None => unreached(),
        };
        self.emit(errors.as_slice())
    }

    /// The topic that the report goes to.
    pub fn topic(&self) -> (topic: &str)
        ensures
            topic@ == self@.topic,
    {
        self.topic.as_str()
    }

    /// The number of reports made.
    pub fn sequence(&self) -> (n: u32)
        ensures
            n == self@.sequence,
    {
        self.sequence
    }

    /// The time of the last report.
    pub fn timestamp(&self) -> (t: u64)
        ensures
            t == self@.timestamp,
    {
        self.timestamp
    }

    /// The bytes sent so far.
    pub fn total_sent_size(&self) -> (n: usize)
        ensures
            n == self@.total_sent_size,
    {
        self.total_sent_size
    }

    /// The bytes that lie in the spool.
    pub fn total_disk_size(&self) -> (n: usize)
        ensures
            n == self@.total_disk_size,
    {
        self.total_disk_size
    }

    /// The spool segments lost since the last report.
    pub fn lost_segments(&self) -> (n: usize)
        ensures
            n == self@.lost_segments,
    {
        self.lost_segments
    }

    /// The errors noted since the last report.
    pub fn errors(&self) -> (errors: &str)
        ensures
            errors@ == self@.errors,
    {
        self.errors.as_str()
    }

    /// The errors counted so far.
    pub fn error_count(&self) -> (n: usize)
        ensures
            n == self@.error_count,
    {
        self.error_count
    }
}

} // verus!
