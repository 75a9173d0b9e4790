//! A keyed timer set: at most one pending deadline per key.
//!
//! The deadlines themselves live in a `tokio_util::time::DelayQueue`, which
//! keeps them ordered and fires them; this module keeps the queue and the
//! key index in step and proves that they never disagree.
//!
//! The queue's timers are Tokio's, and three things about them are no
//! arguments of any call, so that no contract here can ask for them:
//!
//! - Whoever sets, moves, removes or polls a deadline must do so within a
//!   Tokio runtime whose timer is enabled; outside of one the queue panics.
//! - The queue's timer wheel spans 2^36 milliseconds, counted from the last
//!   time the queue was polled. A period of up to [`MAX_PERIOD`] is taken
//!   as long as the queue was polled within the last 2^35 milliseconds, about
//!   a year; after that the queue panics.
//! - Deadlines are told in milliseconds after the set was made, on Tokio's
//!   clock, which does not run backwards. A set must be used under the clock
//!   it was made under: a test clock that was paused before a set was made
//!   outside of its runtime may lie behind the set's beginning, and the
//!   deadlines then come earlier than the contracts say.

use std::task::Context;
use std::time::Duration;
use tokio_util::time::delay_queue::Key;
use tokio_util::time::DelayQueue;
use vstd::hash_map::StringHashMap;
use vstd::prelude::*;

verus! {

/// The most timers a queue can hold at once.
pub const MAX_ENTRIES: usize = 0x3FFF_FFFF;

/// The longest period, in milliseconds, that a timer can be set to.
///
/// The queue's timer wheel spans 2^36 milliseconds, counted from the last
/// time the queue was polled; half of that span is left to the time that has
/// passed since.
pub const MAX_PERIOD: u64 = 0x7_FFFF_FFFF;

/// `tokio_util::time::DelayQueue`, taken as it is: nothing is known of its
/// inside but what the functions below say.
#[verifier::external_type_specification]
#[verifier::external_body]
#[verifier::reject_recursive_types(T)]
pub struct ExDelayQueue<T>(DelayQueue<T>);

/// `tokio_util::time::delay_queue::Key`, the token that a queue hands out
/// for a timer.
#[verifier::external_type_specification]
#[verifier::external_body]
pub struct ExKey(Key);

/// `std::task::Context`, which is passed through to the queue.
#[verifier::external_type_specification]
#[verifier::external_body]
pub struct ExContext<'a>(Context<'a>);

/// The timers that a queue holds: every token it has handed out and not yet
/// taken back, with the value stored under it.
pub uninterp spec fn queued(queue: DelayQueue<String>) -> Map<Key, Seq<char>>;

/// The deadline of every timer that a queue holds, by token: the time at
/// which the timer fires, in milliseconds after the queue was made.
pub uninterp spec fn due(queue: DelayQueue<String>) -> Map<Key, u64>;

/// Whether no timer of `live` is due before the timer under `key`.
pub open spec fn earliest(deadlines: Map<Key, u64>, live: Set<Key>, key: Key) -> bool {
    forall|other: Key| live.contains(other) ==> deadlines[key] <= #[trigger] deadlines[other]
}

/// The contents of a queue without timers.
pub open spec fn no_timers() -> Map<Key, Seq<char>> {
    Map::empty()
}

/// `DelayQueue::new`: a queue without timers.
#[verifier::external_body]
fn queue_new() -> (queue: DelayQueue<String>)
    ensures
        queued(queue) == no_timers(),
{
    DelayQueue::new()
}

/// `DelayQueue::insert`: stores `value` under a token that no live timer
/// has, to fire `period` milliseconds from now. Now is no earlier than the
/// queue's beginning, so the deadline lies at least `period` after it; the
/// other timers keep theirs. The call panics on a full queue and on a period
/// beyond the timer's range, and it needs a Tokio runtime with its timer
/// enabled around it.
#[verifier::external_body]
fn queue_insert(queue: &mut DelayQueue<String>, value: String, period: u64) -> (key: Key)
    requires
        queued(*old(queue)).dom().finite(),
        queued(*old(queue)).dom().len() < MAX_ENTRIES,
        period <= MAX_PERIOD,
    ensures
        !queued(*old(queue)).contains_key(key),
        queued(*final(queue)) == queued(*old(queue)).insert(key, value@),
        due(*final(queue)) == due(*old(queue)).insert(key, due(*final(queue))[key]),
        due(*final(queue))[key] >= period,
{
    queue.insert(value, Duration::from_millis(period))
}

/// `DelayQueue::remove`: takes the timer under `key` out of the queue. The
/// call panics on a token that the queue does not hold; like `insert`, it
/// needs a Tokio runtime around it.
#[verifier::external_body]
fn queue_remove(queue: &mut DelayQueue<String>, key: &Key)
    requires
        queued(*old(queue)).contains_key(*key),
    ensures
        queued(*final(queue)) == queued(*old(queue)).remove(*key),
        due(*final(queue)) == due(*old(queue)).remove(*key),
{
    queue.remove(key);
}

/// `DelayQueue::reset`: moves the deadline of the timer under `key` to
/// `period` milliseconds from now, which is at least `period` after the
/// queue's beginning, and leaves the set of timers and the other deadlines
/// as they are. The call panics on a token that the queue does not hold and
/// on a period beyond the timer's range; like `insert`, it needs a Tokio
/// runtime around it.
#[verifier::external_body]
fn queue_reset(queue: &mut DelayQueue<String>, key: &Key, period: u64)
    requires
        queued(*old(queue)).contains_key(*key),
        period <= MAX_PERIOD,
    ensures
        queued(*final(queue)) == queued(*old(queue)),
        due(*final(queue)) == due(*old(queue)).insert(*key, due(*final(queue))[*key]),
        due(*final(queue))[*key] >= period,
{
    queue.reset(key, Duration::from_millis(period));
}

/// `DelayQueue::is_empty`: whether the queue holds no timer.
#[verifier::external_body]
fn queue_is_empty(queue: &DelayQueue<String>) -> (empty: bool)
    ensures
        empty == (queued(*queue) == no_timers()),
{
    queue.is_empty()
}

/// `DelayQueue::poll_expired`: `None` while the earliest deadline lies ahead,
/// in which case the queue is unchanged and `cx` is woken at that deadline;
/// `Some(None)` when the queue holds no timer; else the token and value of
/// one timer whose deadline has passed, which leaves the queue. Timers
/// are handed out in the order of their deadlines, so that no timer of the
/// queue is due before the one handed out; among timers that are due in the
/// same millisecond any may come first. The timers that stay keep their
/// deadlines. Like `insert`, the call needs a Tokio runtime around it.
#[verifier::external_body]
fn queue_poll_expired(queue: &mut DelayQueue<String>, cx: &mut Context<'_>) -> (polled: Option<
    Option<(Key, String)>,
>)
    ensures
        match polled {
            Some(Some((key, value))) => {
                &&& queued(*old(queue)).contains_key(key)
                &&& queued(*old(queue))[key] == value@
                &&& queued(*final(queue)) == queued(*old(queue)).remove(key)
                &&& due(*final(queue)) == due(*old(queue)).remove(key)
                &&& earliest(due(*old(queue)), queued(*old(queue)).dom(), key)
            },
            Some(None) => {
                &&& queued(*old(queue)) == no_timers()
                &&& queued(*final(queue)) == queued(*old(queue))
                &&& due(*final(queue)) == due(*old(queue))
            },
            None => {
                &&& queued(*final(queue)) == queued(*old(queue))
                &&& due(*final(queue)) == due(*old(queue))
            },
        },
{
    match queue.poll_expired(cx) {
        std::task::Poll::Ready(expired) => Some(expired.map(|e| (e.key(), e.into_inner()))),
        std::task::Poll::Pending => None,
    }
}

/// What polling a timer set found.
pub enum Expiry {
    /// No deadline has passed yet; the caller is woken when one does.
    Pending,
    /// The set holds no timer.
    Idle,
    /// The timer of this key has fired and left the set.
    Expired(String),
}

/// A set without deadlines.
pub open spec fn no_deadlines() -> Map<Seq<char>, u64> {
    Map::empty()
}

/// The deadlines after `item` was given a new one, or its first, `period`
/// from now: the new deadline lies at least `period` after the set was made,
/// and every other key keeps its own.
pub open spec fn armed(
    before: Map<Seq<char>, u64>,
    item: Seq<char>,
    period: u64,
    after: Map<Seq<char>, u64>,
) -> bool {
    after == before.insert(item, after[item]) && after[item] >= period
}

/// Whether no key of `deadlines` is due before `item`.
pub open spec fn first_due(deadlines: Map<Seq<char>, u64>, item: Seq<char>) -> bool {
    forall|other: Seq<char>|
        deadlines.contains_key(other) ==> deadlines[item] <= #[trigger] deadlines[other]
}

/// Whether polling the deadlines `before` may give `expiry` and leave the
/// deadlines `after`: a key that fires is one of `before`, none of which is
/// due before it, and leaves the set; nothing else changes, and only an
/// empty set is idle.
pub open spec fn expired(
    before: Map<Seq<char>, u64>,
    after: Map<Seq<char>, u64>,
    expiry: Expiry,
) -> bool {
    match expiry {
        Expiry::Expired(item) => {
            &&& before.contains_key(item@)
            &&& first_due(before, item@)
            &&& after == before.remove(item@)
        },
        Expiry::Idle => before.dom().is_empty() && after == before,
        Expiry::Pending => after == before,
    }
}

/// A key that was removed does not fire, however long ago its deadline has
/// passed: after `remove`, no poll hands the key out, and the key stays
/// removed.
pub proof fn lemma_removed_never_fires(
    deadlines: Map<Seq<char>, u64>,
    item: Seq<char>,
    after: Map<Seq<char>, u64>,
    expiry: Expiry,
)
    requires
        expired(deadlines.remove(item), after, expiry),
    ensures
        !(expiry matches Expiry::Expired(fired) && fired@ == item),
        !after.contains_key(item),
{
}

/// A set of keys, each with one pending deadline.
pub struct DelayMap {
    queue: DelayQueue<String>,
    map: StringHashMap<Key>,
}

impl DelayMap {
    /// The timers of the underlying queue, by token.
    pub closed spec fn timers(&self) -> Map<Key, Seq<char>> {
        queued(self.queue)
    }

    /// The keys that have a pending deadline, each with its deadline in
    /// milliseconds after the set was made.
    pub closed spec fn view(&self) -> Map<Seq<char>, u64> {
        Map::new(
            |item: Seq<char>| self.map@.contains_key(item),
            |item: Seq<char>| due(self.queue)[self.map@[item]],
        )
    }

    /// The index and the queue describe the same timers: every indexed key
    /// owns the token of a queued timer that carries the key, and every
    /// queued timer is indexed under the key it carries.
    pub closed spec fn wf(&self) -> bool {
        &&& self.map@.dom().finite()
        &&& self.timers().dom().finite()
        &&& self.timers().dom().len() == self.map@.dom().len()
        &&& forall|item: Seq<char>| #[trigger]
            self.map@.contains_key(item) ==> self.timers().contains_key(self.map@[item])
                && self.timers()[self.map@[item]] == item
        &&& forall|key: Key| #[trigger]
            self.timers().contains_key(key) ==> self.map@.contains_key(self.timers()[key])
                && self.map@[self.timers()[key]] == key
    }

    /// A well-formed set is finite, and holds a key exactly if the queue
    /// holds a timer that carries it.
    pub proof fn lemma_keys_are_timers(&self)
        requires
            self.wf(),
        ensures
            self@.dom().finite(),
            self.timers().dom().finite(),
            self@.dom().len() == self.timers().dom().len(),
            forall|item: Seq<char>|
                self@.contains_key(item) <==> exists|key: Key| #[trigger]
                    self.timers().contains_key(key) && self.timers()[key] == item,
    {
        assert(self@.dom() =~= self.map@.dom());
        assert forall|item: Seq<char>| self@.contains_key(item) implies exists|key: Key| #[trigger]
            self.timers().contains_key(key) && self.timers()[key] == item by {
            let key = self.map@[item];
            assert(self.timers().contains_key(key) && self.timers()[key] == item);
        }
    }

    /// In a well-formed set no two keys share a token, and every key's
    /// token is one of the queue's.
    proof fn lemma_tokens_differ(&self)
        requires
            self.wf(),
        ensures
            forall|item: Seq<char>| #[trigger]
                self.map@.contains_key(item) ==> self.timers().contains_key(self.map@[item]),
            forall|one: Seq<char>, other: Seq<char>|
                self.map@.contains_key(one) && self.map@.contains_key(other) && one != other
                    ==> #[trigger] self.map@[one] != #[trigger] self.map@[other],
    {
        assert forall|one: Seq<char>, other: Seq<char>|
            self.map@.contains_key(one) && self.map@.contains_key(other) && one
                != other implies #[trigger] self.map@[one] != #[trigger] self.map@[other] by {
            assert(self.timers()[self.map@[one]] == one);
            assert(self.timers()[self.map@[other]] == other);
        }
    }

    /// A set without timers.
    pub fn new() -> (set: DelayMap)
        ensures
            set.wf(),
            set@ == no_deadlines(),
    {
        DelayMap { queue: queue_new(), map: StringHashMap::new() }
    }

    /// Whether `item` has a pending deadline.
    pub fn contains(&self, item: &str) -> (found: bool)
        ensures
            found == self@.contains_key(item@),
    {
        self.map.contains_key(item)
    }

    /// Removes the deadline of `item` if it has one. The other keys keep
    /// theirs.
    pub fn remove(&mut self, item: &str)
        requires
            old(self).wf(),
        ensures
            final(self).wf(),
            final(self)@ == old(self)@.remove(item@),
    {
        let found = match self.map.get(item) {
            Some(key) => Some(*key),
            None => None,
        };
        if let Some(key) = found {
            self.map.remove(item);
            queue_remove(&mut self.queue, &key);
        }
    }

    /// Moves the deadline of `item`, if it has one, to `period` milliseconds
    /// from now. The other keys keep theirs, and a key without a deadline
    /// gets none.
    pub fn reset(&mut self, item: &str, period: u64)
        requires
            old(self).wf(),
            period <= MAX_PERIOD,
        ensures
            final(self).wf(),
            old(self)@.contains_key(item@) ==> armed(old(self)@, item@, period, final(self)@),
            !old(self)@.contains_key(item@) ==> final(self)@ == old(self)@,
    {
        if let Some(key) = self.map.get(item) {
            queue_reset(&mut self.queue, key, period);
            proof {
                old(self).lemma_tokens_differ();
                assert(self@ =~= old(self)@.insert(item@, self@[item@]));
            }
        }
    }

    /// Gives `item`, which has no deadline yet, one that lies `period`
    /// milliseconds from now. The other keys keep theirs.
    pub fn insert(&mut self, item: String, period: u64)
        requires
            old(self).wf(),
            !old(self)@.contains_key(item@),
            old(self)@.dom().len() < MAX_ENTRIES,
            period <= MAX_PERIOD,
        ensures
            final(self).wf(),
            armed(old(self)@, item@, period, final(self)@),
    {
        proof {
            old(self).lemma_keys_are_timers();
        }
        let key = queue_insert(&mut self.queue, item.clone(), period);
        self.map.insert(item, key);
        proof {
            old(self).lemma_tokens_differ();
            assert(self@ =~= old(self)@.insert(item@, self@[item@]));
        }
    }

    /// Removes, resets or inserts the deadline of `item`: with `remove` set
    /// the deadline is dropped, and the result tells whether there was one;
    /// without it the deadline is moved, or created, to lie `period`
    /// milliseconds from now, and the result is `true`. The other keys keep
    /// their deadlines.
    pub fn update(&mut self, item: &str, period: u64, remove: bool) -> (done: bool)
        requires
            old(self).wf(),
            period <= MAX_PERIOD,
            !remove && !old(self)@.contains_key(item@) ==> old(self)@.dom().len() < MAX_ENTRIES,
        ensures
            final(self).wf(),
            done == (!remove || old(self)@.contains_key(item@)),
            remove ==> final(self)@ == old(self)@.remove(item@),
            !remove ==> armed(old(self)@, item@, period, final(self)@),
    {
        let present = self.contains(item);
        if remove {
            if !present {
                return false;
            }
            self.remove(item);
        } else if present {
            self.reset(item, period);
        } else {
            self.insert(item.to_owned(), period);
        }
        true
    }

    /// Takes out a key whose deadline has passed, if there is one.
    pub fn next(&mut self, cx: &mut Context<'_>) -> (expiry: Expiry)
        requires
            old(self).wf(),
        ensures
            final(self).wf(),
            expired(old(self)@, final(self)@, expiry),
    {
        let polled = queue_poll_expired(&mut self.queue, cx);
        let expiry = self.settle(polled);
        proof {
            old(self).lemma_tokens_differ();
            old(self).lemma_keys_are_timers();
            if expiry is Expired {
                let item = expiry->Expired_0@;
                assert(self@ =~= old(self)@.remove(item));
                assert forall|other: Seq<char>| old(self)@.contains_key(other) implies old(
                    self,
                )@[item] <= #[trigger] old(self)@[other] by {
                    assert(old(self).timers().dom().contains(old(self).map@[other]));
                }
            } else {
                if expiry is Idle {
                    old(self)@.dom().lemma_len0_is_empty();
                }
                assert(self@ =~= old(self)@);
            }
        }
        expiry
    }

    /// Brings the index in step with what the queue has just handed out:
    /// a key whose timer has left the queue leaves the index too.
    fn settle(&mut self, polled: Option<Option<(Key, String)>>) -> (expiry: Expiry)
        ensures
            final(self).queue == old(self).queue,
            match polled {
                Some(Some((key, item))) => {
                    &&& expiry == Expiry::Expired(item)
                    &&& final(self).map@ == old(self).map@.remove(item@)
                },
                Some(None) => expiry is Idle && final(self).map@ == old(self).map@,
                None => expiry is Pending && final(self).map@ == old(self).map@,
            },
    {
        match polled {
            Some(Some((key, item))) => {
                self.map.remove(item.as_str());
                Expiry::Expired(item)
            },
            Some(None) => Expiry::Idle,
            None => Expiry::Pending,
        }
    }

    /// Whether no key has a pending deadline.
    pub fn is_empty(&self) -> (empty: bool)
        requires
            self.wf(),
        ensures
            empty == self@.dom().is_empty(),
            empty == self.timers().dom().is_empty(),
    {
        let empty = queue_is_empty(&self.queue);
        proof {
            assert(self@.dom() =~= self.map@.dom());
            if self.timers().dom().is_empty() {
                assert(self.timers() =~= no_timers());
            }
            if self@.dom().len() == 0 {
                self@.dom().lemma_len0_is_empty();
            }
        }
        empty
    }
}

} // verus!
