//! Traffic statistics: totals and a histogram by message id.
//!
//! Counters saturate at the largest value instead of wrapping, so that
//! between two resets they never decrease.

pub mod driver;

use std::collections::HashMap;
use vstd::prelude::*;
use vstd::std_specs::hash::*;
use vstd::std_specs::iter::IteratorSpec;

verus! {

broadcast use vstd::std_specs::hash::group_hash_axioms;

/// Microseconds in a second.
pub const MICROS_PER_SECOND: u64 = 1_000_000;

/// What has been counted of a stream of messages.
#[derive(Clone, Copy, Debug, PartialEq, Eq)]
pub struct Counters {
    /// Sum of the frame lengths.
    pub bytes: u64,
    /// Number of messages.
    pub messages: u64,
    /// Timestamp of the first message counted, if any.
    pub first_message_time: Option<u64>,
    /// Timestamp of the last message counted, if any.
    pub last_message_time: Option<u64>,
}

/// Events per second, rounded down, for `count` events in `elapsed_micros`
/// microseconds; the largest value where the quotient does not fit.
pub open spec fn rate_per_second(count: u64, elapsed_micros: u64) -> u64
    recommends
        elapsed_micros > 0,
{
    let exact = (count * MICROS_PER_SECOND) / (elapsed_micros as int);
    if exact > u64::MAX {
        u64::MAX
    } else {
        exact as u64
    }
}

impl Counters {
    /// Nothing counted.
    pub open spec fn zero() -> Counters {
        Counters { bytes: 0, messages: 0, first_message_time: None, last_message_time: None }
    }

    /// The counters after one more message of `len` bytes stamped `at`.
    pub open spec fn record(self, len: usize, at: u64) -> Counters {
        Counters {
            bytes: self.bytes.saturating_add(len as u64),
            messages: self.messages.saturating_add(1),
            first_message_time: match self.first_message_time {
                Some(first) => Some(first),
                None => Some(at),
            },
            last_message_time: Some(at),
        }
    }

    /// Time between the first and the last message, where there is one and
    /// the clock did not run backwards.
    pub open spec fn elapsed(self) -> Option<u64> {
        match (self.first_message_time, self.last_message_time) {
            (Some(first), Some(last)) => if first <= last {
                Some((last - first) as u64)
            } else {
                None
            },
            _ => None,
        }
    }

    /// The counters of two streams taken together: the sums, the earlier
    /// first and the later last message.
    pub open spec fn merged(self, other: Counters) -> Counters {
        Counters {
            bytes: self.bytes.saturating_add(other.bytes),
            messages: self.messages.saturating_add(other.messages),
            first_message_time: match (self.first_message_time, other.first_message_time) {
                (Some(a), Some(b)) => Some(if a <= b { a } else { b }),
                (Some(a), None) => Some(a),
                (None, b) => b,
            },
            last_message_time: match (self.last_message_time, other.last_message_time) {
                (Some(a), Some(b)) => Some(if a >= b { a } else { b }),
                (Some(a), None) => Some(a),
                (None, b) => b,
            },
        }
    }

    /// Adds what `other` counted.
    pub fn merge(&mut self, other: &Counters)
        ensures
            *final(self) == old(self).merged(*other),
    {
        self.bytes = self.bytes.saturating_add(other.bytes);
        self.messages = self.messages.saturating_add(other.messages);
        self.first_message_time = match (self.first_message_time, other.first_message_time) {
            (Some(a), Some(b)) => Some(if a <= b { a } else { b }),
            (Some(a), None) => Some(a),
            (None, b) => b,
        };
        self.last_message_time = match (self.last_message_time, other.last_message_time) {
            (Some(a), Some(b)) => Some(if a >= b { a } else { b }),
            (Some(a), None) => Some(a),
            (None, b) => b,
        };
    }

    /// Counters with nothing counted.
    pub fn new() -> (counters: Counters)
        ensures
            counters == Counters::zero(),
    {
        Counters { bytes: 0, messages: 0, first_message_time: None, last_message_time: None }
    }

    /// Counts one more message of `len` bytes stamped `at`.
    pub fn update(&mut self, len: usize, at: u64)
        ensures
            *final(self) == old(self).record(len, at),
            final(self).messages >= old(self).messages,
            final(self).bytes >= old(self).bytes,
    {
        self.bytes = self.bytes.saturating_add(len as u64);
        self.messages = self.messages.saturating_add(1);
        if self.first_message_time.is_none() {
            self.first_message_time = Some(at);
        }
        self.last_message_time = Some(at);
    }

    /// Microseconds between the first and the last message counted.
    pub fn elapsed_micros(&self) -> (elapsed: Option<u64>)
        ensures
            elapsed == self.elapsed(),
    {
        match (self.first_message_time, self.last_message_time) {
            (Some(first), Some(last)) => if first <= last {
                Some(last - first)
            } else {
                None
            },
            _ => None,
        }
    }

    /// Messages per second between the first and the last message. There is
    /// no rate before time has passed between two messages.
    pub fn messages_per_second(&self) -> (rate: Option<u64>)
        ensures
            rate == match self.elapsed() {
                Some(elapsed) => if elapsed > 0 {
                    Some(rate_per_second(self.messages, elapsed))
                } else {
                    None
                },
                None => None,
            },
    {
        match self.elapsed_micros() {
            Some(elapsed) => if elapsed > 0 {
                Some(per_second(self.messages, elapsed))
            } else {
                None
            },
            None => None,
        }
    }

    /// Bytes per second between the first and the last message. There is no
    /// rate before time has passed between two messages.
    pub fn bytes_per_second(&self) -> (rate: Option<u64>)
        ensures
            rate == match self.elapsed() {
                Some(elapsed) => if elapsed > 0 {
                    Some(rate_per_second(self.bytes, elapsed))
                } else {
                    None
                },
                None => None,
            },
    {
        match self.elapsed_micros() {
            Some(elapsed) => if elapsed > 0 {
                Some(per_second(self.bytes, elapsed))
            } else {
                None
            },
            None => None,
        }
    }
}

/// `count` events in `elapsed_micros` microseconds, as events per second.
fn per_second(count: u64, elapsed_micros: u64) -> (rate: u64)
    requires
        elapsed_micros > 0,
    ensures
        rate == rate_per_second(count, elapsed_micros),
{
    let scaled: u128 = count as u128 * MICROS_PER_SECOND as u128;
    let exact: u128 = scaled / elapsed_micros as u128;
    if exact > u64::MAX as u128 {
        u64::MAX
    } else {
        exact as u64
    }
}

/// What [`StatsInner`] holds: the totals, and the counters of every message
/// id seen so far.
pub struct StatsView {
    pub total: Counters,
    pub per_message_id: Map<u32, Counters>,
}

impl StatsView {
    /// Statistics of a stream of which nothing has been seen.
    pub open spec fn empty() -> StatsView {
        StatsView { total: Counters::zero(), per_message_id: Map::empty() }
    }

    /// The counters of `message_id`: zero where no such message was seen.
    pub open spec fn of_message(self, message_id: u32) -> Counters {
        counters_of(self.per_message_id, message_id)
    }

    /// The statistics of two streams taken together.
    pub open spec fn merged(self, other: StatsView) -> StatsView {
        StatsView {
            total: self.total.merged(other.total),
            per_message_id: merge_tables(self.per_message_id, other.per_message_id),
        }
    }

    /// The statistics after one more message with id `message_id`, of `len`
    /// bytes, stamped `at`.
    pub open spec fn record(self, message_id: u32, len: usize, at: u64) -> StatsView {
        StatsView {
            total: self.total.record(len, at),
            per_message_id: self.per_message_id.insert(
                message_id,
                self.of_message(message_id).record(len, at),
            ),
        }
    }
}

/// The counters that `table` holds for `message_id`: zero where it holds none.
pub open spec fn counters_of(table: Map<u32, Counters>, message_id: u32) -> Counters {
    if table.dom().contains(message_id) {
        table[message_id]
    } else {
        Counters::zero()
    }
}

/// The histograms of two streams taken together: every message id of
/// either, each with the counters of both merged.
pub open spec fn merge_tables(a: Map<u32, Counters>, b: Map<u32, Counters>) -> Map<u32, Counters> {
    Map::new(
        |id: u32| a.dom().contains(id) || b.dom().contains(id),
        |id: u32| counters_of(a, id).merged(counters_of(b, id)),
    )
}

/// Merging with nothing changes nothing.
pub proof fn lemma_merged_zero(counters: Counters)
    ensures
        counters.merged(Counters::zero()) == counters,
        Counters::zero().merged(counters) == counters,
{
}

/// `id` is among the first `n` keys of the walk `pairs` through a table.
spec fn walked(pairs: Seq<(&u32, &Counters)>, n: int, id: u32) -> bool {
    exists|j: int| 0 <= j < n && *(#[trigger] pairs[j]).0 == id
}

/// What `start` has become once the first `n` pairs of the walk through
/// `other` are merged into it.
spec fn merged_upto(
    start: Map<u32, Counters>,
    other: Map<u32, Counters>,
    pairs: Seq<(&u32, &Counters)>,
    n: int,
) -> Map<u32, Counters> {
    Map::new(
        |id: u32| start.dom().contains(id) || walked(pairs, n, id),
        |id: u32|
            if walked(pairs, n, id) {
                counters_of(start, id).merged(other[id])
            } else {
                counters_of(start, id)
            },
    )
}

/// Adds the histogram `other` to `table`: the counters of each message id
/// of `other` are merged into those that `table` holds for it.
pub fn merge_into(table: &mut HashMap<u32, Counters>, other: &HashMap<u32, Counters>)
    ensures
        final(table)@ == merge_tables(old(table)@, other@),
{
    let ghost start = table@;
    assert(table@ =~= merged_upto(start, other@, spec_hash_map_iter(other).remaining(), 0));
    for pair in it: other.iter()
        invariant
            it.seq() == spec_hash_map_iter(other).remaining(),
            it.seq().no_duplicates(),
            table@ == merged_upto(start, other@, it.seq(), it.index() as int),
    {
        let (id, counters) = pair;
        let ghost n = it.index() as int;
        let ghost pairs = it.seq();
        assert(other@.contains_key(*id) && other@[*id] == *counters);
        proof {
            if walked(pairs, n, *id) {
                let j = choose|j: int| 0 <= j < n && *(#[trigger] pairs[j]).0 == *id;
                assert(other@[*pairs[j].0] == *pairs[j].1);
                assert(pairs[j] == pairs[n]);
            }
            lemma_merged_zero(counters_of(start, *id));
        }
        let mut merged = match table.get(id) {
            Some(held) => *held,
            None => Counters::new(),
        };
        merged.merge(counters);
        table.insert(*id, merged);
        proof {
            assert forall|k: u32| walked(pairs, n + 1, k) == (walked(pairs, n, k) || k == *id) by {
                if walked(pairs, n + 1, k) {
                    let j = choose|j: int| 0 <= j < n + 1 && *(#[trigger] pairs[j]).0 == k;
                    if j < n {
                        assert(walked(pairs, n, k));
                    }
                }
                if walked(pairs, n, k) {
                    let j = choose|j: int| 0 <= j < n && *(#[trigger] pairs[j]).0 == k;
                    assert(0 <= j < n + 1 && *pairs[j].0 == k);
                }
                if k == *id {
                    assert(*pairs[n].0 == k);
                }
            }
            assert(table@ =~= merged_upto(start, other@, pairs, n + 1));
        }
    }
    proof {
        let pairs = spec_hash_map_iter(other).remaining();
        let n = pairs.len() as int;
        assert forall|k: u32| walked(pairs, n, k) == other@.contains_key(k) by {
            if walked(pairs, n, k) {
                let j = choose|j: int| 0 <= j < n && *(#[trigger] pairs[j]).0 == k;
                assert(other@.contains_key(*pairs[j].0));
            }
            if other@.contains_key(k) {
                assert(pairs.contains((&k, &other@[k])));
                let j = choose|j: int| 0 <= j < pairs.len() && pairs[j] == (&k, &other@[k]);
                assert(*pairs[j].0 == k);
            }
        }
        assert forall|k: u32| #[trigger]
            merge_tables(start, other@).dom().contains(k) implies merged_upto(
            start,
            other@,
            pairs,
            n,
        )[k] == merge_tables(start, other@)[k] by {
            lemma_merged_zero(counters_of(start, k));
        }
        assert(merged_upto(start, other@, pairs, n) =~= merge_tables(start, other@));
    }
}

/// Statistics of one direction of one driver: totals and a histogram by
/// message id.
#[derive(Debug, PartialEq, Eq)]
pub struct StatsInner {
    total: Counters,
    per_message_id: HashMap<u32, Counters>,
}

impl View for StatsInner {
    type V = StatsView;

    closed spec fn view(&self) -> StatsView {
        StatsView { total: self.total, per_message_id: self.per_message_id@ }
    }
}

impl StatsInner {
    /// Statistics with nothing counted.
    pub fn new() -> (stats: StatsInner)
        ensures
            stats@ == StatsView::empty(),
    {
        StatsInner { total: Counters::new(), per_message_id: HashMap::new() }
    }

    /// Counts one more message with id `message_id`, of `len` bytes, stamped `at`.
    pub fn update(&mut self, message_id: u32, len: usize, at: u64)
        ensures
            final(self)@ == old(self)@.record(message_id, len, at),
            final(self)@.total.messages >= old(self)@.total.messages,
            final(self)@.total.bytes >= old(self)@.total.bytes,
    {
        self.total.update(len, at);
        let mut counters = match self.per_message_id.get(&message_id) {
            Some(held) => *held,
            None => Counters::new(),
        };
        counters.update(len, at);
        self.per_message_id.insert(message_id, counters);
    }

    /// Adds what `other` counted: the totals and, for each message id, the
    /// counters.
    pub fn merge(&mut self, other: &StatsInner)
        ensures
            final(self)@ == old(self)@.merged(other@),
    {
        self.total.merge(&other.total);
        merge_into(&mut self.per_message_id, &other.per_message_id);
    }

    /// The totals over all messages.
    pub fn total(&self) -> (total: Counters)
        ensures
            total == self@.total,
    {
        self.total
    }

    /// Number of messages counted.
    pub fn messages(&self) -> (messages: u64)
        ensures
            messages == self@.total.messages,
    {
        self.total.messages
    }

    /// Number of bytes counted.
    pub fn bytes(&self) -> (bytes: u64)
        ensures
            bytes == self@.total.bytes,
    {
        self.total.bytes
    }

    /// Timestamp of the first message counted, if any.
    pub fn first_message_time(&self) -> (time: Option<u64>)
        ensures
            time == self@.total.first_message_time,
    {
        self.total.first_message_time
    }

    /// Timestamp of the last message counted, if any.
    pub fn last_message_time(&self) -> (time: Option<u64>)
        ensures
            time == self@.total.last_message_time,
    {
        self.total.last_message_time
    }

    /// The counters of `message_id`, if such a message was counted.
    pub fn for_message(&self, message_id: u32) -> (counters: Option<Counters>)
        ensures
            counters is Some <==> self@.per_message_id.dom().contains(message_id),
            counters matches Some(c) ==> c == self@.per_message_id[message_id],
    {
        match self.per_message_id.get(&message_id) {
            Some(held) => Some(*held),
            None => None,
        }
    }

    /// The histogram: the counters of every message id counted.
    pub fn per_message_id(&self) -> (table: &HashMap<u32, Counters>)
        ensures
            table@ == self@.per_message_id,
    {
        &self.per_message_id
    }
}

impl Clone for StatsInner {
    fn clone(&self) -> (copy: StatsInner)
        ensures
            copy@ == self@,
    {
        StatsInner { total: self.total, per_message_id: self.per_message_id.clone() }
    }
}

/// One message as the statistics see it.
pub struct Observation {
    pub message_id: u32,
    pub len: usize,
    pub at: u64,
}

/// The statistics after the messages of `events` were counted, in order,
/// starting from `start`.
pub open spec fn replay(start: StatsView, events: Seq<Observation>) -> StatsView
    decreases events.len(),
{
    if events.len() == 0 {
        start
    } else {
        let last = events.last();
        replay(start, events.drop_last()).record(last.message_id, last.len, last.at)
    }
}

/// Monotonicity: however many messages are counted, no total and no
/// per-message counter of messages or bytes ever decreases, and an id that
/// was counted stays in the histogram.
pub proof fn lemma_counters_never_decrease(start: StatsView, events: Seq<Observation>)
    ensures
        replay(start, events).total.messages >= start.total.messages,
        replay(start, events).total.bytes >= start.total.bytes,
        forall|id: u32|
            start.per_message_id.dom().contains(id) ==> #[trigger] replay(
                start,
                events,
            ).per_message_id.dom().contains(id),
        forall|id: u32|
            #[trigger] replay(start, events).of_message(id).messages >= start.of_message(
                id,
            ).messages,
        forall|id: u32|
            #[trigger] replay(start, events).of_message(id).bytes >= start.of_message(id).bytes,
    decreases events.len(),
{
    if events.len() > 0 {
        lemma_counters_never_decrease(start, events.drop_last());
        let mid = replay(start, events.drop_last());
        let last = events.last();
        assert forall|id: u32|
            #[trigger] replay(start, events).of_message(id).messages >= start.of_message(
                id,
            ).messages by {
            assert(mid.of_message(id).messages >= start.of_message(id).messages);
        }
        assert forall|id: u32|
            #[trigger] replay(start, events).of_message(id).bytes >= start.of_message(
                id,
            ).bytes by {
            assert(mid.of_message(id).bytes >= start.of_message(id).bytes);
        }
        assert forall|id: u32| start.per_message_id.dom().contains(id) implies #[trigger] replay(
            start,
            events,
        ).per_message_id.dom().contains(id) by {
            assert(mid.per_message_id.dom().contains(id));
        }
    }
}

} // verus!
