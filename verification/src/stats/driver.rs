//! Statistics of one driver: what came in and what went out.

use super::{Counters, Observation, StatsInner, StatsView};
use crate::frame::message_id_of;
use crate::protocol::Protocol;
use vstd::prelude::*;

verus! {

/// The identity of a driver: a 128-bit value derived from its name, the
/// same for the same name in every run.
#[derive(Clone, Copy, Debug, PartialEq, Eq, Hash, PartialOrd, Ord)]
pub struct DriverUuid {
    /// The UUID, read as a big-endian number.
    pub value: u128,
}

/// The version-5 (SHA-1) UUID of `name` in the DNS namespace, read as a
/// big-endian number.
pub uninterp spec fn uuid_of_name(name: Seq<char>) -> u128;

/// Calls `uuid::Uuid::new_v5` with `Uuid::NAMESPACE_DNS` and the bytes of
/// `name`, and `Uuid::as_u128` on what it returns. Assumed: the result is a
/// function of the name alone.
#[verifier::external_body]
fn uuid_v5_of_name(name: &str) -> (value: u128)
    ensures
        value == uuid_of_name(name@),
{
    uuid::Uuid::new_v5(&uuid::Uuid::NAMESPACE_DNS, name.as_bytes()).as_u128()
}

impl DriverUuid {
    /// The identity of the driver called `name`.
    pub fn from_name(name: &str) -> (id: DriverUuid)
        ensures
            id.value == uuid_of_name(name@),
    {
        DriverUuid { value: uuid_v5_of_name(name) }
    }
}

/// How the statistics see `message`: its message id, the length of its
/// frame, and the time at which it arrived.
pub open spec fn observation_of(message: Protocol) -> Observation {
    let bytes = message.packet@;
    Observation {
        message_id: message_id_of(bytes[7], bytes[8], bytes[9]),
        len: bytes.len() as usize,
        at: message.timestamp,
    }
}

/// What one direction holds: nothing counted where it is unset.
pub open spec fn side_view(side: Option<StatsInner>) -> StatsView {
    match side {
        Some(stats) => stats@,
        None => StatsView::empty(),
    }
}

/// The statistics of `side` after `message` was counted.
pub open spec fn side_after(side: Option<StatsInner>, message: Protocol) -> StatsView {
    let seen = observation_of(message);
    side_view(side).record(seen.message_id, seen.len, seen.at)
}

/// The statistics `stats` after the messages of `messages` were counted,
/// in order.
pub open spec fn counted_all(stats: StatsView, messages: Seq<Protocol>) -> StatsView
    decreases messages.len(),
{
    if messages.len() == 0 {
        stats
    } else {
        let seen = observation_of(messages.last());
        counted_all(stats, messages.drop_last()).record(seen.message_id, seen.len, seen.at)
    }
}

/// Counts `message` into `side`, which starts from nothing where it is unset.
fn count_into(side: &mut Option<StatsInner>, message: &Protocol)
    ensures
        *final(side) is Some,
        side_view(*final(side)) == side_after(*old(side), *message),
{
    let mut stats = match side.take() {
        Some(stats) => stats,
        None => StatsInner::new(),
    };
    let bytes = message.raw_bytes();
    stats.update(message.packet.message_id(), bytes.len(), message.timestamp);
    *side = Some(stats);
}

/// Input and output statistics of one driver. A direction is unset until
/// the first message in it, and again after a reset.
#[derive(Debug, PartialEq, Eq)]
pub struct DriverStatsInner {
    /// Messages that came in from the driver's peers.
    pub input: Option<StatsInner>,
    /// Messages that went out to the driver's peers.
    pub output: Option<StatsInner>,
}

/// A copy of one direction.
fn clone_side(side: &Option<StatsInner>) -> (copy: Option<StatsInner>)
    ensures
        copy is Some <==> side is Some,
        side_view(copy) == side_view(*side),
{
    match side {
        Some(stats) => Some(stats.clone()),
        None => None,
    }
}

impl Clone for DriverStatsInner {
    fn clone(&self) -> (copy: DriverStatsInner)
        ensures
            copy.input is Some <==> self.input is Some,
            copy.output is Some <==> self.output is Some,
            side_view(copy.input) == side_view(self.input),
            side_view(copy.output) == side_view(self.output),
    {
        DriverStatsInner { input: clone_side(&self.input), output: clone_side(&self.output) }
    }
}

impl DriverStatsInner {
    /// Statistics with both directions unset.
    pub fn new() -> (stats: DriverStatsInner)
        ensures
            stats.input is None,
            stats.output is None,
    {
        DriverStatsInner { input: None, output: None }
    }

    /// Counts a message that came in.
    pub fn update_input(&mut self, message: &Protocol)
        ensures
            final(self).input is Some,
            side_view(final(self).input) == side_after(old(self).input, *message),
            final(self).output == old(self).output,
            side_view(final(self).input).total.messages >= side_view(
                old(self).input,
            ).total.messages,
            side_view(final(self).input).total.bytes >= side_view(old(self).input).total.bytes,
    {
        count_into(&mut self.input, message);
    }

    /// Counts a message that went out.
    pub fn update_output(&mut self, message: &Protocol)
        ensures
            final(self).output is Some,
            side_view(final(self).output) == side_after(old(self).output, *message),
            final(self).input == old(self).input,
            side_view(final(self).output).total.messages >= side_view(
                old(self).output,
            ).total.messages,
            side_view(final(self).output).total.bytes >= side_view(
                old(self).output,
            ).total.bytes,
    {
        count_into(&mut self.output, message);
    }

    /// Counts messages that came in, in order.
    pub fn update_input_all(&mut self, messages: &Vec<Protocol>)
        ensures
            side_view(final(self).input) == counted_all(side_view(old(self).input), messages@),
            final(self).output == old(self).output,
            messages@.len() > 0 ==> final(self).input is Some,
            messages@.len() == 0 ==> final(self).input == old(self).input,
    {
        let mut i: usize = 0;
        while i < messages.len()
            invariant
                i <= messages.len(),
                side_view(self.input) == counted_all(
                    side_view(old(self).input),
                    messages@.subrange(0, i as int),
                ),
                self.output == old(self).output,
                i > 0 ==> self.input is Some,
                i == 0 ==> self.input == old(self).input,
            decreases messages.len() - i,
        {
            proof {
                let upto = messages@.subrange(0, i + 1);
                assert(upto.drop_last() =~= messages@.subrange(0, i as int));
                assert(upto.last() == messages@[i as int]);
            }
            self.update_input(&messages[i]);
            i = i + 1;
        }
        assert(messages@.subrange(0, i as int) =~= messages@);
    }

    /// Forgets everything counted: both directions are unset again.
    pub fn reset(&mut self)
        ensures
            final(self).input is None,
            final(self).output is None,
    {
        self.input = None;
        self.output = None;
    }

    /// The totals of what came in since the last reset.
    pub fn input_total(&self) -> (total: Counters)
        ensures
            total == side_view(self.input).total,
    {
        match &self.input {
            Some(stats) => stats.total(),
            None => Counters::new(),
        }
    }

    /// The totals of what went out since the last reset.
    pub fn output_total(&self) -> (total: Counters)
        ensures
            total == side_view(self.output).total,
    {
        match &self.output {
            Some(stats) => stats.total(),
            None => Counters::new(),
        }
    }

    /// Number of messages that came in since the last reset.
    pub fn input_messages(&self) -> (messages: u64)
        ensures
            messages == side_view(self.input).total.messages,
    {
        match &self.input {
            Some(stats) => stats.messages(),
            None => 0,
        }
    }

    /// Number of messages that went out since the last reset.
    pub fn output_messages(&self) -> (messages: u64)
        ensures
            messages == side_view(self.output).total.messages,
    {
        match &self.output {
            Some(stats) => stats.messages(),
            None => 0,
        }
    }

    /// Timestamp of the first message that came in since the last reset.
    pub fn input_first_message_time(&self) -> (time: Option<u64>)
        ensures
            time == side_view(self.input).total.first_message_time,
    {
        match &self.input {
            Some(stats) => stats.first_message_time(),
            None => None,
        }
    }

    /// Timestamp of the first message that went out since the last reset.
    pub fn output_first_message_time(&self) -> (time: Option<u64>)
        ensures
            time == side_view(self.output).total.first_message_time,
    {
        match &self.output {
            Some(stats) => stats.first_message_time(),
            None => None,
        }
    }
}

/// The statistics of one driver, with the driver's name and kind.
#[derive(Debug, PartialEq, Eq)]
pub struct DriverStats {
    /// The name that the driver was given.
    pub name: String,
    /// The kind of driver, as its description names it.
    pub driver_type: &'static str,
    /// What the driver counted.
    pub stats: DriverStatsInner,
}

impl Clone for DriverStats {
    fn clone(&self) -> (copy: DriverStats)
        ensures
            copy.name@ == self.name@,
            copy.driver_type == self.driver_type,
            copy.stats.input is Some <==> self.stats.input is Some,
            copy.stats.output is Some <==> self.stats.output is Some,
            side_view(copy.stats.input) == side_view(self.stats.input),
            side_view(copy.stats.output) == side_view(self.stats.output),
    {
        DriverStats {
            name: self.name.clone(),
            driver_type: self.driver_type,
            stats: self.stats.clone(),
        }
    }
}

impl DriverStats {
    /// Statistics of a driver that has counted nothing yet.
    pub fn new(name: &str, driver_type: &'static str) -> (stats: DriverStats)
        ensures
            stats.name@ == name@,
            stats.driver_type == driver_type,
            stats.stats.input is None,
            stats.stats.output is None,
    {
        DriverStats { name: name.to_owned(), driver_type, stats: DriverStatsInner::new() }
    }
}

} // verus!
