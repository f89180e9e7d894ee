//! Synthetic drivers: a source that emits heartbeats and a sink that
//! consumes whatever the bus carries. Both count their traffic as real
//! drivers do.

use mavlink::ardupilotmega::{
    MavAutopilot, MavMessage, MavModeFlag, MavState, MavType, HEARTBEAT_DATA,
};
use crate::frame::{
    checksum_of, crc16, crc_extra, frames_of, is_frame, is_partial, lemma_framer_closure,
    message_id_of,
};
use crate::protocol::{read_all_messages, Protocol};
use crate::stats::driver::{side_after, side_view, DriverStats, DriverUuid, uuid_of_name};
use crate::drivers::driver::Driver;
use crate::drivers::info::{
    numeral_u64, option_of, parse_u64, query_option, legacy_examples, legacy_examples_of, url_examples, url_examples_of, DriverInfo, EndpointUrl,
};
use vstd::prelude::*;
use vstd::string::StringExecFns;

verus! {

/// System id of the heartbeats that a [`FakeSource`] emits.
pub const FAKE_SYSTEM_ID: u8 = 1;

/// Component id of the heartbeats that a [`FakeSource`] emits.
pub const FAKE_COMPONENT_ID: u8 = 2;

/// Message id of HEARTBEAT.
pub const HEARTBEAT_MESSAGE_ID: u32 = 0;

/// Start byte, header and payload of the synthetic heartbeat.
///
/// The header announces nine payload bytes, no flags, and message id 0.
/// The payload is that of a quadrotor with an ArduPilotMega autopilot in
/// standby: custom mode 5 in four bytes, little endian; type 2; autopilot
/// 3; base mode 89, which is manual input, stabilize, guided and custom
/// mode enabled; system status 3; MAVLink version 3.
pub open spec fn heartbeat_body(sequence: u8, system_id: u8, component_id: u8) -> Seq<u8> {
    seq![
        0xFDu8,
        9,
        0,
        0,
        sequence,
        system_id,
        component_id,
        0,
        0,
        0,
        5,
        0,
        0,
        0,
        2,
        3,
        89,
        3,
        3,
    ]
}

/// The frame of the synthetic heartbeat with the given sequence number,
/// system id and component id: its body, and the checksum of the body
/// behind the start byte, low byte first.
pub open spec fn heartbeat_frame(sequence: u8, system_id: u8, component_id: u8) -> Seq<u8> {
    let body = heartbeat_body(sequence, system_id, component_id);
    let crc = crc16(body.subrange(1, body.len() as int), crc_extra(HEARTBEAT_MESSAGE_ID));
    body + seq![(crc % 256) as u8, (crc / 256) as u8]
}

/// The synthetic heartbeat is one complete, valid frame, unsigned, and
/// carries the three values in its header.
pub proof fn lemma_heartbeat_is_frame(sequence: u8, system_id: u8, component_id: u8)
    ensures
        is_frame(heartbeat_frame(sequence, system_id, component_id)),
        heartbeat_frame(sequence, system_id, component_id).len() == 21,
        heartbeat_frame(sequence, system_id, component_id)[4] == sequence,
        heartbeat_frame(sequence, system_id, component_id)[5] == system_id,
        heartbeat_frame(sequence, system_id, component_id)[6] == component_id,
        message_id_of(
            heartbeat_frame(sequence, system_id, component_id)[7],
            heartbeat_frame(sequence, system_id, component_id)[8],
            heartbeat_frame(sequence, system_id, component_id)[9],
        ) == HEARTBEAT_MESSAGE_ID,
{
    let body = heartbeat_body(sequence, system_id, component_id);
    let frame = heartbeat_frame(sequence, system_id, component_id);
    let crc = crc16(body.subrange(1, 19), crc_extra(HEARTBEAT_MESSAGE_ID));
    assert(body.len() == 19);
    assert(frame.len() == 21);
    assert(frame[0] == 0xFD && frame[1] == 9 && frame[2] == 0);
    assert(frame[7] == 0 && frame[8] == 0 && frame[9] == 0);
    assert(frame.subrange(1, 19) =~= body.subrange(1, 19));
    assert(frame[19] == (crc % 256) as u8 && frame[20] == (crc / 256) as u8);
    assert(checksum_of(frame[19], frame[20]) == crc);
}

/// Calls `mavlink::write_v2_msg` on an empty vector, with a header of the
/// three given values and the HEARTBEAT message of a quadrotor with an
/// ArduPilotMega autopilot in standby (custom mode 5, MAVLink version 3).
///
/// Assumed, as `write_v2_msg`, `MAVLinkV2MessageRaw::serialize_message`
/// and the definition of HEARTBEAT in the dialect show: the bytes written
/// are the start byte, the header and the payload spelt out in
/// [`heartbeat_body`], and then the checksum that `mavlink::calculate_crc`
/// gives for them with the seed of message id 0.
#[verifier::external_body]
fn encode_heartbeat(sequence: u8, system_id: u8, component_id: u8) -> (frame: Vec<u8>)
    ensures
        frame@ == heartbeat_frame(sequence, system_id, component_id),
{
    let header = mavlink::MavHeader { sequence, system_id, component_id };
    let base_mode = MavModeFlag::MAV_MODE_FLAG_MANUAL_INPUT_ENABLED
        | MavModeFlag::MAV_MODE_FLAG_STABILIZE_ENABLED | MavModeFlag::MAV_MODE_FLAG_GUIDED_ENABLED
        | MavModeFlag::MAV_MODE_FLAG_CUSTOM_MODE_ENABLED;
    let data = MavMessage::HEARTBEAT(HEARTBEAT_DATA {
        custom_mode: 5,
        mavtype: MavType::MAV_TYPE_QUADROTOR,
        autopilot: MavAutopilot::MAV_AUTOPILOT_ARDUPILOTMEGA,
        base_mode,
        system_status: MavState::MAV_STATE_STANDBY,
        mavlink_version: 3,
    });
    let mut frame = Vec::with_capacity(280);
    mavlink::write_v2_msg(&mut frame, header, &data).expect("write to a vector");
    frame
}

/// A driver that sends nothing and counts every message of the bus.
#[derive(Debug)]
pub struct FakeSink {
    /// The name that the driver was given.
    pub name: String,
    /// The identity derived from the name.
    pub uuid: DriverUuid,
    /// Whether the messages received are to be printed.
    pub print: bool,
    /// What the driver counted.
    pub stats: DriverStats,
}

/// Builds a [`FakeSink`].
#[derive(Debug)]
pub struct FakeSinkBuilder(pub FakeSink);

impl FakeSink {
    /// Starts building a sink called `name`, which does not print.
    pub fn builder(name: &str) -> (builder: FakeSinkBuilder)
        ensures
            builder.0.name@ == name@,
            builder.0.uuid.value == uuid_of_name(name@),
            !builder.0.print,
            builder.0.stats.name@ == name@,
            builder.0.stats.driver_type == "FakeSink",
            builder.0.stats.stats.input is None,
            builder.0.stats.stats.output is None,
    {
        FakeSinkBuilder(
            FakeSink {
                name: name.to_owned(),
                uuid: DriverUuid::from_name(name),
                print: false,
                stats: DriverStats::new(name, "FakeSink"),
            },
        )
    }

    /// Takes a message from the bus: counts it as input, and says whether
    /// it is to be printed.
    pub fn receive(&mut self, message: &Protocol) -> (print: bool)
        ensures
            print == old(self).print,
            side_view(final(self).stats.stats.input) == side_after(
                old(self).stats.stats.input,
                *message,
            ),
            final(self).stats.stats.output == old(self).stats.stats.output,
            final(self).stats.name == old(self).stats.name,
            final(self).stats.driver_type == old(self).stats.driver_type,
            final(self).name == old(self).name,
            final(self).uuid == old(self).uuid,
            final(self).print == old(self).print,
    {
        self.stats.stats.update_input(message);
        self.print
    }
}

impl FakeSinkBuilder {
    /// The sink as built so far.
    pub fn build(self) -> (sink: FakeSink)
        ensures
            sink == self.0,
    {
        self.0
    }

    /// Makes the sink print what it receives.
    pub fn print(self) -> (builder: FakeSinkBuilder)
        ensures
            builder.0.print,
            builder.0.name == self.0.name,
            builder.0.uuid == self.0.uuid,
            builder.0.stats == self.0.stats,
    {
        let mut sink = self.0;
        sink.print = true;
        FakeSinkBuilder(sink)
    }
}

/// Period of a source for which the URL gives none, in microseconds.
pub const DEFAULT_PERIOD_MICROS: u64 = 1_000_000;

/// The period in microseconds that `query` asks for: its option `period`
/// is in milliseconds. The default where the option is missing or is no
/// number, the longest period where the number is too large.
pub open spec fn period_micros_of(query: Seq<(String, String)>) -> u64 {
    match option_of(query, "period"@) {
        Some(text) => match numeral_u64(text) {
            Some(millis) => if millis * 1000 > u64::MAX {
                u64::MAX
            } else {
                (millis * 1000) as u64
            },
            None => DEFAULT_PERIOD_MICROS,
        },
        None => DEFAULT_PERIOD_MICROS,
    }
}

/// The period in microseconds that `query` asks for.
pub fn period_from_query(query: &Vec<(String, String)>) -> (period: u64)
    ensures
        period == period_micros_of(query@),
{
    let key = String::from_str("period");
    match query_option(query, &key) {
        Some(text) => match parse_u64(text.as_str()) {
            Some(millis) => if millis > u64::MAX / 1000 {
                u64::MAX
            } else {
                millis * 1000
            },
            None => DEFAULT_PERIOD_MICROS,
        },
        None => DEFAULT_PERIOD_MICROS,
    }
}

/// A driver that receives nothing and emits one heartbeat per period, with
/// sequence numbers that count up and wrap around after 255.
#[derive(Debug)]
pub struct FakeSource {
    /// The name that the driver was given.
    pub name: String,
    /// The identity derived from the name.
    pub uuid: DriverUuid,
    /// Time between two heartbeats, in microseconds.
    pub period_micros: u64,
    /// Sequence number of the next heartbeat.
    pub sequence: u8,
    /// What the driver counted.
    pub stats: DriverStats,
}

/// Builds a [`FakeSource`].
#[derive(Debug)]
pub struct FakeSourceBuilder(pub FakeSource);

/// The origin of the messages that a [`FakeSource`] emits.
pub open spec fn fake_source_origin() -> Seq<char> {
    "FakeSource"@
}

impl FakeSource {
    /// Starts building a source called `name` that emits every
    /// `period_micros` microseconds, starting at sequence number 0.
    pub fn builder(name: &str, period_micros: u64) -> (builder: FakeSourceBuilder)
        ensures
            builder.0.name@ == name@,
            builder.0.uuid.value == uuid_of_name(name@),
            builder.0.period_micros == period_micros,
            builder.0.sequence == 0,
            builder.0.stats.name@ == name@,
            builder.0.stats.driver_type == "FakeSource",
            builder.0.stats.stats.input is None,
            builder.0.stats.stats.output is None,
    {
        FakeSourceBuilder(
            FakeSource {
                name: name.to_owned(),
                uuid: DriverUuid::from_name(name),
                period_micros,
                sequence: 0,
                stats: DriverStats::new(name, "FakeSource"),
            },
        )
    }

    /// Emits the next heartbeat: encodes it, frames it like bytes from a
    /// peer, counts it as output, and moves on to the next sequence number.
    /// The message returned is the one to publish on the bus.
    pub fn emit(&mut self) -> (message: Protocol)
        ensures
            message.packet@ == heartbeat_frame(
                old(self).sequence,
                FAKE_SYSTEM_ID,
                FAKE_COMPONENT_ID,
            ),
            is_frame(message.packet@),
            message.origin@ == fake_source_origin(),
            final(self).sequence == old(self).sequence.wrapping_add(1),
            side_view(final(self).stats.stats.output) == side_after(
                old(self).stats.stats.output,
                message,
            ),
            final(self).stats.stats.input == old(self).stats.stats.input,
            final(self).stats.name == old(self).stats.name,
            final(self).stats.driver_type == old(self).stats.driver_type,
            final(self).name == old(self).name,
            final(self).uuid == old(self).uuid,
            final(self).period_micros == old(self).period_micros,
    {
        let mut buf = encode_heartbeat(self.sequence, FAKE_SYSTEM_ID, FAKE_COMPONENT_ID);
        proof {
            lemma_heartbeat_is_frame(self.sequence, FAKE_SYSTEM_ID, FAKE_COMPONENT_ID);
        }
        self.sequence = self.sequence.wrapping_add(1);
        proof {
            let frame = buf@;
            lemma_framer_closure(seq![frame], Seq::empty());
            reveal_with_fuel(crate::frame::concat, 2);
            assert(seq![frame].subrange(1, 1) =~= Seq::<Seq<u8>>::empty());
            assert(crate::frame::concat(seq![frame]) + Seq::<u8>::empty() =~= frame);
            assert(is_partial(Seq::<u8>::empty()));
            assert(frames_of(frame) =~= seq![frame]);
        }
        let mut messages = read_all_messages("FakeSource", &mut buf);
        let message = messages.pop().unwrap();
        self.stats.stats.update_output(&message);
        message
    }
}

impl FakeSourceBuilder {
    /// The source as built so far.
    pub fn build(self) -> (source: FakeSource)
        ensures
            source == self.0,
    {
        self.0
    }
}

/// The description of the fake sink.
#[derive(Clone, Copy, Debug, PartialEq, Eq)]
pub struct FakeSinkInfo;

impl DriverInfo for FakeSinkInfo {
    fn name(&self) -> (name: &'static str)
        ensures
            name@ == "FakeSink"@,
    {
        "FakeSink"
    }

    fn valid_schemes(&self) -> (schemes: Vec<&'static str>)
        ensures
            schemes@.len() == 3,
            schemes@[0]@ == "fakeclient"@,
            schemes@[1]@ == "fakesink"@,
            schemes@[2]@ == "fakec"@,
    {
        let mut schemes: Vec<&'static str> = Vec::new();
        schemes.push("fakeclient");
        schemes.push("fakesink");
        schemes.push("fakec");
        schemes
    }

    fn cli_example_legacy(&self) -> (examples: Vec<String>)
        ensures
            forall|i: int|
                0 <= i < 2 ==> (#[trigger] examples@[i])@ == legacy_examples_of(
                    "fakeclient"@,
                    "<MODE>"@,
                    "debug"@,
                )[i],
    {
        legacy_examples("fakeclient", "<MODE>", "debug")
    }

    fn cli_example_url(&self) -> (examples: Vec<String>)
        ensures
            examples@.len() == url_examples_of("fakeclient"@, "<MODE>"@, "debug"@).len(),
            forall|i: int|
                0 <= i < examples@.len() ==> (#[trigger] examples@[i])@ == url_examples_of(
                    "fakeclient"@,
                    "<MODE>"@,
                    "debug"@,
                )[i],
    {
        url_examples("fakeclient", "<MODE>", "debug")
    }

    /// A sink called `Unnamed` that prints what it receives, whatever `url` says.
    fn create_endpoint_from_url(&self, url: &EndpointUrl) -> (driver: Option<Driver>)
        ensures
            driver matches Some(Driver::FakeSink(sink)) && sink.name@ == "Unnamed"@ && sink.print
                && sink.stats.stats.input is None && sink.stats.stats.output is None,
    {
        Some(Driver::FakeSink(FakeSink::builder("Unnamed").print().build()))
    }
}

/// The description of the fake source.
#[derive(Clone, Copy, Debug, PartialEq, Eq)]
pub struct FakeSourceInfo;

impl DriverInfo for FakeSourceInfo {
    fn name(&self) -> (name: &'static str)
        ensures
            name@ == "FakeSource"@,
    {
        "FakeSource"
    }

    fn valid_schemes(&self) -> (schemes: Vec<&'static str>)
        ensures
            schemes@.len() == 3,
            schemes@[0]@ == "fakesource"@,
            schemes@[1]@ == "fakesrc"@,
            schemes@[2]@ == "fakes"@,
    {
        let mut schemes: Vec<&'static str> = Vec::new();
        schemes.push("fakesource");
        schemes.push("fakesrc");
        schemes.push("fakes");
        schemes
    }

    fn cli_example_legacy(&self) -> (examples: Vec<String>)
        ensures
            forall|i: int|
                0 <= i < 2 ==> (#[trigger] examples@[i])@ == legacy_examples_of(
                    "fakesource"@,
                    "<MODE>"@,
                    "heartbeat"@,
                )[i],
    {
        legacy_examples("fakesource", "<MODE>", "heartbeat")
    }

    fn cli_example_url(&self) -> (examples: Vec<String>)
        ensures
            examples@.len() == url_examples_of("fakesource"@, "<MODE>?period=<MILLISECONDS?>"@, "heartbeat?period=10"@).len(),
            forall|i: int|
                0 <= i < examples@.len() ==> (#[trigger] examples@[i])@ == url_examples_of(
                    "fakesource"@,
                    "<MODE>?period=<MILLISECONDS?>"@,
                    "heartbeat?period=10"@,
                )[i],
    {
        url_examples("fakesource", "<MODE>?period=<MILLISECONDS?>", "heartbeat?period=10")
    }

    /// A source called `Unnamed`, with the period that `url` gives.
    fn create_endpoint_from_url(&self, url: &EndpointUrl) -> (driver: Option<Driver>)
        ensures
            driver matches Some(Driver::FakeSource(source)) && source.name@ == "Unnamed"@
                && source.sequence == 0 && source.period_micros == period_micros_of(url.query@)
                && source.stats.stats.input is None && source.stats.stats.output is None,
    {
        let period = period_from_query(&url.query);
        Some(Driver::FakeSource(FakeSource::builder("Unnamed", period).build()))
    }
}

} // verus!
