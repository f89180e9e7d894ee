//! The UDP client: one socket connected to one remote address.

use crate::drivers::{
    came_from, delivery_to, receive, record_write, step_after_write, Delivery, TaskStep,
    WriteOutcome,
};
use crate::frame::{consumed_of, frames_of};
use crate::protocol::Protocol;
use crate::stats::driver::{
    counted_all, side_after, side_view, uuid_of_name, DriverStats, DriverUuid,
};
use crate::drivers::driver::Driver;
use crate::drivers::info::{
    address_from_url, address_of, legacy_examples, legacy_examples_of, url_examples,
    url_examples_of, DriverInfo, EndpointUrl,
};
use vstd::prelude::*;

verus! {

/// A driver that sends to and receives from one remote address.
#[derive(Debug)]
pub struct UdpClient {
    /// The address of the peer.
    pub remote_addr: String,
    /// The identity derived from the remote address.
    pub uuid: DriverUuid,
    /// What the driver counted.
    pub stats: DriverStats,
}

impl UdpClient {
    /// A client for the peer at `remote_addr`. The address is its name.
    pub fn new(remote_addr: &str) -> (client: UdpClient)
        ensures
            client.remote_addr@ == remote_addr@,
            client.uuid.value == uuid_of_name(remote_addr@),
            client.stats.name@ == remote_addr@,
            client.stats.driver_type == "UdpClient",
            client.stats.stats.input is None,
            client.stats.stats.output is None,
    {
        UdpClient {
            remote_addr: remote_addr.to_owned(),
            uuid: DriverUuid::from_name(remote_addr),
            stats: DriverStats::new(remote_addr, "UdpClient"),
        }
    }

    /// Takes what was received from `client_addr` and appended to `buf`:
    /// cuts the complete frames out and counts them as input. An
    /// incomplete frame stays in `buf` for the next datagram.
    pub fn on_datagram(&mut self, buf: &mut Vec<u8>, client_addr: &str) -> (messages: Vec<Protocol>)
        ensures
            messages@.len() == frames_of(old(buf)@).len(),
            forall|i: int|
                0 <= i < messages@.len() ==> (#[trigger] messages@[i]).packet@ == frames_of(
                    old(buf)@,
                )[i],
            forall|i: int|
                0 <= i < messages@.len() ==> (#[trigger] messages@[i]).origin@ == client_addr@,
            consumed_of(old(buf)@) <= old(buf)@.len(),
            final(buf)@ == old(buf)@.subrange(
                consumed_of(old(buf)@) as int,
                old(buf)@.len() as int,
            ),
            side_view(final(self).stats.stats.input) == counted_all(
                side_view(old(self).stats.stats.input),
                messages@,
            ),
            final(self).stats.stats.output == old(self).stats.stats.output,
            final(self).stats.name == old(self).stats.name,
            final(self).stats.driver_type == old(self).stats.driver_type,
            final(self).remote_addr == old(self).remote_addr,
            final(self).uuid == old(self).uuid,
    {
        receive(&mut self.stats.stats, client_addr, buf)
    }

    /// Whether `message` from the bus is written to the peer, whose
    /// address the socket gives as `peer_addr`: not if it came from there.
    pub fn delivery(&self, message: &Protocol, peer_addr: &String) -> (delivery: Delivery)
        ensures
            delivery == if came_from(*message, peer_addr@) {
                Delivery::Skip
            } else {
                Delivery::Send
            },
    {
        delivery_to(message, peer_addr)
    }

    /// Notes how the write of `message` ended: a write that succeeded is
    /// counted as output; the send task ends on a failure other than a
    /// refused datagram.
    pub fn on_written(&mut self, message: &Protocol, outcome: WriteOutcome) -> (step: TaskStep)
        ensures
            step == step_after_write(outcome),
            final(self).stats.stats.input == old(self).stats.stats.input,
            outcome == WriteOutcome::Written ==> side_view(final(self).stats.stats.output)
                == side_after(old(self).stats.stats.output, *message),
            outcome != WriteOutcome::Written ==> final(self).stats.stats.output == old(
                self,
            ).stats.stats.output,
            final(self).stats.name == old(self).stats.name,
            final(self).stats.driver_type == old(self).stats.driver_type,
            final(self).remote_addr == old(self).remote_addr,
            final(self).uuid == old(self).uuid,
    {
        record_write(&mut self.stats.stats, message, outcome)
    }
}

/// The description of the UDP client.
#[derive(Clone, Copy, Debug, PartialEq, Eq)]
pub struct UdpClientInfo;

impl DriverInfo for UdpClientInfo {
    fn name(&self) -> (name: &'static str)
        ensures
            name@ == "UdpClient"@,
    {
        "UdpClient"
    }

    fn valid_schemes(&self) -> (schemes: Vec<&'static str>)
        ensures
            schemes@.len() == 3,
            schemes@[0]@ == "udpc"@,
            schemes@[1]@ == "udpclient"@,
            schemes@[2]@ == "udpout"@,
    {
        let mut schemes: Vec<&'static str> = Vec::new();
        schemes.push("udpc");
        schemes.push("udpclient");
        schemes.push("udpout");
        schemes
    }

    fn cli_example_legacy(&self) -> (examples: Vec<String>)
        ensures
            forall|i: int|
                0 <= i < 2 ==> (#[trigger] examples@[i])@ == legacy_examples_of(
                    "udpc"@,
                    "<IP>:<PORT>"@,
                    "127.0.0.1:14550"@,
                )[i],
    {
        legacy_examples("udpc", "<IP>:<PORT>", "127.0.0.1:14550")
    }

    fn cli_example_url(&self) -> (examples: Vec<String>)
        ensures
            examples@.len() == url_examples_of("udpc"@, "<IP>:<PORT>"@, "127.0.0.1:14550"@).len(),
            forall|i: int|
                0 <= i < examples@.len() ==> (#[trigger] examples@[i])@ == url_examples_of(
                    "udpc"@,
                    "<IP>:<PORT>"@,
                    "127.0.0.1:14550"@,
                )[i],
    {
        url_examples("udpc", "<IP>:<PORT>", "127.0.0.1:14550")
    }

    /// A client for the host and the port that `url` names; none where either is missing.
    fn create_endpoint_from_url(&self, url: &EndpointUrl) -> (driver: Option<Driver>)
        ensures
            driver is Some <==> url.host is Some && url.port is Some,
            driver matches Some(d) ==> d matches Driver::UdpClient(client)
                && client.remote_addr@ == address_of(url.host->0@, url.port->0)
                && client.stats.stats.input is None && client.stats.stats.output is None,
    {
        match address_from_url(url) {
            Some(address) => Some(Driver::UdpClient(UdpClient::new(address.as_str()))),
            None => None,
        }
    }
}

} // verus!
