//! The TCP client: one connection to one server.

use crate::drivers::{
    came_from, delivery_to, receive, record_write, step_after_write, Delivery, TaskStep,
    WriteOutcome,
};
use crate::frame::{consumed_of, frames_of};
use crate::protocol::Protocol;
use crate::stats::driver::{
    counted_all, side_after, side_view, uuid_of_name, DriverStats, DriverUuid,
};
use crate::drivers::driver::Driver;
use crate::drivers::info::{
    address_from_url, address_of, legacy_examples, legacy_examples_of, url_examples,
    url_examples_of, DriverInfo, EndpointUrl,
};
use vstd::prelude::*;

verus! {

/// A driver that connects to a server and exchanges frames with it over a
/// byte stream.
#[derive(Debug)]
pub struct TcpClient {
    /// The address of the server.
    pub remote_addr: String,
    /// The identity derived from the remote address.
    pub uuid: DriverUuid,
    /// What the driver counted.
    pub stats: DriverStats,
}

/// Builds a [`TcpClient`].
#[derive(Debug)]
pub struct TcpClientBuilder(pub TcpClient);

impl TcpClientBuilder {
    /// The client as built so far.
    pub fn build(self) -> (client: TcpClient)
        ensures
            client == self.0,
    {
        self.0
    }
}

impl TcpClient {
    /// Starts building a client for the server at `remote_addr`. The
    /// address is its name.
    pub fn builder(remote_addr: &str) -> (builder: TcpClientBuilder)
        ensures
            builder.0.remote_addr@ == remote_addr@,
            builder.0.uuid.value == uuid_of_name(remote_addr@),
            builder.0.stats.name@ == remote_addr@,
            builder.0.stats.driver_type == "TcpClient",
            builder.0.stats.stats.input is None,
            builder.0.stats.stats.output is None,
    {
        TcpClientBuilder(
            TcpClient {
                remote_addr: remote_addr.to_owned(),
                uuid: DriverUuid::from_name(remote_addr),
                stats: DriverStats::new(remote_addr, "TcpClient"),
            },
        )
    }

    /// Takes what was read from the stream and appended to `buf`: cuts the
    /// complete frames out and counts them as input. They come from the
    /// server. A frame of which the end has not arrived stays in `buf`.
    pub fn on_bytes(&mut self, buf: &mut Vec<u8>) -> (messages: Vec<Protocol>)
        ensures
            messages@.len() == frames_of(old(buf)@).len(),
            forall|i: int|
                0 <= i < messages@.len() ==> (#[trigger] messages@[i]).packet@ == frames_of(
                    old(buf)@,
                )[i],
            forall|i: int|
                0 <= i < messages@.len() ==> (#[trigger] messages@[i]).origin@ == old(
                    self,
                ).remote_addr@,
            consumed_of(old(buf)@) <= old(buf)@.len(),
            final(buf)@ == old(buf)@.subrange(
                consumed_of(old(buf)@) as int,
                old(buf)@.len() as int,
            ),
            side_view(final(self).stats.stats.input) == counted_all(
                side_view(old(self).stats.stats.input),
                messages@,
            ),
            final(self).stats.stats.output == old(self).stats.stats.output,
            final(self).stats.name == old(self).stats.name,
            final(self).stats.driver_type == old(self).stats.driver_type,
            final(self).remote_addr == old(self).remote_addr,
            final(self).uuid == old(self).uuid,
    {
        receive(&mut self.stats.stats, self.remote_addr.as_str(), buf)
    }

    /// Whether `message` from the bus is written to the server: not if it
    /// came from there.
    pub fn delivery(&self, message: &Protocol) -> (delivery: Delivery)
        ensures
            delivery == if came_from(*message, self.remote_addr@) {
                Delivery::Skip
            } else {
                Delivery::Send
            },
    {
        delivery_to(message, &self.remote_addr)
    }

    /// Notes how the write of `message` ended: a write that succeeded is
    /// counted as output; the send task ends on a failure other than a
    /// refused connection.
    pub fn on_written(&mut self, message: &Protocol, outcome: WriteOutcome) -> (step: TaskStep)
        ensures
            step == step_after_write(outcome),
            final(self).stats.stats.input == old(self).stats.stats.input,
            outcome == WriteOutcome::Written ==> side_view(final(self).stats.stats.output)
                == side_after(old(self).stats.stats.output, *message),
            outcome != WriteOutcome::Written ==> final(self).stats.stats.output == old(
                self,
            ).stats.stats.output,
            final(self).stats.name == old(self).stats.name,
            final(self).stats.driver_type == old(self).stats.driver_type,
            final(self).remote_addr == old(self).remote_addr,
            final(self).uuid == old(self).uuid,
    {
        record_write(&mut self.stats.stats, message, outcome)
    }
}

/// The description of the TCP client.
#[derive(Clone, Copy, Debug, PartialEq, Eq)]
pub struct TcpClientInfo;

impl DriverInfo for TcpClientInfo {
    fn name(&self) -> (name: &'static str)
        ensures
            name@ == "TcpClient"@,
    {
        "TcpClient"
    }

    fn valid_schemes(&self) -> (schemes: Vec<&'static str>)
        ensures
            schemes@.len() == 2,
            schemes@[0]@ == "tcpc"@,
            schemes@[1]@ == "tcpclient"@,
    {
        let mut schemes: Vec<&'static str> = Vec::new();
        schemes.push("tcpc");
        schemes.push("tcpclient");
        schemes
    }

    fn cli_example_legacy(&self) -> (examples: Vec<String>)
        ensures
            forall|i: int|
                0 <= i < 2 ==> (#[trigger] examples@[i])@ == legacy_examples_of(
                    "tcpc"@,
                    "<IP>:<PORT>"@,
                    "127.0.0.1:5760"@,
                )[i],
    {
        legacy_examples("tcpc", "<IP>:<PORT>", "127.0.0.1:5760")
    }

    fn cli_example_url(&self) -> (examples: Vec<String>)
        ensures
            examples@.len() == url_examples_of("tcpc"@, "<IP>:<PORT>"@, "127.0.0.1:5760"@).len(),
            forall|i: int|
                0 <= i < examples@.len() ==> (#[trigger] examples@[i])@ == url_examples_of(
                    "tcpc"@,
                    "<IP>:<PORT>"@,
                    "127.0.0.1:5760"@,
                )[i],
    {
        url_examples("tcpc", "<IP>:<PORT>", "127.0.0.1:5760")
    }

    /// A client for the host and the port that `url` names; none where either is missing.
    fn create_endpoint_from_url(&self, url: &EndpointUrl) -> (driver: Option<Driver>)
        ensures
            driver is Some <==> url.host is Some && url.port is Some,
            driver matches Some(d) ==> d matches Driver::TcpClient(client)
                && client.remote_addr@ == address_of(url.host->0@, url.port->0)
                && client.stats.stats.input is None && client.stats.stats.output is None,
    {
        match address_from_url(url) {
            Some(address) => Some(Driver::TcpClient(TcpClient::builder(address.as_str()).build())),
            None => None,
        }
    }
}

} // verus!
