//! The bridge to the REST and WebSocket interface.
//!
//! The bridge has no transport of its own. Its send task takes the messages
//! of the bus and hands them on to the HTTP side; what HTTP clients inject
//! is published by the HTTP side itself.

pub mod parameters;

use crate::protocol::Protocol;
use crate::stats::driver::{side_after, side_view, uuid_of_name, DriverStats, DriverUuid};
use crate::drivers::driver::Driver;
use crate::drivers::info::{
    legacy_examples, legacy_examples_of, url_examples, url_examples_of, DriverInfo, EndpointUrl,
};
use vstd::prelude::*;

verus! {

/// The driver that stands for the REST and WebSocket interface.
#[derive(Debug)]
pub struct Rest {
    /// The identity derived from the name `Rest`.
    pub uuid: DriverUuid,
    /// What the driver counted.
    pub stats: DriverStats,
}

/// Builds a [`Rest`].
#[derive(Debug)]
pub struct RestBuilder(pub Rest);

impl RestBuilder {
    /// The bridge as built so far.
    pub fn build(self) -> (rest: Rest)
        ensures
            rest == self.0,
    {
        self.0
    }
}

impl Rest {
    /// Starts building a bridge, which has counted nothing.
    pub fn builder() -> (builder: RestBuilder)
        ensures
            builder.0.uuid.value == uuid_of_name("Rest"@),
            builder.0.stats.name@ == "Rest"@,
            builder.0.stats.driver_type == "Rest",
            builder.0.stats.stats.input is None,
            builder.0.stats.stats.output is None,
    {
        RestBuilder(
            Rest { uuid: DriverUuid::from_name("Rest"), stats: DriverStats::new("Rest", "Rest") },
        )
    }

    /// Takes a message from the bus on its way to the HTTP side, and
    /// counts it as output.
    pub fn on_message(&mut self, message: &Protocol)
        ensures
            side_view(final(self).stats.stats.output) == side_after(
                old(self).stats.stats.output,
                *message,
            ),
            final(self).stats.stats.input == old(self).stats.stats.input,
            final(self).stats.name == old(self).stats.name,
            final(self).stats.driver_type == old(self).stats.driver_type,
            final(self).uuid == old(self).uuid,
    {
        self.stats.stats.update_output(message);
    }
}

/// The description of the REST bridge.
#[derive(Clone, Copy, Debug, PartialEq, Eq)]
pub struct RestInfo;

impl DriverInfo for RestInfo {
    fn name(&self) -> (name: &'static str)
        ensures
            name@ == "Rest"@,
    {
        "Rest"
    }

    fn valid_schemes(&self) -> (schemes: Vec<&'static str>)
        ensures
            schemes@.len() == 1,
            schemes@[0]@ == "rest"@,
    {
        let mut schemes: Vec<&'static str> = Vec::new();
        schemes.push("rest");
        schemes
    }

    fn cli_example_legacy(&self) -> (examples: Vec<String>)
        ensures
            forall|i: int|
                0 <= i < 2 ==> (#[trigger] examples@[i])@ == legacy_examples_of(
                    "rest"@,
                    "<IP>:<PORT>"@,
                    "0.0.0.0:8000"@,
                )[i],
    {
        legacy_examples("rest", "<IP>:<PORT>", "0.0.0.0:8000")
    }

    fn cli_example_url(&self) -> (examples: Vec<String>)
        ensures
            examples@.len() == url_examples_of("rest"@, "<IP>:<PORT>"@, "0.0.0.0:8000"@).len(),
            forall|i: int|
                0 <= i < examples@.len() ==> (#[trigger] examples@[i])@ == url_examples_of(
                    "rest"@,
                    "<IP>:<PORT>"@,
                    "0.0.0.0:8000"@,
                )[i],
    {
        url_examples("rest", "<IP>:<PORT>", "0.0.0.0:8000")
    }

    /// A bridge, where `url` names the host and the port to listen on.
    fn create_endpoint_from_url(&self, url: &EndpointUrl) -> (driver: Option<Driver>)
        ensures
            driver is Some <==> url.host is Some && url.port is Some,
            driver matches Some(d) ==> d matches Driver::Rest(rest) && rest.stats.stats.input
                is None && rest.stats.stats.output is None,
    {
        if url.host.is_some() && url.port.is_some() {
            Some(Driver::Rest(Rest::builder().build()))
        } else {
            None
        }
    }
}

} // verus!
