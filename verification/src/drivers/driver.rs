//! The drivers that a hub can hold, as one type.

use super::fake::{period_micros_of, FakeSink, FakeSinkInfo, FakeSource, FakeSourceInfo};
use super::info::{address_of, DriverInfo, EndpointUrl};
use super::rest::{Rest, RestInfo};
use super::tcp::client::{TcpClient, TcpClientInfo};
use super::udp::client::{UdpClient, UdpClientInfo};
use super::udp::server::{UdpServer, UdpServerInfo};
use crate::stats::driver::{side_view, DriverStats, DriverStatsInner, DriverUuid};
use crate::stats::Counters;
use vstd::prelude::*;
use vstd::string::StringExecFns;

verus! {

/// The kinds of driver.
#[derive(Clone, Copy, Debug, PartialEq, Eq, Structural)]
pub enum DriverKind {
    UdpClient,
    UdpServer,
    TcpClient,
    FakeSink,
    FakeSource,
    Rest,
}

/// A driver of any kind.
#[derive(Debug)]
pub enum Driver {
    UdpClient(UdpClient),
    UdpServer(UdpServer),
    TcpClient(TcpClient),
    FakeSink(FakeSink),
    FakeSource(FakeSource),
    Rest(Rest),
}

impl Driver {
    /// The kind of the driver.
    pub open spec fn spec_kind(self) -> DriverKind {
        match self {
            Driver::UdpClient(_) => DriverKind::UdpClient,
            Driver::UdpServer(_) => DriverKind::UdpServer,
            Driver::TcpClient(_) => DriverKind::TcpClient,
            Driver::FakeSink(_) => DriverKind::FakeSink,
            Driver::FakeSource(_) => DriverKind::FakeSource,
            Driver::Rest(_) => DriverKind::Rest,
        }
    }

    /// The statistics that the driver holds.
    pub open spec fn spec_stats(self) -> DriverStats {
        match self {
            Driver::UdpClient(d) => d.stats,
            Driver::UdpServer(d) => d.stats,
            Driver::TcpClient(d) => d.stats,
            Driver::FakeSink(d) => d.stats,
            Driver::FakeSource(d) => d.stats,
            Driver::Rest(d) => d.stats,
        }
    }

    /// The identity of the driver.
    pub open spec fn spec_uuid(self) -> DriverUuid {
        match self {
            Driver::UdpClient(d) => d.uuid,
            Driver::UdpServer(d) => d.uuid,
            Driver::TcpClient(d) => d.uuid,
            Driver::FakeSink(d) => d.uuid,
            Driver::FakeSource(d) => d.uuid,
            Driver::Rest(d) => d.uuid,
        }
    }

    /// The driver as it is after a reset of its statistics: both directions
    /// unset, and everything else as it was.
    pub open spec fn spec_reset(self) -> Driver {
        let unset = DriverStatsInner { input: None, output: None };
        match self {
            Driver::UdpClient(d) => Driver::UdpClient(
                UdpClient { stats: DriverStats { stats: unset, ..d.stats }, ..d },
            ),
            Driver::UdpServer(d) => Driver::UdpServer(
                UdpServer { stats: DriverStats { stats: unset, ..d.stats }, ..d },
            ),
            Driver::TcpClient(d) => Driver::TcpClient(
                TcpClient { stats: DriverStats { stats: unset, ..d.stats }, ..d },
            ),
            Driver::FakeSink(d) => Driver::FakeSink(
                FakeSink { stats: DriverStats { stats: unset, ..d.stats }, ..d },
            ),
            Driver::FakeSource(d) => Driver::FakeSource(
                FakeSource { stats: DriverStats { stats: unset, ..d.stats }, ..d },
            ),
            Driver::Rest(d) => Driver::Rest(
                Rest { stats: DriverStats { stats: unset, ..d.stats }, ..d },
            ),
        }
    }

    /// The kind of the driver.
    pub fn kind(&self) -> (kind: DriverKind)
        ensures
            kind == self.spec_kind(),
    {
        match self {
            Driver::UdpClient(_) => DriverKind::UdpClient,
            Driver::UdpServer(_) => DriverKind::UdpServer,
            Driver::TcpClient(_) => DriverKind::TcpClient,
            Driver::FakeSink(_) => DriverKind::FakeSink,
            Driver::FakeSource(_) => DriverKind::FakeSource,
            Driver::Rest(_) => DriverKind::Rest,
        }
    }

    /// The name that the driver was given.
    pub fn name(&self) -> (name: String)
        ensures
            name@ == self.spec_stats().name@,
    {
        match self {
            Driver::UdpClient(d) => d.stats.name.clone(),
            Driver::UdpServer(d) => d.stats.name.clone(),
            Driver::TcpClient(d) => d.stats.name.clone(),
            Driver::FakeSink(d) => d.stats.name.clone(),
            Driver::FakeSource(d) => d.stats.name.clone(),
            Driver::Rest(d) => d.stats.name.clone(),
        }
    }

    /// The identity of the driver.
    pub fn uuid(&self) -> (uuid: DriverUuid)
        ensures
            uuid == self.spec_uuid(),
    {
        match self {
            Driver::UdpClient(d) => d.uuid,
            Driver::UdpServer(d) => d.uuid,
            Driver::TcpClient(d) => d.uuid,
            Driver::FakeSink(d) => d.uuid,
            Driver::FakeSource(d) => d.uuid,
            Driver::Rest(d) => d.uuid,
        }
    }

    /// What the driver counted.
    pub fn stats_ref(&self) -> (stats: &DriverStats)
        ensures
            *stats == self.spec_stats(),
    {
        match self {
            Driver::UdpClient(d) => &d.stats,
            Driver::UdpServer(d) => &d.stats,
            Driver::TcpClient(d) => &d.stats,
            Driver::FakeSink(d) => &d.stats,
            Driver::FakeSource(d) => &d.stats,
            Driver::Rest(d) => &d.stats,
        }
    }

    /// A copy of what the driver counted.
    pub fn stats(&self) -> (stats: DriverStats)
        ensures
            stats.name@ == self.spec_stats().name@,
            stats.driver_type == self.spec_stats().driver_type,
            stats.stats.input is Some <==> self.spec_stats().stats.input is Some,
            stats.stats.output is Some <==> self.spec_stats().stats.output is Some,
            side_view(stats.stats.input) == side_view(self.spec_stats().stats.input),
            side_view(stats.stats.output) == side_view(self.spec_stats().stats.output),
    {
        match self {
            Driver::UdpClient(d) => d.stats.clone(),
            Driver::UdpServer(d) => d.stats.clone(),
            Driver::TcpClient(d) => d.stats.clone(),
            Driver::FakeSink(d) => d.stats.clone(),
            Driver::FakeSource(d) => d.stats.clone(),
            Driver::Rest(d) => d.stats.clone(),
        }
    }

    /// The totals of what came in at the driver since its last reset.
    pub fn input_total(&self) -> (total: Counters)
        ensures
            total == side_view(self.spec_stats().stats.input).total,
    {
        match self {
            Driver::UdpClient(d) => d.stats.stats.input_total(),
            Driver::UdpServer(d) => d.stats.stats.input_total(),
            Driver::TcpClient(d) => d.stats.stats.input_total(),
            Driver::FakeSink(d) => d.stats.stats.input_total(),
            Driver::FakeSource(d) => d.stats.stats.input_total(),
            Driver::Rest(d) => d.stats.stats.input_total(),
        }
    }

    /// Forgets what the driver counted. Nothing else about it changes: not
    /// its addresses, its peers, its sequence number, its period, nor
    /// whether it prints.
    pub fn reset_stats(&mut self)
        ensures
            *final(self) == old(self).spec_reset(),
    {
        match self {
            Driver::UdpClient(d) => d.stats.stats.reset(),
            Driver::UdpServer(d) => d.stats.stats.reset(),
            Driver::TcpClient(d) => d.stats.stats.reset(),
            Driver::FakeSink(d) => d.stats.stats.reset(),
            Driver::FakeSource(d) => d.stats.stats.reset(),
            Driver::Rest(d) => d.stats.stats.reset(),
        }
    }
}

/// The kind of driver that the URL scheme `scheme` selects.
pub open spec fn kind_of_scheme(scheme: Seq<char>) -> Option<DriverKind> {
    if scheme == "udpc"@ || scheme == "udpclient"@ || scheme == "udpout"@ {
        Some(DriverKind::UdpClient)
    } else if scheme == "udps"@ || scheme == "udpserver"@ || scheme == "udpin"@ {
        Some(DriverKind::UdpServer)
    } else if scheme == "tcpc"@ || scheme == "tcpclient"@ {
        Some(DriverKind::TcpClient)
    } else if scheme == "rest"@ {
        Some(DriverKind::Rest)
    } else if scheme == "fakesource"@ || scheme == "fakesrc"@ || scheme == "fakes"@ {
        Some(DriverKind::FakeSource)
    } else if scheme == "fakeclient"@ || scheme == "fakesink"@ || scheme == "fakec"@ {
        Some(DriverKind::FakeSink)
    } else {
        None
    }
}

/// Whether `scheme` is one of `schemes`.
fn is_one_of(scheme: &String, schemes: &Vec<&'static str>) -> (found: bool)
    ensures
        found == exists|i: int| 0 <= i < schemes@.len() && (#[trigger] schemes@[i])@ == scheme@,
{
    let mut i: usize = 0;
    while i < schemes.len()
        invariant
            i <= schemes.len(),
            forall|k: int| 0 <= k < i ==> (#[trigger] schemes@[k])@ != scheme@,
        decreases schemes.len() - i,
    {
        if *scheme == String::from_str(schemes[i]) {
            return true;
        }
        i = i + 1;
    }
    false
}

impl DriverKind {
    /// The kind of driver that the URL scheme `scheme` selects, if any.
    pub fn from_scheme(scheme: &String) -> (kind: Option<DriverKind>)
        ensures
            kind == kind_of_scheme(scheme@),
    {
        if is_one_of(scheme, &UdpClientInfo.valid_schemes()) {
            Some(DriverKind::UdpClient)
        } else if is_one_of(scheme, &UdpServerInfo.valid_schemes()) {
            Some(DriverKind::UdpServer)
        } else if is_one_of(scheme, &TcpClientInfo.valid_schemes()) {
            Some(DriverKind::TcpClient)
        } else if is_one_of(scheme, &RestInfo.valid_schemes()) {
            Some(DriverKind::Rest)
        } else if is_one_of(scheme, &FakeSourceInfo.valid_schemes()) {
            Some(DriverKind::FakeSource)
        } else if is_one_of(scheme, &FakeSinkInfo.valid_schemes()) {
            Some(DriverKind::FakeSink)
        } else {
            None
        }
    }

    /// The name of the kind.
    pub fn name(&self) -> (name: &'static str)
        ensures
            name@ == match *self {
                DriverKind::UdpClient => "UdpClient"@,
                DriverKind::UdpServer => "UdpServer"@,
                DriverKind::TcpClient => "TcpClient"@,
                DriverKind::FakeSink => "FakeSink"@,
                DriverKind::FakeSource => "FakeSource"@,
                DriverKind::Rest => "Rest"@,
            },
    {
        match self {
            DriverKind::UdpClient => UdpClientInfo.name(),
            DriverKind::UdpServer => UdpServerInfo.name(),
            DriverKind::TcpClient => TcpClientInfo.name(),
            DriverKind::FakeSink => FakeSinkInfo.name(),
            DriverKind::FakeSource => FakeSourceInfo.name(),
            DriverKind::Rest => RestInfo.name(),
        }
    }
}

/// The driver for the endpoint that `url` names: of the kind that the
/// scheme selects, made as the description of that kind makes it. None
/// where the scheme selects no kind, or the URL lacks what the kind needs.
pub fn create_driver(url: &EndpointUrl) -> (driver: Option<Driver>)
    ensures
        kind_of_scheme(url.scheme@) is None ==> driver is None,
        driver matches Some(d) ==> Some(d.spec_kind()) == kind_of_scheme(url.scheme@)
            && d.spec_stats().stats.input is None && d.spec_stats().stats.output is None,
        kind_of_scheme(url.scheme@) matches Some(kind) ==> (driver is Some <==> kind
            == DriverKind::FakeSink || kind == DriverKind::FakeSource || (url.host is Some
            && url.port is Some)),
        driver matches Some(Driver::UdpClient(client)) ==> client.remote_addr@ == address_of(
            url.host->0@,
            url.port->0,
        ),
        driver matches Some(Driver::UdpServer(server)) ==> server.local_addr@ == address_of(
            url.host->0@,
            url.port->0,
        ) && server.clients@ == Map::<u16, Seq<char>>::empty(),
        driver matches Some(Driver::TcpClient(client)) ==> client.remote_addr@ == address_of(
            url.host->0@,
            url.port->0,
        ),
        driver matches Some(Driver::FakeSource(source)) ==> source.sequence == 0
            && source.period_micros == period_micros_of(url.query@) && source.name@ == "Unnamed"@,
        driver matches Some(Driver::FakeSink(sink)) ==> sink.print && sink.name@ == "Unnamed"@,
{
    match DriverKind::from_scheme(&url.scheme) {
        Some(DriverKind::UdpClient) => UdpClientInfo.create_endpoint_from_url(url),
        Some(DriverKind::UdpServer) => UdpServerInfo.create_endpoint_from_url(url),
        Some(DriverKind::TcpClient) => TcpClientInfo.create_endpoint_from_url(url),
        Some(DriverKind::Rest) => RestInfo.create_endpoint_from_url(url),
        Some(DriverKind::FakeSource) => FakeSourceInfo.create_endpoint_from_url(url),
        Some(DriverKind::FakeSink) => FakeSinkInfo.create_endpoint_from_url(url),
        None => None,
    }
}

} // verus!
