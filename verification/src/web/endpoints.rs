//! The values that the REST interface serves and takes.

use crate::hub::{input_total, lists_stats, Hub};
use crate::stats::driver::DriverStats;
use crate::stats::Counters;
use vstd::prelude::*;
use vstd::string::{StrSliceExecFns, StringExecFns};

verus! {

/// Version of the REST interface.
pub const REST_API_VERSION: u32 = 0;

/// What the service says of itself.
#[derive(Debug, Default, Clone, PartialEq, Eq)]
pub struct InfoContent {
    /// Name of the program.
    pub name: String,
    /// Version or tag.
    pub version: String,
    /// Git SHA of the build.
    pub sha: String,
    /// When the program was built.
    pub build_date: String,
    /// Names of the authors.
    pub authors: String,
}

/// The answer to `GET /info`.
#[derive(Debug, Default, Clone, PartialEq, Eq)]
pub struct Info {
    /// Version of the REST interface.
    pub version: u32,
    /// The service.
    pub service: InfoContent,
}

impl Info {
    /// The description of `service` under the current version of the
    /// interface.
    pub fn new(service: InfoContent) -> (info: Info)
        ensures
            info.version == REST_API_VERSION,
            info.service == service,
    {
        Info { version: REST_API_VERSION, service }
    }
}

/// The file that a request for the path `requested` is answered with: the
/// index page where the request names no file.
pub fn file_or_index(requested: Option<&str>) -> (file: String)
    ensures
        file@ == match requested {
            Some(name) => if name@.len() == 0 {
                "index.html"@
            } else {
                name@
            },
            None => "index.html"@,
        },
{
    match requested {
        Some(name) => if name.unicode_len() == 0 {
            String::from_str("index.html")
        } else {
            String::from_str(name)
        },
        None => String::from_str("index.html"),
    }
}

/// The query of a WebSocket request.
#[derive(Debug, Clone, PartialEq, Eq)]
pub struct WebsocketQuery {
    /// Regular expression that selects messages by name.
    pub filter: Option<String>,
}

/// The regular expression of a query without filter: it selects every message.
pub open spec fn match_all() -> Seq<char> {
    ".*"@
}

impl WebsocketQuery {
    /// The regular expression to apply: the filter of the query, or the
    /// one that selects everything.
    pub fn filter_or_all(&self) -> (filter: String)
        ensures
            filter@ == match self.filter {
                Some(f) => f@,
                None => match_all(),
            },
    {
        match &self.filter {
            Some(filter) => filter.clone(),
            None => String::from_str(".*"),
        }
    }
}

/// The query of a request for a message template.
#[derive(Debug, Clone, PartialEq, Eq)]
pub struct MAVLinkHelperQuery {
    /// Name of the MAVLink message.
    pub name: String,
}

/// The answer to a request for statistics.
#[derive(Debug)]
pub struct Statistics {
    /// The statistics of each driver, with its name.
    pub driver: Option<Vec<(String, DriverStats)>>,
    /// What came in at all drivers together.
    pub hub: Option<Counters>,
}

impl Statistics {
    /// The statistics of `hub` and its drivers.
    pub fn of_hub(hub: &Hub) -> (statistics: Statistics)
        ensures
            statistics.hub == Some(input_total(hub.entries())),
            statistics.driver matches Some(drivers) && lists_stats(drivers@, hub.entries()),
    {
        Statistics { driver: Some(hub.get_drivers_stats()), hub: Some(hub.get_hub_stats()) }
    }
}

} // verus!
