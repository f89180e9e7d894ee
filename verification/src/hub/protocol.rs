//! The commands that the hub serves, and its replies.
//!
//! Every command gets exactly one reply, of the kind that belongs to it.

use super::{
    drivers_map, first_driver_at, has_driver, input_total, is_reset_of, lists_stats,
    DriverEntry, Hub, HubError,
};
use crate::drivers::driver::{Driver, DriverKind};
use crate::stats::driver::DriverStats;
use crate::stats::Counters;
use std::collections::HashMap;
use vstd::prelude::*;

verus! {

/// A command to the hub.
#[derive(Debug)]
pub enum HubCommand {
    /// Add a driver and run it.
    AddDriver { driver: Driver },
    /// Stop and remove the driver with this id.
    RemoveDriver { id: u64 },
    /// List the drivers.
    GetDrivers,
    /// Hand out a sender to the bus.
    GetSender,
    /// Report what came in at all drivers together.
    GetHubStats,
    /// Report the statistics of each driver.
    GetDriversStats,
    /// Reset all statistics.
    ResetAllStats,
}

/// The reply of the hub to a command.
#[derive(Debug)]
pub enum HubReply {
    /// To `AddDriver`: the id that the driver got.
    DriverAdded(Result<u64, HubError>),
    /// To `RemoveDriver`.
    DriverRemoved(Result<(), HubError>),
    /// To `GetDrivers`: id and kind of each driver.
    Drivers(HashMap<u64, DriverKind>),
    /// To `GetSender`: the caller, who owns the bus, hands out the sender.
    Sender,
    /// To `GetHubStats`.
    HubStats(Counters),
    /// To `GetDriversStats`: name and statistics of each driver.
    DriversStats(Vec<(String, DriverStats)>),
    /// To `ResetAllStats`.
    StatsReset(Result<(), HubError>),
}

/// `reply` is of the kind that answers `command`.
pub open spec fn answers(command: HubCommand, reply: HubReply) -> bool {
    match command {
        HubCommand::AddDriver { .. } => reply is DriverAdded,
        HubCommand::RemoveDriver { .. } => reply is DriverRemoved,
        HubCommand::GetDrivers => reply is Drivers,
        HubCommand::GetSender => reply is Sender,
        HubCommand::GetHubStats => reply is HubStats,
        HubCommand::GetDriversStats => reply is DriversStats,
        HubCommand::ResetAllStats => reply is StatsReset,
    }
}

/// `command` only reads: it leaves the registry as it is.
pub open spec fn reads_only(command: HubCommand) -> bool {
    command is GetDrivers || command is GetSender || command is GetHubStats
        || command is GetDriversStats
}

impl Hub {
    /// Serves one command and gives its reply.
    ///
    /// After `DriverAdded(Ok(id))` the caller runs the driver with that id;
    /// after `DriverRemoved(Ok(()))` the caller cancels it.
    pub fn handle(&mut self, command: HubCommand) -> (reply: HubReply)
        ensures
            answers(command, reply),
            reads_only(command) ==> final(self).entries() == old(self).entries() && final(self).next_id() == old(self).next_id(),
            old(self).well_formed() ==> final(self).well_formed(),
            final(self).next_id() >= old(self).next_id(),
            !(command is AddDriver) ==> final(self).next_id() == old(self).next_id(),
            command matches HubCommand::AddDriver { driver } ==> {
                if old(self).next_id() < u64::MAX {
                    &&& reply == HubReply::DriverAdded(Ok(old(self).next_id()))
                    &&& final(self).next_id() == old(self).next_id() + 1
                    &&& final(self).entries() == old(self).entries().push(
                        DriverEntry { id: old(self).next_id(), driver },
                    )
                } else {
                    &&& reply == HubReply::DriverAdded(Err(HubError::IdsExhausted))
                    &&& final(self).entries() == old(self).entries()
                }
            },
            command matches HubCommand::RemoveDriver { id } ==> {
                if has_driver(old(self).entries(), id) {
                    &&& reply == HubReply::DriverRemoved(Ok(()))
                    &&& exists|i: int|
                        first_driver_at(old(self).entries(), id, i) && final(self).entries()
                            == old(self).entries().remove(i)
                } else {
                    &&& reply == HubReply::DriverRemoved(Err(HubError::NotFound))
                    &&& final(self).entries() == old(self).entries()
                }
            },
            command is GetDrivers ==> (reply matches HubReply::Drivers(drivers) && drivers@
                == drivers_map(old(self).entries())),
            command is GetSender ==> reply == HubReply::Sender,
            command is GetHubStats ==> reply == HubReply::HubStats(
                input_total(old(self).entries()),
            ),
            command is GetDriversStats ==> (reply matches HubReply::DriversStats(stats)
                && lists_stats(stats@, old(self).entries())),
            command is ResetAllStats ==> reply == HubReply::StatsReset(Ok(())) && is_reset_of(
                final(self).entries(),
                old(self).entries(),
            ) && input_total(final(self).entries()) == Counters::zero() && final(self).next_id()
                == old(self).next_id(),
    {
        match command {
            HubCommand::AddDriver { driver } => HubReply::DriverAdded(self.add_driver(driver)),
            HubCommand::RemoveDriver { id } => HubReply::DriverRemoved(self.remove_driver(id)),
            HubCommand::GetDrivers => HubReply::Drivers(self.get_drivers()),
            HubCommand::GetSender => HubReply::Sender,
            HubCommand::GetHubStats => HubReply::HubStats(self.get_hub_stats()),
            HubCommand::GetDriversStats => HubReply::DriversStats(self.get_drivers_stats()),
            HubCommand::ResetAllStats => {
                self.reset_all_stats();
                HubReply::StatsReset(Ok(()))
            },
        }
    }
}

} // verus!
