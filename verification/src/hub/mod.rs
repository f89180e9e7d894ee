//! The hub's registry of drivers.
//!
//! The hub gives every driver that is added a fresh id, keeps the drivers
//! by id, and reads and resets their statistics. Spawning and cancelling
//! the tasks of a driver, and the bus, are the caller's.

pub mod protocol;

use crate::drivers::driver::{Driver, DriverKind};
use crate::stats::driver::{side_view, DriverStats};
use crate::stats::{lemma_merged_zero, merge_into, merge_tables, Counters};
use std::collections::HashMap;
use vstd::prelude::*;
use vstd::std_specs::hash::*;

verus! {

broadcast use vstd::std_specs::hash::group_hash_axioms;

/// Why a command to the hub failed.
#[derive(Clone, Copy, Debug, PartialEq, Eq, Structural)]
pub enum HubError {
    /// The hub holds no driver with the id given.
    NotFound,
    /// Every id has been given out.
    IdsExhausted,
}

/// A driver in the registry, with the id that the hub gave it.
#[derive(Debug)]
pub struct DriverEntry {
    pub id: u64,
    pub driver: Driver,
}

/// A driver with `id` stands in `entries`.
pub open spec fn has_driver(entries: Seq<DriverEntry>, id: u64) -> bool {
    exists|i: int| 0 <= i < entries.len() && (#[trigger] entries[i]).id == id
}

/// `i` is the first place in `entries` at which a driver with `id` stands.
pub open spec fn first_driver_at(entries: Seq<DriverEntry>, id: u64, i: int) -> bool {
    &&& 0 <= i < entries.len()
    &&& entries[i].id == id
    &&& forall|j: int| 0 <= j < i ==> (#[trigger] entries[j]).id != id
}

/// The ids in `entries` grow from each entry to the next and are all below
/// `next_id`: none occurs twice and none will be given out again.
pub open spec fn ids_in_order(entries: Seq<DriverEntry>, next_id: u64) -> bool {
    &&& forall|i: int, j: int|
        0 <= i < j < entries.len() ==> (#[trigger] entries[i]).id < (#[trigger] entries[j]).id
    &&& forall|i: int| 0 <= i < entries.len() ==> (#[trigger] entries[i]).id < next_id
}

/// Capacity of the bus where none is configured.
pub const DEFAULT_BUS_CAPACITY: usize = 10_000;

/// The kinds of the drivers of `entries` by id.
pub open spec fn drivers_map(entries: Seq<DriverEntry>) -> Map<u64, DriverKind>
    decreases entries.len(),
{
    if entries.len() == 0 {
        Map::empty()
    } else {
        drivers_map(entries.drop_last()).insert(
            entries.last().id,
            entries.last().driver.spec_kind(),
        )
    }
}

/// The map of the drivers holds exactly the ids of the drivers.
pub proof fn lemma_drivers_map_ids(entries: Seq<DriverEntry>)
    ensures
        forall|id: u64| #[trigger] drivers_map(entries).contains_key(id) <==> has_driver(entries, id),
    decreases entries.len(),
{
    if entries.len() > 0 {
        let before = entries.drop_last();
        lemma_drivers_map_ids(before);
        assert forall|id: u64| #[trigger] drivers_map(entries).contains_key(id) <==> has_driver(
            entries,
            id,
        ) by {
            if has_driver(entries, id) {
                let i = choose|i: int| 0 <= i < entries.len() && (#[trigger] entries[i]).id == id;
                if i < before.len() {
                    assert(before[i].id == id);
                    assert(has_driver(before, id));
                    assert(drivers_map(before).contains_key(id));
                } else {
                    assert(entries.last().id == id);
                }
            }
            if drivers_map(entries).contains_key(id) {
                if id == entries.last().id {
                    assert(entries[entries.len() - 1].id == id);
                } else {
                    assert(drivers_map(before).contains_key(id));
                    assert(has_driver(before, id));
                    let i = choose|i: int| 0 <= i < before.len() && (#[trigger] before[i]).id == id;
                    assert(entries[i].id == id);
                }
            }
        }
    } else {
        assert forall|id: u64| !has_driver(entries, id) by {}
    }
}

/// `stats` lists the name and the statistics of each of `entries`, in order.
pub open spec fn lists_stats(stats: Seq<(String, DriverStats)>, entries: Seq<DriverEntry>) -> bool {
    &&& stats.len() == entries.len()
    &&& forall|i: int|
        0 <= i < stats.len() ==> {
            let held = entries[i].driver.spec_stats();
            let got = #[trigger] stats[i];
            &&& got.0@ == held.name@
            &&& got.1.name@ == held.name@
            &&& got.1.driver_type == held.driver_type
            &&& (got.1.stats.input is Some <==> held.stats.input is Some)
            &&& (got.1.stats.output is Some <==> held.stats.output is Some)
            &&& side_view(got.1.stats.input) == side_view(held.stats.input)
            &&& side_view(got.1.stats.output) == side_view(held.stats.output)
        }
}

/// `after` holds the drivers of `before`, in their places and under their
/// ids, each as it is after a reset of its statistics.
pub open spec fn is_reset_of(after: Seq<DriverEntry>, before: Seq<DriverEntry>) -> bool {
    &&& after.len() == before.len()
    &&& forall|i: int|
        0 <= i < after.len() ==> #[trigger] after[i] == (DriverEntry {
            id: before[i].id,
            driver: before[i].driver.spec_reset(),
        })
}

/// What came in at all drivers of `entries` together.
pub open spec fn input_total(entries: Seq<DriverEntry>) -> Counters
    decreases entries.len(),
{
    if entries.len() == 0 {
        Counters::zero()
    } else {
        input_total(entries.drop_last()).merged(
            side_view(entries.last().driver.spec_stats().stats.input).total,
        )
    }
}

/// Drivers that have counted no input have counted none together.
pub proof fn lemma_input_total_after_reset(entries: Seq<DriverEntry>)
    requires
        forall|i: int|
            0 <= i < entries.len() ==> (#[trigger] entries[i]).driver.spec_stats().stats.input
                is None,
    ensures
        input_total(entries) == Counters::zero(),
    decreases entries.len(),
{
    if entries.len() > 0 {
        lemma_input_total_after_reset(entries.drop_last());
        assert(entries.last() == entries[entries.len() - 1]);
    }
}

/// The histogram by message id of what came in at all drivers of `entries`
/// together.
pub open spec fn messages_total(entries: Seq<DriverEntry>) -> Map<u32, Counters>
    decreases entries.len(),
{
    if entries.len() == 0 {
        Map::empty()
    } else {
        merge_tables(
            messages_total(entries.drop_last()),
            side_view(entries.last().driver.spec_stats().stats.input).per_message_id,
        )
    }
}

/// Drivers that have counted no input have no histogram together.
pub proof fn lemma_messages_total_after_reset(entries: Seq<DriverEntry>)
    requires
        forall|i: int|
            0 <= i < entries.len() ==> (#[trigger] entries[i]).driver.spec_stats().stats.input
                is None,
    ensures
        messages_total(entries) == Map::<u32, Counters>::empty(),
    decreases entries.len(),
{
    if entries.len() > 0 {
        lemma_messages_total_after_reset(entries.drop_last());
        assert(entries.last() == entries[entries.len() - 1]);
        assert(merge_tables(Map::<u32, Counters>::empty(), Map::<u32, Counters>::empty())
            =~= Map::<u32, Counters>::empty());
    }
}

/// The registry of drivers.
#[derive(Debug)]
pub struct Hub {
    next_id: u64,
    drivers: Vec<DriverEntry>,
}

impl Hub {
    /// The id that the next driver will get.
    pub closed spec fn next_id(&self) -> u64 {
        self.next_id
    }

    /// The drivers held, in the order in which they were added.
    pub closed spec fn entries(&self) -> Seq<DriverEntry> {
        self.drivers@
    }

    /// No id is held twice, and every id held was given out before.
    pub open spec fn well_formed(&self) -> bool {
        ids_in_order(self.entries(), self.next_id())
    }

    /// A hub without drivers. The first driver will get id 0.
    pub fn new() -> (hub: Hub)
        ensures
            hub.entries() == Seq::<DriverEntry>::empty(),
            hub.next_id() == 0,
            hub.well_formed(),
    {
        Hub { next_id: 0, drivers: Vec::new() }
    }

    /// Number of drivers held.
    pub fn len(&self) -> (len: usize)
        ensures
            len == self.entries().len(),
    {
        self.drivers.len()
    }

    /// Adds `driver` under a fresh id and returns that id. The caller then
    /// runs the driver. Fails only when all ids are used up.
    pub fn add_driver(&mut self, driver: Driver) -> (result: Result<u64, HubError>)
        ensures
            old(self).next_id() < u64::MAX ==> result == Ok::<u64, HubError>(old(self).next_id())
                && final(self).next_id() == old(self).next_id() + 1 && final(self).entries()
                == old(self).entries().push(DriverEntry { id: old(self).next_id(), driver }),
            old(self).next_id() == u64::MAX ==> result == Err::<u64, HubError>(
                HubError::IdsExhausted,
            ) && final(self).next_id() == old(self).next_id() && final(self).entries() == old(
                self,
            ).entries(),
            old(self).well_formed() ==> final(self).well_formed(),
            old(self).well_formed() ==> (result matches Ok(id) ==> !has_driver(
                old(self).entries(),
                id,
            )),
    {
        if self.next_id == u64::MAX {
            return Err(HubError::IdsExhausted);
        }
        let id = self.next_id;
        proof {
            if old(self).well_formed() && has_driver(old(self).entries(), id) {
                let i = choose|i: int|
                    0 <= i < old(self).entries().len() && (#[trigger] old(self).entries()[i]).id
                        == id;
                assert(old(self).entries()[i].id < id);
            }
        }
        self.drivers.push(DriverEntry { id, driver });
        self.next_id = id + 1;
        Ok(id)
    }

    /// The place of the first driver with `id`, if there is one.
    fn position(&self, id: u64) -> (place: Option<usize>)
        ensures
            place is Some <==> has_driver(self.entries(), id),
            place matches Some(i) ==> first_driver_at(self.entries(), id, i as int),
    {
        let mut i: usize = 0;
        while i < self.drivers.len() && self.drivers[i].id != id
            invariant
                i <= self.drivers.len(),
                forall|j: int| 0 <= j < i ==> (#[trigger] self.drivers@[j]).id != id,
            decreases self.drivers.len() - i,
        {
            i = i + 1;
        }
        if i < self.drivers.len() {
            Some(i)
        } else {
            None
        }
    }

    /// Whether the hub holds a driver with `id`.
    pub fn contains(&self, id: u64) -> (held: bool)
        ensures
            held == has_driver(self.entries(), id),
    {
        self.position(id).is_some()
    }

    /// Removes the driver with `id`. The caller then cancels its tasks.
    /// Fails when there is no such driver, and then changes nothing.
    pub fn remove_driver(&mut self, id: u64) -> (result: Result<(), HubError>)
        ensures
            has_driver(old(self).entries(), id) ==> result == Ok::<(), HubError>(()) && exists|
                i: int,
            |
                first_driver_at(old(self).entries(), id, i) && final(self).entries() == old(
                    self,
                ).entries().remove(i),
            !has_driver(old(self).entries(), id) ==> result == Err::<(), HubError>(
                HubError::NotFound,
            ) && final(self).entries() == old(self).entries(),
            final(self).next_id() == old(self).next_id(),
            old(self).well_formed() ==> final(self).well_formed(),
            old(self).well_formed() ==> !has_driver(final(self).entries(), id),
    {
        match self.position(id) {
            Some(i) => {
                let ghost before = self.drivers@;
                self.drivers.remove(i);
                proof {
                    let after = self.drivers@;
                    assert(after == before.remove(i as int));
                    if old(self).well_formed() {
                        assert forall|a: int, b: int| 0 <= a < b < after.len() implies (
                        #[trigger] after[a]).id < (#[trigger] after[b]).id by {
                            let a0 = if a < i { a } else { a + 1 };
                            let b0 = if b < i { b } else { b + 1 };
                            assert(after[a] == before[a0] && after[b] == before[b0]);
                        }
                        assert forall|a: int| 0 <= a < after.len() implies (#[trigger] after[a]).id
                            < self.next_id by {
                            let a0 = if a < i { a } else { a + 1 };
                            assert(after[a] == before[a0]);
                        }
                        if has_driver(after, id) {
                            let a = choose|a: int|
                                0 <= a < after.len() && (#[trigger] after[a]).id == id;
                            let a0 = if a < i { a } else { a + 1 };
                            assert(after[a] == before[a0]);
                            if a0 < i {
                                assert(before[a0].id < before[i as int].id);
                            } else {
                                assert(before[i as int].id < before[a0].id);
                            }
                        }
                    }
                }
                Ok(())
            },
            None => Err(HubError::NotFound),
        }
    }
}

impl Hub {
    /// The driver with `id`, if the hub holds one.
    pub fn driver(&self, id: u64) -> (driver: Option<&Driver>)
        ensures
            driver is Some <==> has_driver(self.entries(), id),
            driver matches Some(d) ==> exists|i: int|
                first_driver_at(self.entries(), id, i) && *d == self.entries()[i].driver,
    {
        match self.position(id) {
            Some(i) => Some(&self.drivers[i].driver),
            None => None,
        }
    }

    /// The driver with `id`, to work on, if the hub holds one. Whatever is
    /// done to the driver, it stays in its place under its id.
    pub fn driver_mut(&mut self, id: u64) -> (driver: Option<&mut Driver>)
        ensures
            driver is Some <==> has_driver(old(self).entries(), id),
            driver matches Some(d) ==> exists|i: int|
                first_driver_at(old(self).entries(), id, i) && *d == old(self).entries()[i].driver
                    && final(self).entries() == old(self).entries().update(
                    i,
                    DriverEntry { id, driver: *final(d) },
                ),
            driver is None ==> final(self).entries() == old(self).entries(),
            final(self).next_id() == old(self).next_id(),
            old(self).well_formed() ==> final(self).well_formed(),
    {
        match self.position(id) {
            Some(i) => {
                let entry = &mut self.drivers[i];
                Some(&mut entry.driver)
            },
            None => None,
        }
    }

    /// The drivers held: the kind of each by its id.
    pub fn get_drivers(&self) -> (drivers: HashMap<u64, DriverKind>)
        ensures
            drivers@ == drivers_map(self.entries()),
            forall|id: u64| #[trigger] drivers@.contains_key(id) <==> has_driver(self.entries(), id),
    {
        let mut drivers: HashMap<u64, DriverKind> = HashMap::new();
        let mut i: usize = 0;
        while i < self.drivers.len()
            invariant
                i <= self.drivers.len(),
                drivers@ == drivers_map(self.drivers@.subrange(0, i as int)),
            decreases self.drivers.len() - i,
        {
            proof {
                let upto = self.drivers@.subrange(0, i + 1);
                assert(upto.drop_last() =~= self.drivers@.subrange(0, i as int));
                assert(upto.last() == self.drivers@[i as int]);
            }
            drivers.insert(self.drivers[i].id, self.drivers[i].driver.kind());
            i = i + 1;
        }
        proof {
            assert(self.drivers@.subrange(0, i as int) =~= self.drivers@);
            lemma_drivers_map_ids(self.drivers@);
        }
        drivers
    }

    /// The statistics of every driver held, each with the driver's name,
    /// in the order in which the drivers were added.
    pub fn get_drivers_stats(&self) -> (stats: Vec<(String, DriverStats)>)
        ensures
            lists_stats(stats@, self.entries()),
    {
        let mut stats: Vec<(String, DriverStats)> = Vec::new();
        let mut i: usize = 0;
        while i < self.drivers.len()
            invariant
                i <= self.drivers.len(),
                stats@.len() == i,
                forall|k: int|
                    0 <= k < i ==> {
                        let held = self.drivers@[k].driver.spec_stats();
                        let got = #[trigger] stats@[k];
                        &&& got.0@ == held.name@
                        &&& got.1.name@ == held.name@
                        &&& got.1.driver_type == held.driver_type
                        &&& (got.1.stats.input is Some <==> held.stats.input is Some)
                        &&& (got.1.stats.output is Some <==> held.stats.output is Some)
                        &&& side_view(got.1.stats.input) == side_view(held.stats.input)
                        &&& side_view(got.1.stats.output) == side_view(held.stats.output)
                    },
            decreases self.drivers.len() - i,
        {
            let driver = &self.drivers[i].driver;
            stats.push((driver.name(), driver.stats()));
            i = i + 1;
        }
        stats
    }

    /// What came in at all drivers together since the last reset.
    pub fn get_hub_stats(&self) -> (total: Counters)
        ensures
            total == input_total(self.entries()),
    {
        let mut total = Counters::new();
        let mut i: usize = 0;
        while i < self.drivers.len()
            invariant
                i <= self.drivers.len(),
                total == input_total(self.drivers@.subrange(0, i as int)),
            decreases self.drivers.len() - i,
        {
            proof {
                let upto = self.drivers@.subrange(0, i + 1);
                assert(upto.drop_last() =~= self.drivers@.subrange(0, i as int));
                assert(upto.last() == self.drivers@[i as int]);
            }
            let seen = self.drivers[i].driver.input_total();
            total.merge(&seen);
            i = i + 1;
        }
        assert(self.drivers@.subrange(0, i as int) =~= self.drivers@);
        total
    }

    /// The histogram by message id of what came in at all drivers together
    /// since the last reset.
    pub fn get_messages_stats(&self) -> (table: HashMap<u32, Counters>)
        ensures
            table@ == messages_total(self.entries()),
    {
        let mut table: HashMap<u32, Counters> = HashMap::new();
        let mut i: usize = 0;
        while i < self.drivers.len()
            invariant
                i <= self.drivers.len(),
                table@ == messages_total(self.drivers@.subrange(0, i as int)),
            decreases self.drivers.len() - i,
        {
            proof {
                let upto = self.drivers@.subrange(0, i + 1);
                assert(upto.drop_last() =~= self.drivers@.subrange(0, i as int));
                assert(upto.last() == self.drivers@[i as int]);
            }
            let ghost before = table@;
            match &self.drivers[i].driver.stats_ref().stats.input {
                Some(input) => {
                    merge_into(&mut table, input.per_message_id());
                },
                None => {
                    proof {
                        assert forall|id: u32| before.dom().contains(id) implies #[trigger] merge_tables(
                            before,
                            Map::<u32, Counters>::empty(),
                        )[id] == before[id] by {
                            lemma_merged_zero(before[id]);
                        }
                        assert(merge_tables(before, Map::<u32, Counters>::empty()) =~= before);
                    }
                },
            }
            i = i + 1;
        }
        assert(self.drivers@.subrange(0, i as int) =~= self.drivers@);
        table
    }

    /// Resets the statistics of every driver. The drivers stay, under
    /// their ids, and the hub's own totals are zero again.
    pub fn reset_all_stats(&mut self)
        ensures
            final(self).next_id() == old(self).next_id(),
            is_reset_of(final(self).entries(), old(self).entries()),
            input_total(final(self).entries()) == Counters::zero(),
            messages_total(final(self).entries()) == Map::<u32, Counters>::empty(),
            old(self).well_formed() ==> final(self).well_formed(),
    {
        let ghost before = self.drivers@;
        let mut i: usize = 0;
        while i < self.drivers.len()
            invariant
                i <= self.drivers.len(),
                self.next_id == old(self).next_id,
                self.drivers@.len() == before.len(),
                forall|k: int| 0 <= k < before.len() ==> (#[trigger] self.drivers@[k]).id == before[k].id,
                forall|k: int|
                    i <= k < before.len() ==> (#[trigger] self.drivers@[k]) == before[k],
                forall|k: int|
                    0 <= k < i ==> (#[trigger] self.drivers@[k]).driver
                        == before[k].driver.spec_reset(),
            decreases self.drivers.len() - i,
        {
            self.drivers[i].driver.reset_stats();
            i = i + 1;
        }
        proof {
            assert forall|k: int| 0 <= k < self.drivers@.len() implies (
            #[trigger] self.drivers@[k]).driver.spec_stats().stats.input is None by {
                assert(self.drivers@[k].driver == before[k].driver.spec_reset());
            }
            lemma_input_total_after_reset(self.drivers@);
            lemma_messages_total_after_reset(self.drivers@);
            if old(self).well_formed() {
                assert forall|a: int, b: int| 0 <= a < b < self.drivers@.len() implies (
                #[trigger] self.drivers@[a]).id < (#[trigger] self.drivers@[b]).id by {
                    assert(before[a].id < before[b].id);
                }
            }
        }
    }
}

} // verus!
