//! The sensors in use, and degraded mode while expected drivers are missing.
use vstd::prelude::*;

use crate::config::{DegradedConfig, DegradedView};
use crate::path::{by_path, law_sorting_orders_and_keeps_all};
use crate::sensor::discovery::{all_known, amd_graphics, driver_of, driver_present, drivers_in_use, found_sensors, gpu_count, law_graphics_cards_are_counted, law_listed_drivers_and_labels_are_used, scan_for_drivers, scan_hwmon_devices, HwmonDevice};
use crate::sensor::{sensor_views, status_of, HwmonSensor, SensorRead, SensorStatus, SensorView, StatusView};
use crate::text::{texts, trimmed};

verus! {

/// Nanoseconds in a second.
pub const NANOS_PER_SEC: u64 = 1_000_000_000;

/// The time from `since` to `now`, in nanoseconds of a clock that does not go back.
pub open spec fn elapsed(since: u64, now: u64) -> u64 {
    if now >= since {
        (now - since) as u64
    } else {
        0
    }
}

/// The time from `since` to `now`.
pub fn time_since(since: u64, now: u64) -> (r: u64)
    ensures
        r == elapsed(since, now),
        now >= since ==> r == now - since,
        now < since ==> r == 0,
{
    if now >= since {
        now - since
    } else {
        0
    }
}

/// The sensors in use. `H` is an open file.
#[derive(Debug)]
pub struct SensorRegistry<H> {
    sensors: Vec<HwmonSensor<H>>,
    missing_drivers: Vec<String>,
    degraded_since: Option<u64>,
    degraded_config: DegradedConfig,
}

/// The values of a `SensorRegistry`.
#[verifier::ext_equal]
pub ghost struct RegistryState<H> {
    pub sensors: Seq<SensorView<H>>,
    pub missing_drivers: Set<Seq<char>>,
    pub degraded_since: Option<u64>,
    pub degraded_config: DegradedView,
}

impl<H> View for SensorRegistry<H> {
    type V = RegistryState<H>;

    closed spec fn view(&self) -> RegistryState<H> {
        RegistryState {
            sensors: sensor_views(self.sensors@),
            missing_drivers: texts(self.missing_drivers@).to_set(),
            degraded_since: self.degraded_since,
            degraded_config: self.degraded_config@,
        }
    }
}

/// Degraded mode holds exactly while a driver is missing.
pub open spec fn degraded_while_missing<H>(state: RegistryState<H>) -> bool {
    state.degraded_since is Some <==> state.missing_drivers != Set::<Seq<char>>::empty()
}

/// The members of a set, as a predicate.
pub open spec fn in_set(set: Set<Seq<char>>) -> spec_fn(Seq<char>) -> bool {
    |driver: Seq<char>| set.contains(driver)
}

/// The expected drivers that a first search does not find: those that no device has.
pub open spec fn first_missing<H>(
    expected: Seq<Seq<char>>,
    devices: Result<Vec<HwmonDevice<H>>, String>,
) -> Set<Seq<char>> {
    match devices {
        Ok(list) => expected.to_set().filter(
            |d: Seq<char>| !driver_present(by_path(list@), d),
        ),
        Err(_) => expected.to_set(),
    }
}

/// The sensors that a search for the `wanted` drivers finds.
pub open spec fn search<H>(
    devices: Result<Vec<HwmonDevice<H>>, String>,
    wanted: spec_fn(Seq<char>) -> bool,
) -> Seq<SensorView<H>> {
    match devices {
        Ok(list) => found_sensors(by_path(list@), gpu_count(by_path(list@)) > 1, wanted),
        Err(_) => Seq::empty(),
    }
}

/// The registry after another search for the missing drivers.
pub open spec fn after_retry<H>(
    state: RegistryState<H>,
    devices: Result<Vec<HwmonDevice<H>>, String>,
) -> RegistryState<H> {
    let missing = match devices {
        Ok(list) => state.missing_drivers.filter(
            |d: Seq<char>| !driver_present(by_path(list@), d),
        ),
        Err(_) => state.missing_drivers,
    };
    RegistryState {
        sensors: state.sensors + search(devices, in_set(state.missing_drivers)),
        missing_drivers: missing,
        degraded_since: if missing == Set::<Seq<char>>::empty() {
            None
        } else {
            state.degraded_since
        },
        degraded_config: state.degraded_config,
    }
}

/// The percentage of their range that the fans run at: the initial one until the delay has
/// passed, and then the escalated one.
pub open spec fn degraded_percent<H>(state: RegistryState<H>, now: u64) -> u8 {
    match state.degraded_since {
        Some(since) => if elapsed(since, now) / NANOS_PER_SEC
            < state.degraded_config.escalation_delay {
            state.degraded_config.initial_percent
        } else {
            state.degraded_config.escalated_percent
        },
        None => 0,
    }
}

/// The name of each sensor with what it says.
pub open spec fn polled<H>(sensors: Seq<SensorView<H>>, reads: Seq<SensorRead>) -> Seq<
    (Seq<char>, StatusView),
> {
    Seq::new(sensors.len(), |i: int| (sensors[i].name, status_of(reads[i])))
}

/// The views of a list of readings.
pub open spec fn reading_views(readings: Seq<(&str, SensorStatus)>) -> Seq<
    (Seq<char>, StatusView),
> {
    Seq::new(readings.len(), |i: int| (readings[i].0@, readings[i].1@))
}

proof fn lemma_empty_list(list: Seq<Seq<char>>)
    ensures
        list.len() == 0 <==> list.to_set() == Set::<Seq<char>>::empty(),
{
    if list.len() > 0 {
        assert(list.contains(list[0]));
        assert(list.to_set().contains(list[0]));
    } else {
        assert(list.to_set() =~= Set::<Seq<char>>::empty());
    }
}

impl<H> SensorRegistry<H> {
    #[verifier::type_invariant]
    spec fn consistent(self) -> bool {
        degraded_while_missing(self@)
    }

    /// The sensors that a first search finds; degraded mode begins at `now` if an expected
    /// driver is missing.
    pub fn new(
        degraded_config: DegradedConfig,
        devices: Result<Vec<HwmonDevice<H>>, String>,
        now: u64,
    ) -> (r: SensorRegistry<H>)
        ensures
            ({
                let missing = first_missing(degraded_config@.expected_drivers, devices);
                r@ == (RegistryState {
                    sensors: search(devices, all_known()),
                    missing_drivers: missing,
                    degraded_since: if missing == Set::<Seq<char>>::empty() {
                        None
                    } else {
                        Some(now)
                    },
                    degraded_config: degraded_config@,
                })
            }),
            degraded_while_missing(r@),
    {
        let ghost expected = texts(degraded_config.expected_drivers@);
        let ghost asked = devices;
        let result = scan_hwmon_devices(&degraded_config.expected_drivers, devices);
        proof {
            lemma_empty_list(texts(result.missing_drivers@));
        }
        assert(texts(result.missing_drivers@).to_set() =~= first_missing(expected, asked));
        assert(sensor_views(result.sensors@) =~= search(asked, all_known()));
        let degraded_since: Option<u64> = if result.missing_drivers.len() == 0 {
            None
        } else {
            Some(now)
        };
        SensorRegistry {
            sensors: result.sensors,
            missing_drivers: result.missing_drivers,
            degraded_since,
            degraded_config,
        }
    }

    /// Searches again for the missing drivers: what is found is added behind the sensors in
    /// use, and degraded mode ends when nothing is missing any more.
    pub fn retry_discovery(&mut self, devices: Result<Vec<HwmonDevice<H>>, String>)
        ensures
            final(self)@ == if old(self)@.missing_drivers == Set::<Seq<char>>::empty() {
                old(self)@
            } else {
                after_retry(old(self)@, devices)
            },
            final(self)@.sensors.take(old(self)@.sensors.len() as int) == old(self)@.sensors,
            final(self)@.missing_drivers.subset_of(old(self)@.missing_drivers),
            degraded_while_missing(final(self)@),
    {
        proof {
            use_type_invariant(&*self);
            lemma_empty_list(texts(self.missing_drivers@));
        }
        let ghost before = self@;
        let ghost asked = devices;
        if self.missing_drivers.len() == 0 {
            assert(before.sensors.take(before.sensors.len() as int) == before.sensors);
            return;
        }
        let result = scan_for_drivers(&self.missing_drivers, devices);
        proof {
            lemma_empty_list(texts(result.missing_drivers@));
            assert(crate::sensor::discovery::all_of(texts(self.missing_drivers@)) =~= in_set(
                before.missing_drivers,
            ));
        }
        assert(sensor_views(result.sensors@) =~= search(asked, in_set(before.missing_drivers)));
        assert(texts(result.missing_drivers@).to_set() =~= after_retry(
            before,
            asked,
        ).missing_drivers);
        let mut found = result.sensors;
        let missing_drivers = result.missing_drivers;
        let mut sensors: Vec<HwmonSensor<H>> = Vec::new();
        std::mem::swap(&mut sensors, &mut self.sensors);
        let ghost had = sensors@;
        let ghost new = found@;
        sensors.append(&mut found);
        assert(sensor_views(sensors@) =~= sensor_views(had) + sensor_views(new));
        let degraded_since: Option<u64> = if missing_drivers.len() == 0 {
            None
        } else {
            self.degraded_since
        };
        let degraded_config = self.degraded_config.clone();
        *self = SensorRegistry { sensors, missing_drivers, degraded_since, degraded_config };
        assert(self@.sensors.take(before.sensors.len() as int) == before.sensors);
    }

    /// Whether degraded mode holds.
    pub fn is_degraded(&self) -> (r: bool)
        ensures
            r == (self@.degraded_since is Some),
            r == (self@.missing_drivers != Set::<Seq<char>>::empty()),
    {
        proof {
            use_type_invariant(self);
        }
        self.degraded_since.is_some()
    }

    /// The percentage that degraded mode asks for.
    pub fn degraded_fan_percent(&self, now: u64) -> (r: u8)
        ensures
            r == degraded_percent(self@, now),
            self@.degraded_since is None ==> r == 0,
            self@.degraded_since matches Some(since) ==> (since <= now ==> r == if now - since
                >= self@.degraded_config.escalation_delay * 1_000_000_000 {
                self@.degraded_config.escalated_percent
            } else {
                self@.degraded_config.initial_percent
            }),
    {
        match self.degraded_since {
            Some(since) => {
                if time_since(since, now) / NANOS_PER_SEC < self.degraded_config.escalation_delay {
                    self.degraded_config.initial_percent
                } else {
                    self.degraded_config.escalated_percent
                }
            },
            None => 0,
        }
    }

    /// What each sensor says, from the outcomes of reading their files.
    pub fn poll_all<'a>(&'a self, reads: Vec<SensorRead>) -> (r: Vec<(&'a str, SensorStatus)>)
        requires
            reads.len() == self@.sensors.len(),
        ensures
            reading_views(r@) == polled(self@.sensors, reads@),
    {
        let ghost all = reads@;
        let mut reads = reads;
        let mut out: Vec<(&'a str, SensorStatus)> = Vec::new();
        let mut i: usize = 0;
        assert(all.skip(0) == all);
        while i < self.sensors.len()
            invariant
                i <= self.sensors.len(),
                all.len() == self.sensors.len(),
                self@.sensors == sensor_views(self.sensors@),
                reads@ == all.skip(i as int),
                out.len() == i,
                forall|j: int|
                    0 <= j < i ==> reading_views(out@)[j] == #[trigger] polled(
                        self@.sensors,
                        all,
                    )[j],
            decreases self.sensors.len() - i,
        {
            let read = reads.remove(0);
            assert(read == all[i as int]);
            assert(reads@ == all.skip(i + 1));
            let sensor = &self.sensors[i];
            let status = sensor.read_temp(read);
            let ghost had = out@;
            out.push((sensor.name(), status));
            assert forall|j: int| 0 <= j < i + 1 implies reading_views(out@)[j] == #[trigger] polled(
                self@.sensors,
                all,
            )[j] by {
                if j < i {
                    assert(reading_views(out@)[j] == reading_views(had)[j]);
                }
            }
            i = i + 1;
        }
        assert(reading_views(out@) =~= polled(self@.sensors, all));
        out
    }

    /// The sensors in use.
    pub fn sensors(&self) -> (r: &Vec<HwmonSensor<H>>)
        ensures
            sensor_views(r@) == self@.sensors,
    {
        &self.sensors
    }

    /// The expected drivers that are missing.
    pub fn missing_drivers(&self) -> (r: &Vec<String>)
        ensures
            texts(r@).to_set() == self@.missing_drivers,
    {
        &self.missing_drivers
    }
}

/// Once the delay has passed, the fans stay at the escalated percentage as long as degraded
/// mode holds.
pub proof fn law_escalation_lasts<H>(state: RegistryState<H>, earlier: u64, later: u64)
    requires
        state.degraded_since matches Some(since) && elapsed(since, earlier) / NANOS_PER_SEC
            >= state.degraded_config.escalation_delay,
        earlier <= later,
    ensures
        degraded_percent(state, later) == state.degraded_config.escalated_percent,
{
    let since = state.degraded_since->0;
    let a = elapsed(since, earlier);
    let b = elapsed(since, later);
    assert(a <= b);
    assert(a / NANOS_PER_SEC <= b / NANOS_PER_SEC);
}

/// Before the delay has passed, the fans run at the initial percentage.
pub proof fn law_initial_percent_until_delay<H>(state: RegistryState<H>, now: u64)
    requires
        state.degraded_since matches Some(since) && elapsed(since, now)
            < state.degraded_config.escalation_delay * NANOS_PER_SEC,
    ensures
        degraded_percent(state, now) == state.degraded_config.initial_percent,
{
}

/// Another search does not restart the delay.
pub proof fn law_retry_keeps_the_clock<H>(
    state: RegistryState<H>,
    devices: Result<Vec<HwmonDevice<H>>, String>,
    now: u64,
)
    requires
        after_retry(state, devices).degraded_since is Some,
    ensures
        degraded_percent(after_retry(state, devices), now) == degraded_percent(state, now),
{
}

/// The first search and the later ones agree on what is missing: where nothing has changed, a
/// later search finds no driver that the first did not, and degraded mode goes on.
pub proof fn law_unchanged_hardware_stays_degraded<H>(
    state: RegistryState<H>,
    devices: Result<Vec<HwmonDevice<H>>, String>,
)
    requires
        state.missing_drivers == first_missing(state.degraded_config.expected_drivers, devices),
        degraded_while_missing(state),
        state.degraded_since is Some,
    ensures
        after_retry(state, devices).missing_drivers == state.missing_drivers,
        after_retry(state, devices).degraded_since == state.degraded_since,
{
    assert(after_retry(state, devices).missing_drivers =~= state.missing_drivers);
}

/// When a device of every missing driver has appeared, degraded mode ends.
pub proof fn law_recovers_when_drivers_appear<H>(
    state: RegistryState<H>,
    devices: Result<Vec<HwmonDevice<H>>, String>,
)
    requires
        devices matches Ok(list) && forall|d: Seq<char>|
            state.missing_drivers.contains(d) ==> driver_present(by_path(list@), d),
    ensures
        after_retry(state, devices).degraded_since is None,
        after_retry(state, devices).missing_drivers == Set::<Seq<char>>::empty(),
{
    assert(after_retry(state, devices).missing_drivers =~= Set::<Seq<char>>::empty());
}

/// The time from one moment to a later one is their difference, and none to an earlier one.
pub proof fn law_time_is_the_difference(since: u64, now: u64)
    ensures
        now >= since ==> elapsed(since, now) == now - since,
        now < since ==> elapsed(since, now) == 0,
{
}

/// In degraded mode the fans run at the escalated percentage from the moment on at which the
/// delay, in seconds, has passed since it began, and at the initial one before.
pub proof fn law_fans_escalate_when_the_delay_has_passed<H>(
    state: RegistryState<H>,
    since: u64,
    now: u64,
)
    requires
        state.degraded_since == Some(since),
    ensures
        since <= now && now - since >= state.degraded_config.escalation_delay * 1_000_000_000
            ==> degraded_percent(state, now) == state.degraded_config.escalated_percent,
        now - since < state.degraded_config.escalation_delay * 1_000_000_000 && 0
            < state.degraded_config.escalation_delay ==> degraded_percent(state, now)
            == state.degraded_config.initial_percent,
        state.degraded_config.escalation_delay == 0 ==> degraded_percent(state, now)
            == state.degraded_config.escalated_percent,
{
}

/// The expected drivers that are missing after a first search are those that no device has; all
/// of them where the devices cannot be listed.
pub proof fn law_missing_drivers_have_no_device<H>(
    expected: Seq<Seq<char>>,
    devices: Result<Vec<HwmonDevice<H>>, String>,
    driver: Seq<char>,
)
    ensures
        devices matches Ok(list) ==> (first_missing(expected, devices).contains(driver)
            <==> expected.contains(driver) && forall|i: int|
            0 <= i < list@.len() ==> !names_driver(#[trigger] list@[i], driver)),
        devices is Err ==> (first_missing(expected, devices).contains(driver) <==> expected.contains(
            driver,
        )),
{
    match devices {
        Ok(list) => {
            lemma_present_in_any_order(list@, driver);
        },
        Err(_) => {},
    }
}

/// Whether the `name` file of a device holds that driver, between white space.
pub open spec fn names_driver<H>(device: HwmonDevice<H>, driver: Seq<char>) -> bool {
    device.driver matches Some(content) && trimmed(content@) == driver
}

proof fn lemma_present_in_any_order<H>(list: Seq<HwmonDevice<H>>, driver: Seq<char>)
    ensures
        driver_present(by_path(list), driver) <==> exists|i: int|
            0 <= i < list.len() && names_driver(#[trigger] list[i], driver),
{
    broadcast use vstd::seq_lib::group_to_multiset_ensures;

    law_sorting_orders_and_keeps_all(list);
    let sorted = by_path(list);
    if driver_present(sorted, driver) {
        let i = choose|i: int|
            0 <= i < sorted.len() && driver_of(#[trigger] sorted[i]) == Some(driver);
        assert(sorted.contains(sorted[i]));
        assert(list.to_multiset().count(sorted[i]) > 0);
        let k = choose|k: int| 0 <= k < list.len() && list[k] == sorted[i];
        assert(names_driver(list[k], driver));
    }
    if exists|i: int| 0 <= i < list.len() && names_driver(#[trigger] list[i], driver) {
        let i = choose|i: int| 0 <= i < list.len() && names_driver(#[trigger] list[i], driver);
        assert(list.contains(list[i]));
        assert(sorted.to_multiset().count(list[i]) > 0);
        let k = choose|k: int| 0 <= k < sorted.len() && sorted[k] == list[i];
        assert(driver_of(sorted[k]) == Some(driver));
    }
}

/// After another search those drivers are still missing that were missing and that no device
/// has; the sensors in use stay, and what is found of the missing drivers comes behind them; and
/// degraded mode goes on, from when it began, exactly while a driver is missing.
pub proof fn law_retry_finds_what_has_appeared<H>(
    state: RegistryState<H>,
    devices: Result<Vec<HwmonDevice<H>>, String>,
    driver: Seq<char>,
)
    ensures
        ({
            let after = after_retry(state, devices);
            &&& devices matches Ok(list) ==> (after.missing_drivers.contains(driver)
                <==> state.missing_drivers.contains(driver) && forall|i: int|
                0 <= i < list@.len() ==> !names_driver(#[trigger] list@[i], driver))
            &&& devices is Err ==> after.missing_drivers == state.missing_drivers && after.sensors
                == state.sensors
            &&& after.sensors.len() >= state.sensors.len()
            &&& after.sensors.take(state.sensors.len() as int) == state.sensors
            &&& devices matches Ok(list) ==> after.sensors.skip(state.sensors.len() as int)
                == found_sensors(
                by_path(list@),
                gpu_count(by_path(list@)) > 1,
                |d: Seq<char>| state.missing_drivers.contains(d),
            )
            &&& after.degraded_config == state.degraded_config
            &&& after.missing_drivers != Set::<Seq<char>>::empty() ==> after.degraded_since
                == state.degraded_since
            &&& after.missing_drivers == Set::<Seq<char>>::empty() ==> after.degraded_since is None
        }),
{
    let after = after_retry(state, devices);
    let found = search(devices, in_set(state.missing_drivers));
    match devices {
        Ok(list) => {
            lemma_present_in_any_order(list@, driver);
            assert(in_set(state.missing_drivers) =~= (|d: Seq<char>|
                state.missing_drivers.contains(d)));
        },
        Err(_) => {
            assert(after.sensors =~= state.sensors);
        },
    }
    assert(after.sensors.take(state.sensors.len() as int) =~= state.sensors);
    assert(after.sensors.skip(state.sensors.len() as int) =~= found);
}

/// Every sensor is polled under its name and in its place: what was read of it is what it says.
pub proof fn law_each_sensor_says_what_was_read<H>(
    sensors: Seq<SensorView<H>>,
    reads: Seq<SensorRead>,
    i: int,
)
    requires
        0 <= i < sensors.len(),
    ensures
        polled(sensors, reads).len() == sensors.len(),
        polled(sensors, reads)[i].0 == sensors[i].name,
        polled(sensors, reads)[i].1 == status_of(reads[i]),
{
}

/// A search goes through the devices in the order of their paths, and numbers the graphics cards
/// where more than one device is one; the first search is for every driver in use. Where the
/// devices cannot be listed, it finds nothing.
pub proof fn law_search_goes_through_the_devices<H>(
    devices: Result<Vec<HwmonDevice<H>>, String>,
    wanted: spec_fn(Seq<char>) -> bool,
)
    ensures
        devices is Err ==> search(devices, wanted).len() == 0,
        devices matches Ok(list) ==> search(devices, wanted) == found_sensors(
            by_path(list@),
            by_path(list@).filter(amd_graphics()).len() > 1,
            wanted,
        ) && search(devices, all_known()) == found_sensors(
            by_path(list@),
            by_path(list@).filter(amd_graphics()).len() > 1,
            |driver: Seq<char>| drivers_in_use().contains(driver),
        ),
{
    match devices {
        Ok(list) => {
            law_graphics_cards_are_counted(by_path(list@));
            assert forall|driver: Seq<char>| #[trigger]
                all_known()(driver) == drivers_in_use().contains(driver) by {
                law_listed_drivers_and_labels_are_used(driver, driver);
            }
            assert(all_known() =~= (|driver: Seq<char>| drivers_in_use().contains(driver)));
        },
        Err(_) => {},
    }
}

} // verus!
