//! The collector: it samples the sensors every second, keeps what they report,
//! and publishes it.

use crate::computed::{
    accounted_under, lemma_filter_push, to_computed_event_with_cap, ProcessAccount,
};
use crate::config::{
    process_cap, process_cap_for, BrokerAddr, ConsumptionUnit, MqttConfig, ProcessPublishMode,
};
use crate::energy::{
    energy_sum, law_totals_never_fall, lemma_saturating_step, lemma_sum_push, saturated,
    totals_after, CumulativeEnergy, EnergyUj,
};
use crate::event::{create_event_from_sensors, made_from, EstimateRequest};
use crate::hardware::HardwareInfo;
use crate::publisher::{envelope_sent, MQTTClient, MQTTError, MQTTPublisher};
use crate::sensor::{
    component_name, computed_energy, ComputedSensorData, Event, Float64, GPUSensor, ProcessData,
    Sensor, SensorData, SensorError, SensorType,
};
use crate::startup::{InitPhase, Initialization};
use crate::text::{ascii_lower, concat2, lowercase, to_lowercase};
use crate::topics::{sensor_data_topic, sensor_type_to_topic};
use std::collections::HashMap;
use vstd::prelude::*;

verus! {

/// MQTT information to interact with a MQTT client
pub struct MQTTInfo<C: MQTTClient> {
    pub config: MqttConfig,
    pub publisher: MQTTPublisher<C>,
    pub cumulative_energy: CumulativeEnergy,
}

/// The members of a reading as one JSON object, as it was measured and in
/// watt-hours; `null` if it has none.
#[derive(Debug)]
pub struct SensorPayload {
    pub measured: Result<Vec<u8>, serde_json::Error>,
    pub watt_hours: Result<Vec<u8>, serde_json::Error>,
}

/// The form in which a reading is published.
pub open spec fn published_form(unit: Option<ConsumptionUnit>, payload: SensorPayload) -> Result<
    Vec<u8>,
    serde_json::Error,
> {
    if unit == Some(ConsumptionUnit::WattHour) {
        payload.watt_hours
    } else {
        payload.measured
    }
}

/// The totals after the first `n` entries of an event have been counted.
pub open spec fn totals_through(
    totals: Map<Seq<char>, u64>,
    data: Seq<ComputedSensorData>,
    n: int,
) -> Map<Seq<char>, u64>
    decreases n,
{
    if n <= 0 {
        totals
    } else {
        totals_after(
            totals_through(totals, data, n - 1),
            component_name(data[n - 1]),
            computed_energy(data[n - 1]),
        )
    }
}

/// The total that goes out with entry `k`: that of its component, the entry
/// itself counted.
pub open spec fn published_total(
    totals: Map<Seq<char>, u64>,
    data: Seq<ComputedSensorData>,
    k: int,
) -> Option<u64> {
    let now = totals_through(totals, data, k + 1);
    let name = component_name(data[k]);
    if now.contains_key(name) {
        Some(now[name])
    } else {
        None
    }
}

impl<C: MQTTClient> MQTTInfo<C> {
    /// Connects a node with settings that nobody has changed but for the unit.
    pub fn new<F: FnOnce(&MqttConfig, Option<&HardwareInfo>) -> MQTTPublisher<C>>(
        id: &str,
        addr: &BrokerAddr,
        unit: Option<ConsumptionUnit>,
        connect: F,
    ) -> (r: MQTTInfo<C>)
        requires
            forall|c: &MqttConfig| call_requires(connect, (c, None::<&HardwareInfo>)),
        ensures
            r.config == (MqttConfig { unit, ..MqttConfig::default_for(r.config.id, *addr) }),
            r.config.id@ == id@,
            call_ensures(connect, (&r.config, None::<&HardwareInfo>), r.publisher),
            r.cumulative_energy@ == Map::<Seq<char>, u64>::empty(),
    {
        let mut config = MqttConfig::new(id.to_owned(), addr.clone());
        config.unit = unit;
        MQTTInfo::from_config(config, None, connect)
    }

    /// Connects a node with the given settings; no energy has been counted.
    pub fn from_config<F: FnOnce(&MqttConfig, Option<&HardwareInfo>) -> MQTTPublisher<C>>(
        config: MqttConfig,
        hardware_info: Option<&HardwareInfo>,
        connect: F,
    ) -> (r: MQTTInfo<C>)
        requires
            call_requires(connect, (&config, hardware_info)),
        ensures
            r.config == config,
            call_ensures(connect, (&config, hardware_info), r.publisher),
            r.cumulative_energy@ == Map::<Seq<char>, u64>::empty(),
    {
        let publisher = connect(&config, hardware_info);
        MQTTInfo { config, publisher, cumulative_energy: CumulativeEnergy::new() }
    }

    /// Publishes an event: each entry is counted towards the total of its
    /// component, and leaves with that total.
    pub fn publish_event(
        &mut self,
        data: &Vec<ComputedSensorData>,
        payloads: Vec<SensorPayload>,
        timestamp_ms: i64,
    ) -> (r: Vec<Result<(), MQTTError>>)
        requires
            payloads@.len() == data@.len(),
        ensures
            final(self).config == old(self).config,
            final(self).publisher == old(self).publisher,
            final(self).cumulative_energy@ == totals_through(
                old(self).cumulative_energy@,
                data@,
                data@.len() as int,
            ),
            r@.len() == data@.len(),
            forall|k: int|
                #![trigger r@[k]]
                0 <= k < r@.len() ==> envelope_sent(
                    old(self).publisher.client(),
                    sensor_data_topic(old(self).config.id@, component_name(data@[k])),
                    published_form(old(self).config.unit, payloads@[k]),
                    timestamp_ms,
                    published_total(old(self).cumulative_energy@, data@, k),
                    r@[k],
                ),
    {
        let ghost start = self.cumulative_energy@;
        let ghost all = payloads@;
        let mut results: Vec<Result<(), MQTTError>> = Vec::new();
        for payload in it: payloads
            invariant
                it.seq() == all,
                all.len() == data@.len(),
                self.config == old(self).config,
                self.publisher == old(self).publisher,
                self.cumulative_energy@ == totals_through(start, data@, it.index()),
                results@.len() == it.index(),
                forall|k: int|
                    #![trigger results@[k]]
                    0 <= k < results@.len() ==> envelope_sent(
                        old(self).publisher.client(),
                        sensor_data_topic(old(self).config.id@, component_name(data@[k])),
                        published_form(old(self).config.unit, all[k]),
                        timestamp_ms,
                        published_total(start, data@, k),
                        results@[k],
                    ),
        {
            let i: usize = results.len();
            let entry = &data[i];
            let sensor_type = entry.sensor_type();
            let name = to_lowercase(sensor_type);
            self.cumulative_energy.record(name.as_str(), entry.total_energy());
            let total = self.cumulative_energy.get(name.as_str());
            let result = publish_sensor_envelope(self, sensor_type, payload, timestamp_ms, total);
            results.push(result);
        }
        results
    }
}

/// Publishes one reading, in the unit that the node is set to, on the topic of
/// its sensor type.
pub fn publish_sensor_envelope<C: MQTTClient>(
    mqtt_info: &MQTTInfo<C>,
    sensor_type: &str,
    payload: SensorPayload,
    timestamp_ms: i64,
    total_energy_uj: Option<u64>,
) -> (r: Result<(), MQTTError>)
    ensures
        envelope_sent(
            mqtt_info.publisher.client(),
            sensor_data_topic(mqtt_info.config.id@, lowercase(sensor_type@)),
            published_form(mqtt_info.config.unit, payload),
            timestamp_ms,
            total_energy_uj,
            r,
        ),
        sensor_type.is_ascii() ==> envelope_sent(
            mqtt_info.publisher.client(),
            sensor_data_topic(
                mqtt_info.config.id@,
                sensor_type@.map_values(|c: char| ascii_lower(c)),
            ),
            published_form(mqtt_info.config.unit, payload),
            timestamp_ms,
            total_energy_uj,
            r,
        ),
{
    let topic = sensor_type_to_topic(mqtt_info.config.id.as_str(), sensor_type);
    let data = match mqtt_info.config.unit {
        Some(ConsumptionUnit::WattHour) => payload.watt_hours,
        _ => payload.measured,
    };
    mqtt_info.publisher.publish_envelope(topic.as_str(), data, timestamp_ms, total_energy_uj)
}

/// Counting an event, or a part of it, lets no total fall.
pub proof fn law_totals_never_fall_through_an_event(
    totals: Map<Seq<char>, u64>,
    data: Seq<ComputedSensorData>,
    j: int,
    k: int,
    name: Seq<char>,
)
    requires
        0 <= j <= k <= data.len(),
        totals_through(totals, data, j).contains_key(name),
    ensures
        totals_through(totals, data, k).contains_key(name),
        totals_through(totals, data, j)[name] <= totals_through(totals, data, k)[name],
    decreases k,
{
    if j < k {
        law_totals_never_fall_through_an_event(totals, data, j, k - 1, name);
        law_totals_never_fall(
            totals_through(totals, data, k - 1),
            component_name(data[k - 1]),
            computed_energy(data[k - 1]),
            name,
        );
    }
}

/// The totals that are published for one component never fall, and once there
/// is one, every later reading of the component carries one.
pub proof fn law_published_totals_never_fall(
    totals: Map<Seq<char>, u64>,
    data: Seq<ComputedSensorData>,
    j: int,
    k: int,
)
    requires
        0 <= j <= k < data.len(),
        component_name(data[j]) == component_name(data[k]),
        published_total(totals, data, j) is Some,
    ensures
        published_total(totals, data, k) is Some,
        published_total(totals, data, j)->0 <= published_total(totals, data, k)->0,
{
    law_totals_never_fall_through_an_event(totals, data, j + 1, k + 1, component_name(data[j]));
}

/// A reading that reports energy always carries a total, and the total counts
/// it.
pub proof fn law_energy_is_counted_before_it_is_published(
    totals: Map<Seq<char>, u64>,
    data: Seq<ComputedSensorData>,
    k: int,
)
    requires
        0 <= k < data.len(),
        computed_energy(data[k]) is Some,
    ensures
        published_total(totals, data, k) is Some,
        published_total(totals, data, k)->0 >= computed_energy(data[k])->0.uj,
{
}

/// The totals before event `m` of a series goes out, counted from the start of
/// the node.
pub open spec fn totals_before(
    events: Seq<Seq<ComputedSensorData>>,
    m: int,
) -> Map<Seq<char>, u64>
    decreases m,
{
    if m <= 0 {
        Map::empty()
    } else {
        totals_through(
            totals_before(events, m - 1),
            events[m - 1],
            events[m - 1].len() as int,
        )
    }
}

/// The entries of the first `m` events of a series, in order.
pub open spec fn entries_of(
    events: Seq<Seq<ComputedSensorData>>,
    m: int,
) -> Seq<ComputedSensorData>
    decreases m,
{
    if m <= 0 {
        Seq::empty()
    } else {
        entries_of(events, m - 1) + events[m - 1]
    }
}

/// The entries in which a component reports energy.
pub open spec fn reports_energy(name: Seq<char>) -> spec_fn(ComputedSensorData) -> bool {
    |d: ComputedSensorData| component_name(d) == name && computed_energy(d) is Some
}

/// All the energy that a component reported, as far as the counter goes;
/// nothing if it never reported any.
pub open spec fn total_reported(data: Seq<ComputedSensorData>, name: Seq<char>) -> Option<u64> {
    let reports = data.filter(reports_energy(name));
    if reports.len() == 0 {
        None
    } else {
        Some(
            saturated(
                energy_sum(reports.map_values(|d: ComputedSensorData| computed_energy(d))),
            ).uj,
        )
    }
}

proof fn lemma_total_reported(data: Seq<ComputedSensorData>, n: int, name: Seq<char>)
    requires
        0 <= n <= data.len(),
    ensures
        total_reported(data.take(n), name) == (if totals_through(
            Map::empty(),
            data,
            n,
        ).contains_key(name) {
            Some(totals_through(Map::empty(), data, n)[name])
        } else {
            None
        }),
    decreases n,
{
    let energy = |d: ComputedSensorData| computed_energy(d);
    if n == 0 {
        reveal(Seq::filter);
        assert(data.take(0).filter(reports_energy(name)).len() == 0);
    } else {
        lemma_total_reported(data, n - 1, name);
        let before = data.take(n - 1);
        let d = data[n - 1];
        assert(data.take(n) == before.push(d));
        lemma_filter_push(before, d, reports_energy(name));
        let reports = before.filter(reports_energy(name));
        if reports_energy(name)(d) {
            assert(reports.push(d).map_values(energy) == reports.map_values(energy).push(
                computed_energy(d),
            ));
            lemma_sum_push(reports.map_values(energy), computed_energy(d));
            if reports.len() == 0 {
                assert(reports.map_values(energy).len() == 0);
            }
            lemma_saturating_step(energy_sum(reports.map_values(energy)), computed_energy(d)->0);
        }
    }
}

/// A part of a series, counted on its own or on from what came before it.
proof fn lemma_totals_join(
    totals: Map<Seq<char>, u64>,
    a: Seq<ComputedSensorData>,
    b: Seq<ComputedSensorData>,
    n: int,
)
    requires
        0 <= n <= a.len() + b.len(),
    ensures
        totals_through(totals, a + b, n) == (if n <= a.len() {
            totals_through(totals, a, n)
        } else {
            totals_through(totals_through(totals, a, a.len() as int), b, n - a.len())
        }),
    decreases n,
{
    if n > 0 {
        lemma_totals_join(totals, a, b, n - 1);
        if n <= a.len() {
            assert((a + b)[n - 1] == a[n - 1]);
        } else {
            let then = totals_through(totals, a, a.len() as int);
            assert((a + b)[n - 1] == b[n - 1 - a.len()]);
            assert(totals_through(then, b, 0) == then);
        }
    }
}

/// Event `m` stands in the joined entries of the first `w` events, behind
/// those of the events before it, and so do the totals that it starts from.
proof fn lemma_joined(events: Seq<Seq<ComputedSensorData>>, m: int, w: int)
    requires
        0 <= m <= w <= events.len(),
    ensures
        entries_of(events, m).len() <= entries_of(events, w).len(),
        entries_of(events, w).take(entries_of(events, m).len() as int) == entries_of(events, m),
        totals_before(events, m) == totals_through(
            Map::empty(),
            entries_of(events, w),
            entries_of(events, m).len() as int,
        ),
    decreases w,
{
    let past = entries_of(events, m);
    if m < w {
        lemma_joined(events, m, w - 1);
        let shorter = entries_of(events, w - 1);
        assert((shorter + events[w - 1]).take(past.len() as int) == shorter.take(
            past.len() as int,
        ));
        lemma_totals_join(Map::empty(), shorter, events[w - 1], past.len() as int);
    } else if m > 0 {
        lemma_joined(events, m - 1, m - 1);
        let shorter = entries_of(events, m - 1);
        assert(past.take(past.len() as int) == past);
        lemma_totals_join(Map::empty(), shorter, events[m - 1], past.len() as int);
    } else {
        assert(past.take(0) == past);
    }
}

/// An entry of event `m` goes out with the total that it has in the joined
/// entries of the first `w` events.
proof fn lemma_joined_total(events: Seq<Seq<ComputedSensorData>>, m: int, k: int, w: int)
    requires
        0 <= m < w <= events.len(),
        0 <= k < events[m].len(),
    ensures
        entries_of(events, m).len() + k < entries_of(events, w).len(),
        entries_of(events, w).take(entries_of(events, m).len() + k + 1) == entries_of(events, m)
            + events[m].take(k + 1),
        entries_of(events, w)[entries_of(events, m).len() + k] == events[m][k],
        published_total(totals_before(events, m), events[m], k) == published_total(
            Map::empty(),
            entries_of(events, w),
            entries_of(events, m).len() + k,
        ),
{
    let past = entries_of(events, m);
    let with = entries_of(events, m + 1);
    let all = entries_of(events, w);
    let n = past.len() + k + 1;
    lemma_joined(events, m, m + 1);
    lemma_joined(events, m + 1, w);
    assert(all.take(with.len() as int) == with);
    assert(with.take(n) == past + events[m].take(k + 1));
    assert(all.take(n) == with.take(n));
    assert(all[n - 1] == with[n - 1]);
    lemma_joined(events, m, m);
    lemma_totals_join(Map::empty(), past, events[m], n);
    assert(all == with + all.skip(with.len() as int));
    lemma_totals_join(Map::empty(), with, all.skip(with.len() as int), n);
}

/// Over all the events that a node has published, the total that goes out with
/// a reading is all the energy that its component has reported so far, this
/// reading among it, and there is none as long as it has reported none.
pub proof fn law_published_totals_count_every_event(
    events: Seq<Seq<ComputedSensorData>>,
    m: int,
    k: int,
)
    requires
        0 <= m < events.len(),
        0 <= k < events[m].len(),
    ensures
        published_total(totals_before(events, m), events[m], k) == total_reported(
            entries_of(events, m) + events[m].take(k + 1),
            component_name(events[m][k]),
        ),
{
    lemma_joined_total(events, m, k, m + 1);
    lemma_total_reported(
        entries_of(events, m + 1),
        entries_of(events, m).len() + k + 1,
        component_name(events[m][k]),
    );
}

/// From one event to a later one, or within one, the total that goes out for a
/// component never falls, and once there is one there always is.
pub proof fn law_published_totals_never_fall_between_events(
    events: Seq<Seq<ComputedSensorData>>,
    m: int,
    j: int,
    w: int,
    k: int,
)
    requires
        0 <= m <= w < events.len(),
        0 <= j < events[m].len(),
        0 <= k < events[w].len(),
        m == w ==> j <= k,
        component_name(events[m][j]) == component_name(events[w][k]),
        published_total(totals_before(events, m), events[m], j) is Some,
    ensures
        published_total(totals_before(events, w), events[w], k) is Some,
        published_total(totals_before(events, m), events[m], j)->0 <= published_total(
            totals_before(events, w),
            events[w],
            k,
        )->0,
{
    lemma_joined_total(events, m, j, w + 1);
    lemma_joined_total(events, w, k, w + 1);
    if m < w {
        lemma_joined(events, m + 1, w);
    }
    law_published_totals_never_fall(
        Map::empty(),
        entries_of(events, w + 1),
        entries_of(events, m).len() + j,
        entries_of(events, w).len() + k,
    );
}

/// Nanoseconds in a second.
pub const SECOND_NS: u128 = 1_000_000_000;

/// Nanoseconds in a day.
pub const DAY_NS: u128 = 86_400_000_000_000;

/// Data older than these hours are averaged.
pub const AVERAGE_AFTER_HOURS: u64 = 24;

/// Data older than these hours are purged.
pub const PURGE_AFTER_HOURS: u64 = 24;

/// A reading of two clocks: one that never goes back, in nanoseconds, and the
/// time since the Unix epoch, in milliseconds.
#[derive(Clone, Copy, Debug, PartialEq, Eq, Structural)]
pub struct Clock {
    pub monotonic_ns: u128,
    pub unix_ms: u128,
}

/// Where the collection loop stands.
#[derive(Clone, Copy, Debug, PartialEq, Eq, Structural)]
pub enum RunPhase {
    /// Nothing has been done yet.
    Start,
    /// Old data are being purged for the first time.
    FirstPurge { started: u128 },
    /// The loop sleeps until the next sample.
    Asleep,
    /// Old data are being purged again.
    Purging,
    /// The sensors are being read.
    Collecting,
    /// The event is being saved.
    Saving,
    /// The event is being published.
    Publishing,
}

/// What the collection loop does next.
#[derive(Clone, Copy, Debug, PartialEq, Eq, Structural)]
pub enum RunAction {
    /// Average and purge old data, in the background.
    Purge,
    /// Wait, in nanoseconds, before the first sample.
    Wait(u128),
    /// Read the sensors; so many nanoseconds have passed since last time.
    Collect(u128),
    /// Save the event.
    Save,
    /// Publish the event.
    Publish,
    /// Sleep, in milliseconds, until the next sample.
    Sleep(u64),
}

/// The collection loop.
#[derive(Clone, Copy, Debug, PartialEq, Eq, Structural)]
pub struct RunLoop {
    pub saves: bool,
    pub publishes: bool,
    pub last_update: u128,
    pub last_purge: u128,
    pub phase: RunPhase,
}

/// The time that has passed; a clock that seems to go back shows none.
pub open spec fn elapsed(now: u128, then: u128) -> int {
    if now >= then {
        now - then
    } else {
        0
    }
}

/// The wait before the first sample: what is missing to a full second, so
/// that the first readings are not skewed.
pub open spec fn first_wait(passed: int) -> int {
    if passed < 1_000_000_000 {
        1_000_000_000 - passed
    } else {
        0
    }
}

/// The sleep until the next full second.
pub open spec fn sleep_until_second(unix_ms: u128) -> int {
    1000 - unix_ms % 1000
}

impl RunLoop {
    /// The loop in another phase.
    pub open spec fn at(self, phase: RunPhase) -> RunLoop {
        RunLoop { phase, ..self }
    }

    /// The sensors are read now.
    pub open spec fn collecting(self, now: u128) -> (RunLoop, RunAction) {
        (
            RunLoop { last_update: now, phase: RunPhase::Collecting, ..self },
            RunAction::Collect(elapsed(now, self.last_update) as u128),
        )
    }

    /// The event is at rest; the loop sleeps.
    pub open spec fn sleeping(self, clock: Clock) -> (RunLoop, RunAction) {
        (self.at(RunPhase::Asleep), RunAction::Sleep(sleep_until_second(clock.unix_ms) as u64))
    }

    /// The event has been saved, or needs no saving.
    pub open spec fn saved(self, clock: Clock) -> (RunLoop, RunAction) {
        if self.publishes {
            (self.at(RunPhase::Publishing), RunAction::Publish)
        } else {
            self.sleeping(clock)
        }
    }

    /// What follows once the current phase has ended.
    pub open spec fn next(self, clock: Clock) -> (RunLoop, RunAction) {
        let now = clock.monotonic_ns;
        match self.phase {
            RunPhase::Start => (self.at(RunPhase::FirstPurge { started: now }), RunAction::Purge),
            RunPhase::FirstPurge { started } => (
                RunLoop { last_purge: now, phase: RunPhase::Asleep, ..self },
                RunAction::Wait(first_wait(elapsed(now, started)) as u128),
            ),
            RunPhase::Asleep => if elapsed(now, self.last_purge) > 86_400_000_000_000 {
                (self.at(RunPhase::Purging), RunAction::Purge)
            } else {
                self.collecting(now)
            },
            RunPhase::Purging => RunLoop { last_purge: now, ..self }.collecting(now),
            RunPhase::Collecting => if self.saves {
                (self.at(RunPhase::Saving), RunAction::Save)
            } else {
                self.saved(clock)
            },
            RunPhase::Saving => self.saved(clock),
            RunPhase::Publishing => self.sleeping(clock),
        }
    }

    /// A loop that has yet to start.
    pub fn new(saves: bool, publishes: bool, now: u128) -> (r: RunLoop)
        ensures
            r == (RunLoop {
                saves,
                publishes,
                last_update: now,
                last_purge: now,
                phase: RunPhase::Start,
            }),
    {
        RunLoop { saves, publishes, last_update: now, last_purge: now, phase: RunPhase::Start }
    }

    fn begin_collecting(&mut self, now: u128) -> (r: RunAction)
        ensures
            (*final(self), r) == old(self).collecting(now),
    {
        let since = elapsed_since(now, self.last_update);
        self.last_update = now;
        self.phase = RunPhase::Collecting;
        RunAction::Collect(since)
    }

    fn begin_sleeping(&mut self, clock: Clock) -> (r: RunAction)
        ensures
            (*final(self), r) == old(self).sleeping(clock),
    {
        let past: u64 = (clock.unix_ms % 1000) as u64;
        self.phase = RunPhase::Asleep;
        RunAction::Sleep(1000 - past)
    }

    fn end_saving(&mut self, clock: Clock) -> (r: RunAction)
        ensures
            (*final(self), r) == old(self).saved(clock),
    {
        if self.publishes {
            self.phase = RunPhase::Publishing;
            RunAction::Publish
        } else {
            self.begin_sleeping(clock)
        }
    }

    /// Moves on once the last action is done; the clock is read at that
    /// moment.
    pub fn step(&mut self, clock: Clock) -> (r: RunAction)
        ensures
            (*final(self), r) == old(self).next(clock),
    {
        let now = clock.monotonic_ns;
        match self.phase {
            RunPhase::Start => {
                self.phase = RunPhase::FirstPurge { started: now };
                RunAction::Purge
            },
            RunPhase::FirstPurge { started } => {
                let passed = elapsed_since(now, started);
                self.last_purge = now;
                self.phase = RunPhase::Asleep;
                if passed < SECOND_NS {
                    RunAction::Wait(SECOND_NS - passed)
                } else {
                    RunAction::Wait(0)
                }
            },
            RunPhase::Asleep => {
                if elapsed_since(now, self.last_purge) > DAY_NS {
                    self.phase = RunPhase::Purging;
                    RunAction::Purge
                } else {
                    self.begin_collecting(now)
                }
            },
            RunPhase::Purging => {
                self.last_purge = now;
                self.begin_collecting(now)
            },
            RunPhase::Collecting => {
                if self.saves {
                    self.phase = RunPhase::Saving;
                    RunAction::Save
                } else {
                    self.end_saving(clock)
                }
            },
            RunPhase::Saving => self.end_saving(clock),
            RunPhase::Publishing => self.begin_sleeping(clock),
        }
    }
}

fn elapsed_since(now: u128, then: u128) -> (r: u128)
    ensures
        r == elapsed(now, then),
{
    if now >= then {
        now - then
    } else {
        0
    }
}

/// The time of an envelope: the low 64 bits of the milliseconds, which is all
/// of them for a very long time to come.
pub fn timestamp_ms(unix_ms: u128) -> (r: i64)
    ensures
        r == unix_ms as i64,
        unix_ms <= i64::MAX ==> r == unix_ms,
{
    #[verifier::truncate]
    let r: i64 = unix_ms as i64;
    r
}

/// A sleep ends on the next full second, and is never longer than a second.
pub proof fn law_samples_are_taken_on_the_second(unix_ms: u128)
    ensures
        1 <= sleep_until_second(unix_ms) <= 1000,
        (unix_ms + sleep_until_second(unix_ms)) % 1000 == 0,
{
}

/// The intervals of two samples in a row meet: what is measured now covers
/// the time since the last sample, and nothing else moves that mark.
pub proof fn law_samples_cover_all_time(run: RunLoop, clock: Clock)
    ensures
        match run.next(clock).1 {
            RunAction::Collect(since) => {
                &&& since == elapsed(clock.monotonic_ns, run.last_update)
                &&& run.next(clock).0.last_update == clock.monotonic_ns
            },
            _ => run.next(clock).0.last_update == run.last_update,
        },
{
}

/// Once the loop runs, old data are purged when more than a day has passed
/// since they last were, and not before.
pub proof fn law_old_data_are_purged_daily(run: RunLoop, clock: Clock)
    requires
        !(run.phase is Start),
    ensures
        run.next(clock).1 == RunAction::Purge <==> run.phase is Asleep && elapsed(
            clock.monotonic_ns,
            run.last_purge,
        ) > 86_400_000_000_000,
{
}

/// Whether the loop saves and publishes never changes; it saves and publishes
/// only where it does at all.
pub proof fn law_the_loop_keeps_to_its_tasks(run: RunLoop, clock: Clock)
    ensures
        run.next(clock).0.saves == run.saves,
        run.next(clock).0.publishes == run.publishes,
        run.next(clock).1 == RunAction::Save ==> run.saves,
        run.next(clock).1 == RunAction::Publish ==> run.publishes,
{
}

/// Every sample is saved if there is a database, then published if there is a
/// broker, and only then does the loop sleep.
pub proof fn law_samples_are_saved_before_they_are_published(run: RunLoop, a: Clock, b: Clock, c: Clock)
    requires
        run.phase is Collecting,
    ensures
        run.saves && run.publishes ==> {
            let (first, save) = run.next(a);
            let (second, publish) = first.next(b);
            save == RunAction::Save && publish == RunAction::Publish && second.next(c).1 is Sleep
        },
        run.saves && !run.publishes ==> {
            let (first, save) = run.next(a);
            save == RunAction::Save && first.next(b).1 is Sleep
        },
        !run.saves && run.publishes ==> {
            let (first, publish) = run.next(a);
            publish == RunAction::Publish && first.next(b).1 is Sleep
        },
        !run.saves && !run.publishes ==> run.next(a).1 is Sleep,
{
}

/// Background sensor-collection application. The database is a handle that is
/// only carried.
pub struct CollectorApp<S, C: MQTTClient, D> {
    pub database: Option<D>,
    pub mqtt_info: Option<MQTTInfo<C>>,
    pub sensors: Vec<SensorType<S>>,
    pub schedule: RunLoop,
}

impl<S, C: MQTTClient, D> CollectorApp<S, C, D> {
    /// The schedule saves if and only if there is a database, and publishes if
    /// and only if there is a broker.
    pub open spec fn well_formed(self) -> bool {
        &&& self.schedule.saves == (self.database is Some)
        &&& self.schedule.publishes == (self.mqtt_info is Some)
    }

    /// Creates a new collector. `database` is what came of opening the
    /// database, if events are to be saved.
    pub fn new(
        database: Option<Result<D, String>>,
        mqtt_info: Option<MQTTInfo<C>>,
        now: u128,
    ) -> (r: Result<CollectorApp<S, C, D>, String>)
        ensures
            match database {
                Some(Err(e)) => r matches Err(m) && m@ == "Failed to create database: "@ + e@,
                _ => r matches Ok(app) && {
                    &&& app.well_formed()
                    &&& app.database == (match database {
                        Some(Ok(d)) => Some(d),
                        _ => None,
                    })
                    &&& app.mqtt_info == mqtt_info
                    &&& app.sensors@.len() == 0
                    &&& app.schedule == (RunLoop {
                        saves: database is Some,
                        publishes: mqtt_info is Some,
                        last_update: now,
                        last_purge: now,
                        phase: RunPhase::Start,
                    })
                },
            },
    {
        let database = match database {
            Some(Ok(d)) => Some(d),
            Some(Err(e)) => {
                return Err(concat2("Failed to create database: ", e.as_str()));
            },
            None => None,
        };
        let schedule = RunLoop::new(database.is_some(), mqtt_info.is_some(), now);
        Ok(CollectorApp { database, mqtt_info, sensors: Vec::new(), schedule })
    }

    /// Takes the sensors that were found, and starts to set the node up.
    pub fn initialize(&mut self, found: Vec<SensorType<S>>) -> (r: Initialization)
        ensures
            final(self).sensors@ == old(self).sensors@ + found@,
            final(self).database == old(self).database,
            final(self).mqtt_info == old(self).mqtt_info,
            final(self).schedule == old(self).schedule,
            final(self).well_formed() == old(self).well_formed(),
            r.well_formed(),
            r.has_database == (old(self).database is Some),
            r.node_id == (match old(self).mqtt_info {
                Some(m) => Some(m.config.id),
                None => None,
            }),
            r.phase == (if old(self).database is Some {
                InitPhase::Tables
            } else {
                InitPhase::Gathering
            }),
    {
        let mut found = found;
        self.sensors.append(&mut found);
        let node_id = match &self.mqtt_info {
            Some(m) => Some(m.config.id.clone()),
            None => None,
        };
        Initialization::start(self.database.is_some(), node_id)
    }

    /// Moves the collection loop on once its last action is done.
    pub fn run(&mut self, clock: Clock) -> (r: RunAction)
        ensures
            (final(self).schedule, r) == old(self).schedule.next(clock),
            final(self).sensors == old(self).sensors,
            final(self).database == old(self).database,
            final(self).mqtt_info == old(self).mqtt_info,
            final(self).well_formed() == old(self).well_formed(),
            old(self).well_formed() && r == RunAction::Save ==> old(self).database is Some,
            old(self).well_formed() && r == RunAction::Publish ==> old(self).mqtt_info is Some,
    {
        self.schedule.step(clock)
    }

    /// How many processes the next event lists.
    pub fn process_cap(&self) -> (r: Option<usize>)
        ensures
            r == Some(
                process_cap_for(
                    match self.mqtt_info {
                        Some(m) => Some(m.config.process_mode),
                        None => None,
                    },
                ),
            ),
    {
        match &self.mqtt_info {
            Some(m) => process_cap(Some(m.config.process_mode)),
            None => process_cap(None),
        }
    }
}

/// The loop after a series of steps, each at its reading of the clocks.
pub open spec fn stepped(run: RunLoop, clocks: Seq<Clock>) -> RunLoop
    decreases clocks.len(),
{
    if clocks.len() == 0 {
        run
    } else {
        stepped(run, clocks.drop_last()).next(clocks.last()).0
    }
}

/// However long it runs, the loop of a collector saves if and only if there is
/// a database, and publishes if and only if there is a broker.
pub proof fn law_the_schedule_fits_the_collector<S, C: MQTTClient, D>(
    app: CollectorApp<S, C, D>,
    clocks: Seq<Clock>,
)
    requires
        app.well_formed(),
    ensures
        stepped(app.schedule, clocks).saves == (app.database is Some),
        stepped(app.schedule, clocks).publishes == (app.mqtt_info is Some),
    decreases clocks.len(),
{
    if clocks.len() > 0 {
        law_the_schedule_fits_the_collector(app, clocks.drop_last());
        law_the_loop_keeps_to_its_tasks(
            stepped(app.schedule, clocks.drop_last()),
            clocks.last(),
        );
    }
}

impl<S: Sensor, C: MQTTClient, D> CollectorApp<S, C, D> {
    /// Takes a sample: makes an event from all sensors, and accounts for it
    /// with as many processes as the node lists. It is this event that is
    /// saved and published.
    pub fn collect<
        F: Fn(&EstimateRequest, u128) -> EnergyUj,
        A: Fn(&GPUSensor<S>, u64) -> Result<Vec<(u32, Float64)>, SensorError>,
        M: FnOnce(HashMap<u32, Float64>) -> Vec<ProcessData>,
        R: FnOnce(ProcessAccount) -> Vec<ProcessData>,
    >(
        &self,
        time: u128,
        since_last_update: u128,
        timestamp_secs: u64,
        estimate: F,
        ask: A,
        measure: M,
        rank: R,
    ) -> (r: Event<ComputedSensorData>)
        requires
            forall|q: &EstimateRequest| call_requires(estimate, (q, since_last_update)),
            forall|g: &GPUSensor<S>| call_requires(ask, (g, timestamp_secs)),
            forall|usage: HashMap<u32, Float64>| call_requires(measure, (usage,)),
            forall|a: ProcessAccount| call_requires(rank, (a,)),
        ensures
            exists|event: Event<SensorData>|
                {
                    &&& #[trigger] made_from(
                        event,
                        self.sensors@,
                        time,
                        since_last_update,
                        timestamp_secs,
                        estimate,
                        ask,
                        measure,
                    )
                    &&& accounted_under(
                        r,
                        event,
                        Some(
                            process_cap_for(
                                match self.mqtt_info {
                                    Some(m) => Some(m.config.process_mode),
                                    None => None,
                                },
                            ),
                        ),
                        rank,
                    )
                },
    {
        let event = create_event_from_sensors(
            &self.sensors,
            time,
            since_last_update,
            timestamp_secs,
            estimate,
            ask,
            measure,
        );
        to_computed_event_with_cap(&event, self.process_cap(), rank)
    }
}

/// A reading is published on the topic of its own kind: a disk's on that of disks,
/// a network's on that of networks, and so on; and it is that name under which its
/// energy is counted.
pub proof fn law_readings_go_out_under_their_own_name(id: Seq<char>, d: ComputedSensorData)
    ensures
        d is CPU ==> sensor_data_topic(id, component_name(d)) == id + "/sensor_data/"@ + "cpu"@,
        d is GPU ==> sensor_data_topic(id, component_name(d)) == id + "/sensor_data/"@ + "gpu"@,
        d is Ram ==> sensor_data_topic(id, component_name(d)) == id + "/sensor_data/"@ + "ram"@,
        d is Disk ==> sensor_data_topic(id, component_name(d)) == id + "/sensor_data/"@ + "disk"@,
        d is Network ==> sensor_data_topic(id, component_name(d)) == id + "/sensor_data/"@ + "network"@,
        d is Total ==> sensor_data_topic(id, component_name(d)) == id + "/sensor_data/"@ + "total"@,
        d is Process ==> sensor_data_topic(id, component_name(d)) == id + "/sensor_data/"@ + "process"@,
{
}

/// Each entry in turn is counted towards the total of its kind before it goes out:
/// the total that it leaves with is what its kind had before, and what it reports
/// itself, as far as the counter goes; none where its kind never reported any. The
/// totals of other kinds stay as they were.
pub proof fn law_every_reading_leaves_with_its_total(
    totals: Map<Seq<char>, u64>,
    data: Seq<ComputedSensorData>,
    k: int,
    other: Seq<char>,
)
    requires
        0 <= k < data.len(),
    ensures
        totals_through(totals, data, 0) == totals,
        ({
            let name = match data[k] {
                ComputedSensorData::CPU(_) => "cpu"@,
                ComputedSensorData::GPU(_) => "gpu"@,
                ComputedSensorData::Ram(_) => "ram"@,
                ComputedSensorData::Disk(_) => "disk"@,
                ComputedSensorData::Network(_) => "network"@,
                ComputedSensorData::Total(_) => "total"@,
                ComputedSensorData::Process(_) => "process"@,
            };
            let energy = match data[k] {
                ComputedSensorData::CPU(c) => c.total_energy,
                ComputedSensorData::GPU(g) => g.total_energy,
                ComputedSensorData::Ram(m) => m.total_energy,
                ComputedSensorData::Disk(d) => d.total_energy,
                ComputedSensorData::Network(n) => n.total_energy,
                ComputedSensorData::Total(t) => Some(t.total_energy),
                ComputedSensorData::Process(_) => None,
            };
            let before = totals_through(totals, data, k);
            let after = totals_through(totals, data, k + 1);
            let sum: int = (if before.contains_key(name) {
                before[name] as int
            } else {
                0
            }) + (match energy {
                Some(e) => e.uj as int,
                None => 0,
            });
            let shown = published_total(totals, data, k);
            &&& shown is Some <==> before.contains_key(name) || energy is Some
            &&& shown is Some ==> shown->0 == (if sum <= u64::MAX {
                sum
            } else {
                u64::MAX as int
            })
            &&& after.contains_key(name) <==> shown is Some
            &&& shown is Some ==> after[name] == shown->0
            &&& other != name ==> (after.contains_key(other) <==> before.contains_key(other))
            &&& other != name && before.contains_key(other) ==> after[other] == before[other]
        }),
{
}

/// In watt-hours a reading goes out as it was turned into them; in any other unit,
/// or in none, as it was measured.
pub proof fn law_readings_go_out_in_the_unit_that_is_set(
    unit: Option<ConsumptionUnit>,
    payload: SensorPayload,
)
    ensures
        unit == Some(ConsumptionUnit::WattHour) ==> published_form(unit, payload) == payload.watt_hours,
        unit != Some(ConsumptionUnit::WattHour) ==> published_form(unit, payload) == payload.measured,
{
}

/// The collection loop, step by step. It purges at once; then waits until a second
/// has passed since; then it takes samples, after a purge whenever more than a day
/// has passed since the last one. A sample covers the time since the one before. It
/// is saved and published as the loop is set to, and then the loop sleeps until the
/// next full second.
pub proof fn law_the_loop_goes_step_by_step(run: RunLoop, clock: Clock)
    ensures
        ({
            let now = clock.monotonic_ns;
            let (next, action) = run.next(clock);
            let asleep = next.phase is Asleep && action == RunAction::Sleep(
                (1000 - clock.unix_ms % 1000) as u64,
            );
            let published = if run.publishes {
                next.phase is Publishing && action == RunAction::Publish
            } else {
                asleep
            };
            let collected = next.phase is Collecting && next.last_update == now && action
                == RunAction::Collect(
                (if now >= run.last_update {
                    now - run.last_update
                } else {
                    0
                }) as u128,
            );
            &&& match run.phase {
                RunPhase::Start => next.phase == (RunPhase::FirstPurge { started: now }) && action
                    == RunAction::Purge,
                RunPhase::FirstPurge { started } => next.phase is Asleep && next.last_purge == now
                    && action == RunAction::Wait(
                    (if now < started {
                        1_000_000_000
                    } else if now - started < 1_000_000_000 {
                        1_000_000_000 - (now - started)
                    } else {
                        0
                    }) as u128,
                ),
                RunPhase::Asleep => if now - run.last_purge > 86_400_000_000_000 {
                    next.phase is Purging && action == RunAction::Purge
                } else {
                    collected
                },
                RunPhase::Purging => collected && next.last_purge == now,
                RunPhase::Collecting => if run.saves {
                    next.phase is Saving && action == RunAction::Save
                } else {
                    published
                },
                RunPhase::Saving => published,
                RunPhase::Publishing => asleep,
            }
            &&& !(run.phase is FirstPurge) && !(run.phase is Purging) ==> next.last_purge
                == run.last_purge
            &&& !(next.phase is Collecting) ==> next.last_update == run.last_update
        }),
{
}

/// Data are averaged and purged once they are a day old, the time between two
/// purges.
pub proof fn law_data_are_kept_for_a_day()
    ensures
        AVERAGE_AFTER_HOURS * 3600 * SECOND_NS == DAY_NS,
        PURGE_AFTER_HOURS * 3600 * SECOND_NS == DAY_NS,
        DAY_NS == 86400 * SECOND_NS,
        SECOND_NS == 1_000_000_000,
{
}

/// A collector starts without sensors, with the database that could be opened and
/// the broker that it is given, its loop yet to start; a database that cannot be
/// opened keeps it from being made, for the reason that was given.
pub proof fn law_collectors_start_with_what_they_are_given<S, C: MQTTClient, D>(
    database: Option<Result<D, String>>,
    mqtt_info: Option<MQTTInfo<C>>,
    now: u128,
    r: Result<CollectorApp<S, C, D>, String>,
)
    requires
        call_ensures(CollectorApp::<S, C, D>::new, (database, mqtt_info, now), r),
    ensures
        r is Err <==> database matches Some(Err(_)),
        r matches Err(m) ==> m@ == "Failed to create database: "@ + database->0->Err_0@,
        r matches Ok(app) ==> {
            &&& app.database is Some <==> database is Some
            &&& app.database matches Some(d) ==> d == database->0->Ok_0
            &&& app.mqtt_info == mqtt_info
            &&& app.sensors@.len() == 0
            &&& app.schedule.saves == (database is Some)
            &&& app.schedule.publishes == (mqtt_info is Some)
            &&& app.schedule.last_update == now
            &&& app.schedule.last_purge == now
            &&& app.schedule.phase is Start
        },
{
}

/// A node is connected with the settings that it is given, or with plain ones but
/// for the unit, and has counted nothing yet.
pub proof fn law_nodes_start_with_nothing_counted<
    C: MQTTClient,
    F: FnOnce(&MqttConfig, Option<&HardwareInfo>) -> MQTTPublisher<C>,
>(
    id: &str,
    addr: BrokerAddr,
    unit: Option<ConsumptionUnit>,
    config: MqttConfig,
    connect: F,
    plain: MQTTInfo<C>,
    given: MQTTInfo<C>,
    name: Seq<char>,
)
    requires
        call_ensures(MQTTInfo::<C>::new::<F>, (id, &addr, unit, connect), plain),
        call_ensures(MQTTInfo::<C>::from_config::<F>, (config, None, connect), given),
    ensures
        !plain.cumulative_energy@.contains_key(name),
        !given.cumulative_energy@.contains_key(name),
        plain.config.id@ == id@,
        plain.config.addr == addr,
        plain.config.unit == unit,
        plain.config.process_mode == ProcessPublishMode::Capped(10),
        !plain.config.home_assistant,
        plain.config.user is None,
        plain.config.pass is None,
        !plain.config.tls,
        given.config == config,
        call_ensures(connect, (&config, None::<&HardwareInfo>), given.publisher),
        call_ensures(connect, (&plain.config, None::<&HardwareInfo>), plain.publisher),
{
}

/// The milliseconds of an envelope are those of the clock.
pub proof fn law_timestamps_are_those_of_the_clock(unix_ms: u128, r: i64)
    requires
        call_ensures(timestamp_ms, (unix_ms,), r),
        unix_ms <= i64::MAX,
    ensures
        r == unix_ms,
{
}

/// A sample has the time that it was taken at, and is an event made from the
/// collector's own sensors and accounted for with as many processes as the node
/// publishes, or ten where there is no broker.
pub proof fn law_samples_are_made_from_the_sensors<
    S: Sensor,
    C: MQTTClient,
    D,
    F: Fn(&EstimateRequest, u128) -> EnergyUj,
    A: Fn(&GPUSensor<S>, u64) -> Result<Vec<(u32, Float64)>, SensorError>,
    M: FnOnce(HashMap<u32, Float64>) -> Vec<ProcessData>,
    R: FnOnce(ProcessAccount) -> Vec<ProcessData>,
>(
    app: CollectorApp<S, C, D>,
    time: u128,
    since_last_update: u128,
    timestamp_secs: u64,
    estimate: F,
    ask: A,
    measure: M,
    rank: R,
    r: Event<ComputedSensorData>,
)
    requires
        call_ensures(
            CollectorApp::<S, C, D>::collect::<F, A, M, R>,
            (&app, time, since_last_update, timestamp_secs, estimate, ask, measure, rank),
            r,
        ),
    ensures
        r.time == time,
        r.data@.last() is Process,
        ({
            let cap: usize = match app.mqtt_info {
                Some(m) => match m.config.process_mode {
                    ProcessPublishMode::Disabled => 0,
                    ProcessPublishMode::Capped(n) => n,
                },
                None => 10,
            };
            &&& r.data@.last()->Process_0@.len() <= cap
            &&& exists|event: Event<SensorData>|
                {
                    &&& #[trigger] made_from(
                        event,
                        app.sensors@,
                        time,
                        since_last_update,
                        timestamp_secs,
                        estimate,
                        ask,
                        measure,
                    )
                    &&& accounted_under(r, event, Some(cap), rank)
                }
        }),
{
}

/// A single reading goes to the topic of its sensor type, in the unit that is set,
/// with the time and the total that are given.
pub proof fn law_single_readings_go_to_the_topic_of_their_type<C: MQTTClient>(
    info: MQTTInfo<C>,
    sensor_type: &str,
    payload: SensorPayload,
    timestamp_ms: i64,
    total_energy_uj: Option<u64>,
    r: Result<(), MQTTError>,
)
    requires
        call_ensures(
            publish_sensor_envelope::<C>,
            (&info, sensor_type, payload, timestamp_ms, total_energy_uj),
            r,
        ),
    ensures
        envelope_sent(
            info.publisher.client(),
            info.config.id@ + "/sensor_data/"@ + lowercase(sensor_type@),
            if info.config.unit == Some(ConsumptionUnit::WattHour) {
                payload.watt_hours
            } else {
                payload.measured
            },
            timestamp_ms,
            total_energy_uj,
            r,
        ),
{
}

/// Publishing an event hands over one message for each entry, in their order: on
/// the topic of the entry's kind, in the unit that is set, with the given time and
/// with the running total of that kind. The totals go on from there; the settings
/// and the connection stay as they are.
pub proof fn law_events_are_published_entry_by_entry<C: MQTTClient>(
    node: &mut MQTTInfo<C>,
    data: Vec<ComputedSensorData>,
    payloads: Vec<SensorPayload>,
    timestamp_ms: i64,
    r: Vec<Result<(), MQTTError>>,
    k: int,
)
    requires
        payloads@.len() == data@.len(),
        call_ensures(MQTTInfo::<C>::publish_event, (node, &data, payloads, timestamp_ms), r),
    ensures
        final(node).config == old(node).config,
        final(node).publisher == old(node).publisher,
        r@.len() == data@.len(),
        0 <= k < data@.len() ==> {
            let name = match data@[k] {
                ComputedSensorData::CPU(_) => "cpu"@,
                ComputedSensorData::GPU(_) => "gpu"@,
                ComputedSensorData::Ram(_) => "ram"@,
                ComputedSensorData::Disk(_) => "disk"@,
                ComputedSensorData::Network(_) => "network"@,
                ComputedSensorData::Total(_) => "total"@,
                ComputedSensorData::Process(_) => "process"@,
            };
            envelope_sent(
                old(node).publisher.client(),
                old(node).config.id@ + "/sensor_data/"@ + name,
                if old(node).config.unit == Some(ConsumptionUnit::WattHour) {
                    payloads@[k].watt_hours
                } else {
                    payloads@[k].measured
                },
                timestamp_ms,
                published_total(old(node).cumulative_energy@, data@, k),
                r@[k],
            )
        },
        data@.len() == 1 ==> final(node).cumulative_energy@ == totals_after(
            old(node).cumulative_energy@,
            component_name(data@[0]),
            computed_energy(data@[0]),
        ),
        final(node).cumulative_energy@ == totals_through(
            old(node).cumulative_energy@,
            data@,
            data@.len() as int,
        ),
{
    if 0 <= k < data@.len() {
        let result = r@[k];
    }
    if data@.len() == 1 {
        let start = old(node).cumulative_energy@;
        assert(totals_through(start, data@, 0) == start);
    }
}

/// Setting a collector up adds the sensors that were found behind those that it
/// has, and starts with the tables if there is a database.
pub proof fn law_collectors_take_the_sensors_that_were_found<S, C: MQTTClient, D>(
    app: &mut CollectorApp<S, C, D>,
    found: Vec<SensorType<S>>,
    r: Initialization,
)
    requires
        call_ensures(CollectorApp::<S, C, D>::initialize, (app, found), r),
    ensures
        final(app).sensors@ == old(app).sensors@ + found@,
        final(app).database == old(app).database,
        final(app).mqtt_info == old(app).mqtt_info,
        final(app).schedule == old(app).schedule,
        r.phase is Tables <==> old(app).database is Some,
        r.phase is Gathering <==> old(app).database is None,
        r.has_database <==> old(app).database is Some,
        r.node_id is Some <==> old(app).mqtt_info is Some,
        r.node_id matches Some(id) ==> id == old(app).mqtt_info->0.config.id,
{
}

/// What a collector does next follows from its schedule and the clocks, and
/// nothing but the schedule changes.
pub proof fn law_collectors_follow_their_schedule<S, C: MQTTClient, D>(
    app: &mut CollectorApp<S, C, D>,
    clock: Clock,
    r: RunAction,
)
    requires
        call_ensures(CollectorApp::<S, C, D>::run, (app, clock), r),
    ensures
        final(app).sensors == old(app).sensors,
        final(app).database == old(app).database,
        final(app).mqtt_info == old(app).mqtt_info,
        (final(app).schedule, r) == old(app).schedule.next(clock),
        r is Collect ==> final(app).schedule.last_update == clock.monotonic_ns,
        r == RunAction::Save ==> old(app).schedule.saves,
        r == RunAction::Publish ==> old(app).schedule.publishes,
{
}

} // verus!
