//! From sensor readings to an event: which entry carries which energy.

use crate::energy::{energy_of, energy_sum, lemma_sum_push, lemma_sum_update, EnergyUj};
use crate::process::{get_process_gpu_usage, gpu_sensors, merged_usage, usage_asked};
use crate::sensor::{
    entry_energy, CPUData, Event, Float64, GPUData, GPUSensor, ProcessData, RamData, Sensor,
    SensorData, SensorError, SensorType,
};
use std::collections::HashMap;
use vstd::prelude::*;

verus! {

/// The GPU that a reading comes from.
#[derive(Debug)]
pub struct GpuTag {
    pub name: String,
    pub integrated: bool,
}

/// What one sensor answered; `gpu` tells whether it is a GPU, and which.
#[derive(Debug)]
pub struct SensorReading {
    pub gpu: Option<GpuTag>,
    pub result: Result<SensorData, SensorError>,
}

/// A GPU entry without energy, whose energy is to be estimated from its usage.
#[derive(Debug)]
pub struct EstimateRequest {
    pub index: usize,
    pub name: String,
    pub usage: Float64,
}

/// An event in the making.
#[derive(Debug)]
pub struct EventDraft {
    pub data: Vec<SensorData>,
    pub requests: Vec<EstimateRequest>,
}

/// The position of the last item that meets a condition.
pub open spec fn last_where<T>(s: Seq<T>, p: spec_fn(T) -> bool) -> Option<int>
    decreases s.len(),
{
    if s.len() == 0 {
        None
    } else if p(s.last()) {
        Some(s.len() - 1)
    } else {
        last_where(s.drop_last(), p)
    }
}

/// The position of the first item from `from` on that meets a condition.
pub open spec fn first_where<T>(s: Seq<T>, from: int, p: spec_fn(T) -> bool) -> Option<int>
    decreases s.len() - from,
{
    if from < 0 || from >= s.len() {
        None
    } else if p(s[from]) {
        Some(from)
    } else {
        first_where(s, from + 1, p)
    }
}

/// The sensor answered with data.
pub open spec fn answered() -> spec_fn(SensorReading) -> bool {
    |r: SensorReading| r.result is Ok
}

/// The processor metered its graphics unit.
pub open spec fn meters_igpu() -> spec_fn(SensorReading) -> bool {
    |r: SensorReading| r.pp1() is Some
}

/// The processor metered its graphics unit, and it used energy.
pub open spec fn igpu_used_energy() -> spec_fn(SensorReading) -> bool {
    |r: SensorReading| r.pp1() matches Some(e) && e.uj > 0
}

/// The processor metered the memory, and it used energy.
pub open spec fn dram_used_energy() -> spec_fn(SensorReading) -> bool {
    |r: SensorReading| r.dram() matches Some(e) && e.uj > 0
}

/// The data are those of a memory sensor.
pub open spec fn is_ram() -> spec_fn(SensorReading) -> bool {
    |r: SensorReading| r.result matches Ok(SensorData::Ram(_))
}

/// The sensor is an integrated GPU.
pub open spec fn is_integrated() -> spec_fn(SensorReading) -> bool {
    |r: SensorReading| r.gpu matches Some(t) && t.integrated
}

/// A GPU entry without energy.
pub open spec fn lacks_energy() -> spec_fn(SensorData) -> bool {
    |d: SensorData| d matches SensorData::GPU(g) && g.total_energy is None
}

impl SensorReading {
    /// The metered energy of the graphics unit.
    pub open spec fn pp1(self) -> Option<EnergyUj> {
        match self.result {
            Ok(SensorData::CPU(c)) => c.pp1_energy,
            _ => None,
        }
    }

    /// The metered energy of the memory.
    pub open spec fn dram(self) -> Option<EnergyUj> {
        match self.result {
            Ok(SensorData::CPU(c)) => c.dram_energy,
            _ => None,
        }
    }
}

/// An entry with the metered parts taken out: what the graphics unit used is
/// no longer counted with the processor.
pub open spec fn stripped(d: SensorData) -> SensorData {
    match d {
        SensorData::CPU(c) => SensorData::CPU(
            CPUData {
                total_energy: match (c.total_energy, c.pp1_energy) {
                    (Some(total), Some(pp1)) => Some(total.minus(pp1)),
                    _ => c.total_energy,
                },
                pp1_energy: None,
                dram_energy: None,
                usage_percent: c.usage_percent,
            },
        ),
        _ => d,
    }
}

/// A memory or GPU entry with its energy set.
pub open spec fn with_energy(d: SensorData, e: EnergyUj) -> SensorData {
    match d {
        SensorData::Ram(r) => SensorData::Ram(
            RamData { total_energy: Some(e), usage_percent: r.usage_percent },
        ),
        SensorData::GPU(g) => SensorData::GPU(
            GPUData {
                total_energy: Some(e),
                usage_percent: g.usage_percent,
                vram_usage_percent: g.vram_usage_percent,
                name: g.name,
            },
        ),
        _ => d,
    }
}

/// The readings with data, in the order of the sensors.
pub open spec fn kept(readings: Seq<SensorReading>) -> Seq<SensorReading> {
    readings.filter(answered())
}

/// The entries as the sensors gave them, the metered parts taken out.
pub open spec fn measured(readings: Seq<SensorReading>) -> Seq<SensorData> {
    kept(readings).map_values(|r: SensorReading| stripped(r.result->Ok_0))
}

/// The energy of the graphics unit: the last that was metered and not zero.
pub open spec fn igpu_energy(readings: Seq<SensorReading>) -> Option<EnergyUj> {
    match last_where(kept(readings), igpu_used_energy()) {
        Some(i) => kept(readings)[i].pp1(),
        None => None,
    }
}

/// The energy of the memory: the last that was metered and not zero.
pub open spec fn dram_energy(readings: Seq<SensorReading>) -> Option<EnergyUj> {
    match last_where(kept(readings), dram_used_energy()) {
        Some(i) => kept(readings)[i].dram(),
        None => None,
    }
}

/// The entry of the last integrated GPU that answered.
pub open spec fn integrated_index(readings: Seq<SensorReading>) -> Option<int> {
    last_where(kept(readings), is_integrated())
}

/// The name of the first integrated GPU, whether it answered or not.
pub open spec fn integrated_name(readings: Seq<SensorReading>) -> Option<String> {
    match first_where(readings, 0, is_integrated()) {
        Some(i) => Some(readings[i].gpu->0.name),
        None => None,
    }
}

/// The entries after the metered energy of the memory has gone to the last
/// memory entry.
pub open spec fn with_dram(readings: Seq<SensorReading>) -> Seq<SensorData> {
    let data = measured(readings);
    match (dram_energy(readings), last_where(kept(readings), is_ram())) {
        (Some(e), Some(i)) => data.update(i, with_energy(data[i], e)),
        _ => data,
    }
}

/// The entry that takes the metered energy of the graphics unit: that of the
/// integrated GPU if it lacks energy, else the first GPU entry that does.
pub open spec fn igpu_slot(readings: Seq<SensorReading>) -> Option<int> {
    let data = with_dram(readings);
    match integrated_index(readings) {
        Some(i) if lacks_energy()(data[i]) => Some(i),
        _ => first_where(data, 0, lacks_energy()),
    }
}

/// The entries after the metered energy of the graphics unit has been placed,
/// in an entry of its own where no GPU entry lacks energy.
pub open spec fn resolved(readings: Seq<SensorReading>) -> Seq<SensorData> {
    let data = with_dram(readings);
    match (igpu_energy(readings), igpu_slot(readings)) {
        (Some(e), Some(i)) => data.update(i, with_energy(data[i], e)),
        (Some(e), None) => data.push(
            SensorData::GPU(
                GPUData {
                    total_energy: Some(e),
                    usage_percent: None,
                    vram_usage_percent: None,
                    name: integrated_name(readings),
                },
            ),
        ),
        (None, _) => data,
    }
}

/// Whether the energy of entry `i` is to be estimated: it comes from a GPU
/// sensor, reports usage and no energy, and is not the integrated GPU that the
/// processor meters.
pub open spec fn wants_estimate(readings: Seq<SensorReading>, i: int) -> bool {
    &&& kept(readings)[i].gpu is Some
    &&& !(integrated_index(readings) == Some(i) && last_where(kept(readings), meters_igpu()) is Some)
    &&& resolved(readings)[i] matches SensorData::GPU(g)
    &&& g.total_energy is None
    &&& g.usage_percent is Some
}

/// The requests for the first `n` entries, in order.
pub open spec fn requests_up_to(readings: Seq<SensorReading>, n: int) -> Seq<EstimateRequest>
    decreases n,
{
    if n <= 0 {
        Seq::empty()
    } else {
        let before = requests_up_to(readings, n - 1);
        let i = n - 1;
        if wants_estimate(readings, i) {
            before.push(
                EstimateRequest {
                    index: i as usize,
                    name: kept(readings)[i].gpu->0.name,
                    usage: resolved(readings)[i]->GPU_0.usage_percent->0,
                },
            )
        } else {
            before
        }
    }
}

/// The estimates that an event needs.
pub open spec fn estimate_requests(readings: Seq<SensorReading>) -> Seq<EstimateRequest> {
    requests_up_to(readings, kept(readings).len() as int)
}

/// The entries after the first `n` estimates have been filled in.
pub open spec fn filled(
    data: Seq<SensorData>,
    requests: Seq<EstimateRequest>,
    estimates: Seq<EnergyUj>,
    n: int,
) -> Seq<SensorData>
    decreases n,
{
    if n <= 0 {
        data
    } else {
        let before = filled(data, requests, estimates, n - 1);
        let i = requests[n - 1].index as int;
        before.update(i, with_energy(before[i], estimates[n - 1]))
    }
}

proof fn lemma_kept_push(readings: Seq<SensorReading>, r: SensorReading)
    ensures
        kept(readings.push(r)) == (if r.result is Ok {
            kept(readings).push(r)
        } else {
            kept(readings)
        }),
{
    reveal(Seq::filter);
    assert(readings.push(r).drop_last() == readings);
}

proof fn lemma_last_where_push<T>(s: Seq<T>, x: T, p: spec_fn(T) -> bool)
    ensures
        last_where(s.push(x), p) == (if p(x) {
            Some(s.len() as int)
        } else {
            last_where(s, p)
        }),
{
    assert(s.push(x).drop_last() == s);
}

/// The last position, if there is one, is in range and meets the condition.
pub(crate) proof fn lemma_last_where<T>(s: Seq<T>, p: spec_fn(T) -> bool)
    ensures
        last_where(s, p) matches Some(i) ==> 0 <= i < s.len() && p(s[i]),
    decreases s.len(),
{
    if s.len() > 0 && !p(s.last()) {
        lemma_last_where(s.drop_last(), p);
    }
}

/// The first position, if there is one, is in range and meets the condition;
/// otherwise nothing does.
proof fn lemma_first_where<T>(s: Seq<T>, from: int, p: spec_fn(T) -> bool)
    requires
        0 <= from <= s.len(),
    ensures
        match first_where(s, from, p) {
            Some(i) => from <= i < s.len() && p(s[i]) && forall|j: int| from <= j < i ==> !p(s[j]),
            None => forall|j: int| from <= j < s.len() ==> !p(s[j]),
        },
    decreases s.len() - from,
{
    if from < s.len() && !p(s[from]) {
        lemma_first_where(s, from + 1, p);
    }
}

/// The first position is determined by its two properties.
proof fn lemma_first_where_unique<T>(s: Seq<T>, p: spec_fn(T) -> bool, i: int)
    requires
        0 <= i < s.len(),
        p(s[i]),
        forall|j: int| 0 <= j < i ==> !p(s[j]),
    ensures
        first_where(s, 0, p) == Some(i),
{
    lemma_first_where(s, 0, p);
}

/// What has been learnt from the readings so far.
struct Scan {
    data: Vec<SensorData>,
    tags: Vec<Option<String>>,
    igpu_energy: Option<EnergyUj>,
    dram_energy: Option<EnergyUj>,
    has_pp1_source: bool,
    integrated: Option<usize>,
    ram: Option<usize>,
    igpu_name: Option<String>,
}

spec fn position_of(i: Option<usize>) -> Option<int> {
    match i {
        Some(k) => Some(k as int),
        None => None,
    }
}

impl Scan {
    /// The scan has seen exactly these readings.
    spec fn tracks(self, readings: Seq<SensorReading>) -> bool {
        &&& self.data@ == measured(readings)
        &&& self.tags@.len() == kept(readings).len()
        &&& forall|k: int|
            0 <= k < self.tags@.len() ==> #[trigger] self.tags@[k] == (match kept(readings)[k].gpu {
                Some(t) => Some(t.name),
                None => None,
            })
        &&& self.igpu_energy == igpu_energy(readings)
        &&& self.dram_energy == dram_energy(readings)
        &&& self.has_pp1_source == (last_where(kept(readings), meters_igpu()) is Some)
        &&& position_of(self.integrated) == integrated_index(readings)
        &&& position_of(self.ram) == last_where(kept(readings), is_ram())
        &&& self.igpu_name == integrated_name(readings)
    }

    fn new() -> (r: Scan)
        ensures
            r.tracks(Seq::empty()),
    {
        proof {
            reveal(Seq::filter);
            assert(kept(Seq::empty()) =~= Seq::empty());
            assert(measured(Seq::empty()) =~= Seq::empty());
        }
        Scan {
            data: Vec::new(),
            tags: Vec::new(),
            igpu_energy: None,
            dram_energy: None,
            has_pp1_source: false,
            integrated: None,
            ram: None,
            igpu_name: None,
        }
    }

    fn add(&mut self, reading: SensorReading, Ghost(seen): Ghost<Seq<SensorReading>>)
        requires
            old(self).tracks(seen),
        ensures
            final(self).tracks(seen.push(reading)),
    {
        let ghost all = seen.push(reading);
        proof {
            lemma_kept_push(seen, reading);
            lemma_last_where_push(kept(seen), reading, igpu_used_energy());
            lemma_last_where_push(kept(seen), reading, dram_used_energy());
            lemma_last_where_push(kept(seen), reading, meters_igpu());
            lemma_last_where_push(kept(seen), reading, is_integrated());
            lemma_last_where_push(kept(seen), reading, is_ram());
            lemma_last_where(kept(seen), igpu_used_energy());
            lemma_last_where(kept(seen), dram_used_energy());
            lemma_first_where(seen, 0, is_integrated());
            lemma_first_where(all, 0, is_integrated());
            assert(all.len() == seen.len() + 1);
            assert(forall|j: int| 0 <= j < seen.len() ==> all[j] == seen[j]);
            if first_where(seen, 0, is_integrated()) is Some {
                lemma_first_where_unique(all, is_integrated(), first_where(seen, 0, is_integrated())->0);
            } else if is_integrated()(reading) {
                lemma_first_where_unique(all, is_integrated(), seen.len() as int);
            }
        }
        let SensorReading { gpu, result } = reading;
        if self.igpu_name.is_none() {
            if let Some(t) = &gpu {
                if t.integrated {
                    self.igpu_name = Some(t.name.clone());
                }
            }
        }
        match result {
            Ok(d) => {
                let position: usize = self.data.len();
                let (integrated, tag) = match gpu {
                    Some(t) => (t.integrated, Some(t.name)),
                    None => (false, None),
                };
                if integrated {
                    self.integrated = Some(position);
                }
                let entry = match d {
                    SensorData::CPU(cpu) => {
                        let mut total_energy = cpu.total_energy;
                        if let Some(pp1) = cpu.pp1_energy {
                            self.has_pp1_source = true;
                            if pp1.is_positive() {
                                if let Some(total) = total_energy {
                                    total_energy = Some(total.saturating_sub(pp1));
                                }
                                self.igpu_energy = Some(pp1);
                            }
                        }
                        if let Some(dram) = cpu.dram_energy {
                            if dram.is_positive() {
                                self.dram_energy = Some(dram);
                            }
                        }
                        SensorData::CPU(
                            CPUData {
                                total_energy,
                                pp1_energy: None,
                                dram_energy: None,
                                usage_percent: cpu.usage_percent,
                            },
                        )
                    },
                    SensorData::Ram(ram) => {
                        self.ram = Some(position);
                        SensorData::Ram(ram)
                    },
                    other => other,
                };
                self.data.push(entry);
                self.tags.push(tag);
            },
            Err(_) => {},
        }
        assert(self.data@ =~= measured(all));
    }
}

/// Sets the energy of a memory or GPU entry.
fn set_energy(d: SensorData, e: EnergyUj) -> (r: SensorData)
    ensures
        r == with_energy(d, e),
{
    match d {
        SensorData::Ram(ram) => SensorData::Ram(
            RamData { total_energy: Some(e), usage_percent: ram.usage_percent },
        ),
        SensorData::GPU(gpu) => SensorData::GPU(
            GPUData {
                total_energy: Some(e),
                usage_percent: gpu.usage_percent,
                vram_usage_percent: gpu.vram_usage_percent,
                name: gpu.name,
            },
        ),
        other => other,
    }
}

/// Sets the energy of the entry at a position.
fn set_energy_at(data: &mut Vec<SensorData>, i: usize, e: EnergyUj)
    requires
        i < old(data)@.len(),
    ensures
        final(data)@ == old(data)@.update(i as int, with_energy(old(data)@[i as int], e)),
{
    let d = data.remove(i);
    let d = set_energy(d, e);
    data.insert(i, d);
    assert(data@ =~= old(data)@.update(i as int, with_energy(old(data)@[i as int], e)));
}

fn is_gpu_without_energy(d: &SensorData) -> (r: bool)
    ensures
        r == lacks_energy()(*d),
{
    match d {
        SensorData::GPU(gpu) => gpu.total_energy.is_none(),
        _ => false,
    }
}

impl EventDraft {
    /// Every request is about an entry of the draft.
    pub open spec fn well_formed(self) -> bool {
        forall|k: int|
            0 <= k < self.requests@.len() ==> (#[trigger] self.requests@[k]).index < self.data@.len()
    }
}

/// The requests are about answering GPUs that want an estimate, in order.
pub proof fn lemma_requests(readings: Seq<SensorReading>, n: int)
    requires
        0 <= n <= kept(readings).len() <= usize::MAX,
    ensures
        forall|k: int|
            0 <= k < requests_up_to(readings, n).len() ==> {
                let i = (#[trigger] requests_up_to(readings, n)[k]).index as int;
                0 <= i < n && wants_estimate(readings, i)
            },
        forall|j: int, k: int|
            0 <= j < k < requests_up_to(readings, n).len() ==> (#[trigger] requests_up_to(
                readings,
                n,
            )[j]).index < (#[trigger] requests_up_to(readings, n)[k]).index,
    decreases n,
{
    if n > 0 {
        lemma_requests(readings, n - 1);
        let before = requests_up_to(readings, n - 1);
        let now = requests_up_to(readings, n);
        assert forall|k: int| 0 <= k < now.len() implies {
            let i = (#[trigger] now[k]).index as int;
            0 <= i < n && wants_estimate(readings, i)
        } by {
            if k < before.len() {
                assert(now[k] == before[k]);
            }
        }
        assert forall|j: int, k: int| 0 <= j < k < now.len() implies (#[trigger] now[j]).index < (
        #[trigger] now[k]).index by {
            assert(now[j] == before[j]);
            if k < before.len() {
                assert(now[k] == before[k]);
            }
        }
    }
}

/// Settles which entry carries which energy, and asks for the estimates that
/// are still needed.
pub fn draft_event(readings: Vec<SensorReading>) -> (r: EventDraft)
    ensures
        r.data@ == resolved(readings@),
        r.requests@ == estimate_requests(readings@),
        r.well_formed(),
{
    let ghost all = readings@;
    let mut scan = Scan::new();
    assert(all.take(0) == Seq::<SensorReading>::empty());
    for reading in it: readings
        invariant
            it.seq() == all,
            scan.tracks(all.take(it.index())),
    {
        proof {
            assert(all.take(it.index() + 1) == all.take(it.index()).push(reading));
        }
        scan.add(reading, Ghost(all.take(it.index())));
    }
    assert(all.take(all.len() as int) == all);
    let Scan {
        mut data,
        tags,
        igpu_energy: igpu,
        dram_energy: dram,
        has_pp1_source,
        integrated,
        ram,
        igpu_name,
    } = scan;
    proof {
        lemma_last_where(kept(all), is_ram());
        lemma_last_where(kept(all), is_integrated());
    }

    // The processor's metering is the better reading of the memory.
    if let (Some(e), Some(i)) = (dram, ram) {
        set_energy_at(&mut data, i, e);
    }
    assert(data@ == with_dram(all));

    if let Some(e) = igpu {
        let mut slot: Option<usize> = None;
        if let Some(i) = integrated {
            if is_gpu_without_energy(&data[i]) {
                slot = Some(i);
            }
        }
        if slot.is_none() {
            let mut i: usize = 0;
            while i < data.len() && slot.is_none()
                invariant
                    i <= data@.len(),
                    slot is None ==> forall|j: int| 0 <= j < i ==> !lacks_energy()(#[trigger] data@[j]),
                    slot matches Some(k) ==> k < data@.len() && lacks_energy()(data@[k as int]) && forall|
                        j: int,
                    |
                        0 <= j < k ==> !lacks_energy()(#[trigger] data@[j]),
                decreases data@.len() - i, (if slot is None { 1int } else { 0int }),
            {
                if is_gpu_without_energy(&data[i]) {
                    slot = Some(i);
                } else {
                    i += 1;
                }
            }
            proof {
                lemma_first_where(data@, 0, lacks_energy());
                if let Some(k) = slot {
                    lemma_first_where_unique(data@, lacks_energy(), k as int);
                }
            }
        }
        assert(position_of(slot) == igpu_slot(all));
        match slot {
            Some(i) => set_energy_at(&mut data, i, e),
            None => data.push(
                SensorData::GPU(
                    GPUData {
                        total_energy: Some(e),
                        usage_percent: None,
                        vram_usage_percent: None,
                        name: igpu_name,
                    },
                ),
            ),
        }
    }
    assert(data@ == resolved(all));

    let mut requests: Vec<EstimateRequest> = Vec::new();
    for i in 0..tags.len()
        invariant
            tags@.len() == kept(all).len(),
            kept(all).len() <= data@.len(),
            data@ == resolved(all),
            forall|k: int|
                0 <= k < tags@.len() ==> #[trigger] tags@[k] == (match kept(all)[k].gpu {
                    Some(t) => Some(t.name),
                    None => None,
                }),
            has_pp1_source == (last_where(kept(all), meters_igpu()) is Some),
            position_of(integrated) == integrated_index(all),
            requests@ == requests_up_to(all, i as int),
    {
        // What the processor meters needs no estimate, not even when it is zero.
        let metered = match integrated {
            Some(k) => k == i && has_pp1_source,
            None => false,
        };
        if let Some(name) = &tags[i] {
            if !metered && is_gpu_without_energy(&data[i]) {
                if let SensorData::GPU(gpu) = &data[i] {
                    if let Some(usage) = gpu.usage_percent {
                        requests.push(EstimateRequest { index: i, name: name.clone(), usage });
                    }
                }
            }
        }
    }
    proof {
        lemma_requests(all, kept(all).len() as int);
    }
    EventDraft { data, requests }
}

/// The entries of an event, given the estimates and the running processes.
pub open spec fn event_data(
    draft: EventDraft,
    estimates: Seq<EnergyUj>,
    processes: Vec<ProcessData>,
) -> Seq<SensorData> {
    filled(draft.data@, draft.requests@, estimates, draft.requests@.len() as int).push(
        SensorData::Process(processes),
    )
}

/// Fills the estimates in and closes the event with the running processes.
pub fn finish_event(
    time: u128,
    draft: EventDraft,
    estimates: &Vec<EnergyUj>,
    processes: Vec<ProcessData>,
) -> (r: Event<SensorData>)
    requires
        draft.well_formed(),
        estimates@.len() == draft.requests@.len(),
    ensures
        r.time == time,
        r.data@ == event_data(draft, estimates@, processes),
{
    let EventDraft { mut data, requests } = draft;
    for k in 0..requests.len()
        invariant
            draft.well_formed(),
            estimates@.len() == requests@.len(),
            requests@ == draft.requests@,
            data@.len() == draft.data@.len(),
            data@ == filled(draft.data@, requests@, estimates@, k as int),
    {
        set_energy_at(&mut data, requests[k].index, estimates[k]);
    }
    data.push(SensorData::Process(processes));
    Event { time, data }
}

/// The readings are what the sensors answered, in their order.
pub open spec fn read_from<S: Sensor>(
    sensors: Seq<SensorType<S>>,
    readings: Seq<SensorReading>,
) -> bool {
    &&& readings.len() == sensors.len()
    &&& forall|i: int|
        #![trigger readings[i]]
        0 <= i < readings.len() ==> {
            &&& call_ensures(S::read_full_data, (&sensors[i].device(),), readings[i].result)
            &&& readings[i].gpu == (match sensors[i] {
                SensorType::GPU(g) => Some(GpuTag { name: g.name, integrated: g.integrated }),
                _ => None,
            })
        }
}

/// Reads every sensor. How often a sensor is read is left unsaid: a read leaves
/// no trace in a sensor that is only borrowed.
pub fn read_sensors<S: Sensor>(sensors: &Vec<SensorType<S>>) -> (r: Vec<SensorReading>)
    ensures
        read_from(sensors@, r@),
{
    let mut readings: Vec<SensorReading> = Vec::new();
    for i in 0..sensors.len()
        invariant
            read_from(sensors@.take(i as int), readings@),
    {
        let gpu = match &sensors[i] {
            SensorType::GPU(g) => Some(GpuTag { name: g.name(), integrated: g.is_integrated() }),
            _ => None,
        };
        let result = sensors[i].read_full_data();
        let ghost before = readings@;
        readings.push(SensorReading { gpu, result });
        proof {
            let some = sensors@.take(i + 1);
            assert forall|j: int| #![trigger readings@[j]] 0 <= j < readings@.len() implies {
                &&& call_ensures(S::read_full_data, (&some[j].device(),), readings@[j].result)
                &&& readings@[j].gpu == (match some[j] {
                    SensorType::GPU(g) => Some(GpuTag { name: g.name, integrated: g.integrated }),
                    _ => None,
                })
            } by {
                if j < i {
                    assert(readings@[j] == before[j]);
                    assert(some[j] == sensors@.take(i as int)[j]);
                }
            }
        }
    }
    assert(sensors@.take(sensors@.len() as int) == sensors@);
    readings
}

/// The estimates are what the estimator gave for the requests.
pub open spec fn estimated_by<F: Fn(&EstimateRequest, u128) -> EnergyUj>(
    estimate: F,
    since_last_update: u128,
    requests: Seq<EstimateRequest>,
    estimates: Seq<EnergyUj>,
) -> bool {
    &&& estimates.len() == requests.len()
    &&& forall|k: int|
        0 <= k < estimates.len() ==> call_ensures(
            estimate,
            (&requests[k], since_last_update),
            #[trigger] estimates[k],
        )
}

/// The event is made from the sensors: from what each of them answered, what
/// was estimated for the GPUs without energy, and the processes measured with
/// the GPU usage that all GPUs reported for them.
pub open spec fn made_from<
    S: Sensor,
    F: Fn(&EstimateRequest, u128) -> EnergyUj,
    A: Fn(&GPUSensor<S>, u64) -> Result<Vec<(u32, Float64)>, SensorError>,
    M: FnOnce(HashMap<u32, Float64>) -> Vec<ProcessData>,
>(
    event: Event<SensorData>,
    sensors: Seq<SensorType<S>>,
    time: u128,
    since_last_update: u128,
    timestamp_secs: u64,
    estimate: F,
    ask: A,
    measure: M,
) -> bool {
    &&& event.time == time
    &&& exists|
        readings: Seq<SensorReading>,
        draft: EventDraft,
        estimates: Seq<EnergyUj>,
        answers: Seq<Result<Vec<(u32, Float64)>, SensorError>>,
        usage: HashMap<u32, Float64>,
        processes: Vec<ProcessData>,
    |
        {
            &&& #[trigger] read_from(sensors, readings)
            &&& draft.data@ == resolved(readings)
            &&& draft.requests@ == estimate_requests(readings)
            &&& estimated_by(estimate, since_last_update, draft.requests@, estimates)
            &&& #[trigger] usage_asked(ask, timestamp_secs, gpu_sensors(sensors), answers)
            &&& usage@ == merged_usage(answers)
            &&& #[trigger] call_ensures(measure, (usage,), processes)
            &&& event.data@ == #[trigger] event_data(draft, estimates, processes)
        }
}

/// Aggregates readings from all sensors into a single timestamped event.
///
/// `estimate` gives the energy of a GPU from its usage over the nanoseconds
/// since the last update; `ask` has a GPU tell the usage of its processes at a
/// second; `measure` lists the running processes with that usage.
pub fn create_event_from_sensors<
    S: Sensor,
    F: Fn(&EstimateRequest, u128) -> EnergyUj,
    A: Fn(&GPUSensor<S>, u64) -> Result<Vec<(u32, Float64)>, SensorError>,
    M: FnOnce(HashMap<u32, Float64>) -> Vec<ProcessData>,
>(
    sensors: &Vec<SensorType<S>>,
    time: u128,
    since_last_update: u128,
    timestamp_secs: u64,
    estimate: F,
    ask: A,
    measure: M,
) -> (r: Event<SensorData>)
    requires
        forall|q: &EstimateRequest| call_requires(estimate, (q, since_last_update)),
        forall|g: &GPUSensor<S>| call_requires(ask, (g, timestamp_secs)),
        forall|usage: HashMap<u32, Float64>| call_requires(measure, (usage,)),
    ensures
        made_from(
            r,
            sensors@,
            time,
            since_last_update,
            timestamp_secs,
            estimate,
            ask,
            measure,
        ),
{
    let readings = read_sensors(sensors);
    let ghost seen = readings@;
    let draft = draft_event(readings);
    let mut estimates: Vec<EnergyUj> = Vec::new();
    for k in 0..draft.requests.len()
        invariant
            forall|q: &EstimateRequest| call_requires(estimate, (q, since_last_update)),
            estimated_by(estimate, since_last_update, draft.requests@.take(k as int), estimates@),
    {
        let e = estimate(&draft.requests[k], since_last_update);
        let ghost before = estimates@;
        estimates.push(e);
        proof {
            let some = draft.requests@.take(k + 1);
            assert forall|j: int| 0 <= j < estimates@.len() implies call_ensures(
                estimate,
                (&some[j], since_last_update),
                #[trigger] estimates@[j],
            ) by {
                if j < k {
                    assert(estimates@[j] == before[j]);
                    assert(some[j] == draft.requests@.take(k as int)[j]);
                }
            }
        }
    }
    assert(draft.requests@.take(draft.requests@.len() as int) == draft.requests@);
    let usage = get_process_gpu_usage(sensors, timestamp_secs, ask);
    let ghost told = usage;
    let processes = measure(usage);
    let ghost shown = draft;
    let ghost listed = processes;
    let r = finish_event(time, draft, &estimates, processes);
    assert(r.data@ == event_data(shown, estimates@, listed));
    assert(read_from(sensors@, seen));
    assert(call_ensures(measure, (told,), listed));
    r
}

/// The energies that entries report.
pub open spec fn energies(data: Seq<SensorData>) -> Seq<Option<EnergyUj>> {
    data.map_values(|d: SensorData| entry_energy(d))
}

/// The energies as the sensors reported them, before anything is moved.
pub open spec fn raw_energies(readings: Seq<SensorReading>) -> Seq<Option<EnergyUj>> {
    kept(readings).map_values(|r: SensorReading| entry_energy(r.result->Ok_0))
}

proof fn lemma_kept_answered(readings: Seq<SensorReading>, i: int)
    requires
        0 <= i < kept(readings).len(),
    ensures
        kept(readings)[i].result is Ok,
{
    readings.lemma_filter_pred(answered(), i);
}

/// Every reading with data has its entry, at its place; an entry of its own
/// for the graphics unit may follow.
pub proof fn law_entries_follow_the_sensors(readings: Seq<SensorReading>)
    ensures
        kept(readings).len() <= resolved(readings).len() <= kept(readings).len() + 1,
        forall|i: int|
            0 <= i < kept(readings).len() ==> {
                let before = kept(readings)[i].result->Ok_0;
                let after = #[trigger] resolved(readings)[i];
                after == stripped(before) || after == with_energy(
                    stripped(before),
                    entry_energy(after)->0,
                )
            },
{
    let data = measured(readings);
    let middle = with_dram(readings);
    let after = resolved(readings);
    lemma_last_where(kept(readings), is_ram());
    lemma_last_where(kept(readings), is_integrated());
    lemma_first_where(middle, 0, lacks_energy());
    assert forall|i: int| 0 <= i < kept(readings).len() implies {
        let before = kept(readings)[i].result->Ok_0;
        #[trigger] after[i] == stripped(before) || after[i] == with_energy(
            stripped(before),
            entry_energy(after[i])->0,
        )
    } by {
        assert(data[i] == stripped(kept(readings)[i].result->Ok_0));
        assert(middle[i] == data[i] || middle[i] is Ram);
    }
}

/// No processor entry of an event still carries a metered part.
pub proof fn law_metered_parts_are_taken_out(readings: Seq<SensorReading>, i: int)
    requires
        0 <= i < resolved(readings).len(),
    ensures
        resolved(readings)[i] matches SensorData::CPU(c) ==> c.pp1_energy is None && c.dram_energy is None,
{
    law_entries_follow_the_sensors(readings);
    lemma_last_where(kept(readings), is_ram());
    assert(with_dram(readings).len() == kept(readings).len());
    lemma_last_where(kept(readings), is_integrated());
    lemma_first_where(with_dram(readings), 0, lacks_energy());
    if i == kept(readings).len() {
        assert(resolved(readings)[i] is GPU);
    } else {
        assert(measured(readings)[i] == stripped(kept(readings)[i].result->Ok_0));
    }
}

/// The energy of the graphics unit is added to the event once, and nothing
/// that was measured is overwritten for it.
pub proof fn law_igpu_energy_is_placed_once(readings: Seq<SensorReading>)
    ensures
        energy_sum(energies(resolved(readings))) == energy_sum(energies(with_dram(readings)))
            + energy_of(igpu_energy(readings)),
{
    let data = with_dram(readings);
    lemma_last_where(kept(readings), is_ram());
    assert(data.len() == kept(readings).len());
    lemma_last_where(kept(readings), is_integrated());
    lemma_last_where(kept(readings), igpu_used_energy());
    lemma_first_where(data, 0, lacks_energy());
    if let Some(e) = igpu_energy(readings) {
        match igpu_slot(readings) {
            Some(i) => {
                assert(lacks_energy()(data[i]));
                lemma_sum_update(energies(data), i, Some(e));
                assert(energies(resolved(readings)) =~= energies(data).update(i, Some(e)));
            },
            None => {
                lemma_sum_push(energies(data), Some(e));
                assert(energies(resolved(readings)) =~= energies(data).push(Some(e)));
            },
        }
    }
}

/// Energy is moved, not made: where one processor `c` meters its graphics
/// unit as a part of its own energy, and no memory is metered, an event
/// reports as much energy as the sensors did.
pub proof fn law_metered_energy_is_conserved(readings: Seq<SensorReading>, c: int)
    requires
        0 <= c < kept(readings).len(),
        igpu_used_energy()(kept(readings)[c]),
        entry_energy(kept(readings)[c].result->Ok_0) matches Some(total) && kept(readings)[c].pp1()->0.uj
            <= total.uj,
        forall|i: int|
            0 <= i < kept(readings).len() && i != c ==> !igpu_used_energy()(#[trigger] kept(readings)[i]),
        dram_energy(readings) is None,
    ensures
        energy_sum(energies(resolved(readings))) == energy_sum(raw_energies(readings)),
{
    let k = kept(readings);
    let raw = raw_energies(readings);
    let pp1 = k[c].pp1()->0;
    let total = entry_energy(k[c].result->Ok_0)->0;
    law_igpu_energy_is_placed_once(readings);
    lemma_last_where(k, igpu_used_energy());
    lemma_last_where_exists(k, c, igpu_used_energy());
    assert(igpu_energy(readings) == Some(pp1));
    lemma_sum_update(raw, c, Some(total.minus(pp1)));
    let after = energies(measured(readings));
    assert forall|i: int| 0 <= i < k.len() implies after[i] == raw.update(c, Some(total.minus(pp1)))[i] by {
        lemma_kept_answered(readings, i);
        assert(measured(readings)[i] == stripped(k[i].result->Ok_0));
        if i != c {
            assert(!igpu_used_energy()(k[i]));
            if let SensorData::CPU(cpu) = k[i].result->Ok_0 {
                if let (Some(t), Some(p)) = (cpu.total_energy, cpu.pp1_energy) {
                    assert(t.minus(p) == t);
                }
            }
        }
    }
    assert(after =~= raw.update(c, Some(total.minus(pp1))));
}

pub(crate) proof fn lemma_last_where_exists<T>(s: Seq<T>, i: int, p: spec_fn(T) -> bool)
    requires
        0 <= i < s.len(),
        p(s[i]),
    ensures
        last_where(s, p) is Some,
    decreases s.len(),
{
    if !p(s.last()) {
        lemma_last_where_exists(s.drop_last(), i, p);
    }
}

proof fn lemma_filled(
    data: Seq<SensorData>,
    requests: Seq<EstimateRequest>,
    estimates: Seq<EnergyUj>,
    n: int,
)
    requires
        0 <= n <= requests.len(),
        requests.len() == estimates.len(),
        forall|k: int| 0 <= k < requests.len() ==> (#[trigger] requests[k]).index < data.len(),
        forall|j: int, k: int|
            0 <= j < k < requests.len() ==> (#[trigger] requests[j]).index < (#[trigger] requests[k]).index,
    ensures
        filled(data, requests, estimates, n).len() == data.len(),
        forall|k: int|
            0 <= k < n ==> filled(data, requests, estimates, n)[(#[trigger] requests[k]).index as int]
                == with_energy(data[requests[k].index as int], estimates[k]),
        forall|i: int|
            0 <= i < data.len() && (forall|k: int| 0 <= k < n ==> (#[trigger] requests[k]).index != i)
                ==> #[trigger] filled(data, requests, estimates, n)[i] == data[i],
    decreases n,
{
    if n > 0 {
        lemma_filled(data, requests, estimates, n - 1);
    }
}

/// An estimate goes to the GPU that it was made for, and to nothing else; no
/// energy that is known already is replaced.
pub proof fn law_estimates_fill_gaps_only(readings: Seq<SensorReading>, estimates: Seq<EnergyUj>)
    requires
        kept(readings).len() <= usize::MAX,
        estimates.len() == estimate_requests(readings).len(),
    ensures
        ({
            let before = resolved(readings);
            let requests = estimate_requests(readings);
            let after = filled(before, requests, estimates, requests.len() as int);
            &&& after.len() == before.len()
            &&& forall|k: int|
                0 <= k < requests.len() ==> entry_energy(after[(#[trigger] requests[k]).index as int])
                    == Some(estimates[k])
            &&& forall|i: int|
                0 <= i < before.len() && entry_energy(before[i]) is Some ==> #[trigger] after[i] == before[i]
        }),
{
    let before = resolved(readings);
    let requests = estimate_requests(readings);
    law_entries_follow_the_sensors(readings);
    lemma_requests(readings, kept(readings).len() as int);
    assert forall|k: int| 0 <= k < requests.len() implies (#[trigger] requests[k]).index < before.len() by {}
    lemma_filled(before, requests, estimates, requests.len() as int);
    let after = filled(before, requests, estimates, requests.len() as int);
    assert forall|k: int| 0 <= k < requests.len() implies entry_energy(
        after[(#[trigger] requests[k]).index as int],
    ) == Some(estimates[k]) by {
        assert(wants_estimate(readings, requests[k].index as int));
    }
    assert forall|i: int| 0 <= i < before.len() && entry_energy(before[i]) is Some implies #[trigger] after[i]
        == before[i] by {
        assert forall|k: int| 0 <= k < requests.len() implies (#[trigger] requests[k]).index != i by {
            assert(wants_estimate(readings, requests[k].index as int));
        }
    }
}

/// A graphics unit that the processor meters is never estimated.
pub proof fn law_metered_igpu_is_not_estimated(readings: Seq<SensorReading>, k: int)
    requires
        kept(readings).len() <= usize::MAX,
        0 <= k < estimate_requests(readings).len(),
        last_where(kept(readings), meters_igpu()) is Some,
    ensures
        integrated_index(readings) != Some(estimate_requests(readings)[k].index as int),
{
    lemma_requests(readings, kept(readings).len() as int);
    assert(wants_estimate(readings, estimate_requests(readings)[k].index as int));
}

pub(crate) proof fn lemma_filled_len(
    data: Seq<SensorData>,
    requests: Seq<EstimateRequest>,
    estimates: Seq<EnergyUj>,
    n: int,
)
    requires
        0 <= n <= requests.len(),
        forall|k: int| 0 <= k < requests.len() ==> (#[trigger] requests[k]).index < data.len(),
    ensures
        filled(data, requests, estimates, n).len() == data.len(),
    decreases n,
{
    if n > 0 {
        lemma_filled_len(data, requests, estimates, n - 1);
    }
}

proof fn lemma_filled_kinds(
    data: Seq<SensorData>,
    requests: Seq<EstimateRequest>,
    estimates: Seq<EnergyUj>,
    n: int,
    i: int,
)
    requires
        0 <= n <= requests.len(),
        forall|k: int| 0 <= k < requests.len() ==> (#[trigger] requests[k]).index < data.len(),
        0 <= i < data.len(),
    ensures
        filled(data, requests, estimates, n)[i] is Process <==> data[i] is Process,
    decreases n,
{
    if n > 0 {
        lemma_filled_len(data, requests, estimates, n - 1);
        lemma_filled_kinds(data, requests, estimates, n - 1, i);
    }
}

/// The running processes are the last entry of an event, and where no sensor
/// lists processes they are the only such entry.
pub proof fn law_processes_close_the_event(
    readings: Seq<SensorReading>,
    draft: EventDraft,
    estimates: Seq<EnergyUj>,
    processes: Vec<ProcessData>,
    i: int,
)
    requires
        draft.data@ == resolved(readings),
        draft.requests@ == estimate_requests(readings),
        draft.well_formed(),
        forall|j: int|
            0 <= j < kept(readings).len() ==> !((#[trigger] kept(readings)[j]).result->Ok_0 is Process),
        0 <= i < draft.data@.len(),
    ensures
        event_data(draft, estimates, processes).len() == draft.data@.len() + 1,
        event_data(draft, estimates, processes).last() == SensorData::Process(processes),
        !(event_data(draft, estimates, processes)[i] is Process),
{
    law_entries_follow_the_sensors(readings);
    lemma_last_where(kept(readings), is_ram());
    lemma_last_where(kept(readings), is_integrated());
    lemma_first_where(with_dram(readings), 0, lacks_energy());
    assert(with_dram(readings).len() == kept(readings).len());
    lemma_filled_len(draft.data@, draft.requests@, estimates, draft.requests@.len() as int);
    lemma_filled_kinds(draft.data@, draft.requests@, estimates, draft.requests@.len() as int, i);
    if i < kept(readings).len() {
        lemma_kept_answered(readings, i);
        assert(!(kept(readings)[i].result->Ok_0 is Process));
        assert(!(resolved(readings)[i] is Process));
    } else {
        assert(resolved(readings)[i] is GPU);
    }
}

/// Of the items that meet a condition, item `j` keeps its place: behind as many
/// as meet the condition before it.
pub(crate) proof fn lemma_place<T>(s: Seq<T>, p: spec_fn(T) -> bool, j: int)
    requires
        0 <= j < s.len(),
        p(s[j]),
    ensures
        s.take(j).filter(p).len() < s.filter(p).len(),
        s.filter(p)[s.take(j).filter(p).len() as int] == s[j],
    decreases s.len(),
{
    reveal(Seq::filter);
    if j == s.len() - 1 {
        assert(s.take(j) == s.drop_last());
    } else {
        lemma_place(s.drop_last(), p, j);
        assert(s.drop_last().take(j) == s.take(j));
    }
}

/// Every item that is left over comes from an item of the whole.
pub(crate) proof fn lemma_origin<T>(s: Seq<T>, p: spec_fn(T) -> bool, i: int) -> (j: int)
    requires
        0 <= i < s.filter(p).len(),
    ensures
        0 <= j < s.len(),
        p(s[j]),
        s.take(j).filter(p).len() == i,
        s.filter(p)[i] == s[j],
    decreases s.len(),
{
    reveal(Seq::filter);
    let front = s.drop_last();
    if i == front.filter(p).len() {
        assert(s.take(s.len() - 1) == front);
        s.len() - 1
    } else {
        let j = lemma_origin(front, p, i);
        assert(front.take(j) == s.take(j));
        j
    }
}

/// What is left over keeps its order.
pub(crate) proof fn lemma_place_order<T>(s: Seq<T>, p: spec_fn(T) -> bool, j: int, k: int)
    requires
        0 <= j <= k <= s.len(),
    ensures
        s.take(j).filter(p).len() <= s.take(k).filter(p).len(),
        j < k && p(s[j]) ==> s.take(j).filter(p).len() < s.take(k).filter(p).len(),
    decreases k - j,
{
    reveal(Seq::filter);
    if j < k {
        lemma_place_order(s, p, j, k - 1);
        assert(s.take(k).drop_last() == s.take(k - 1));
        assert(s.take(k).last() == s[k - 1]);
    }
}

/// The last reading that meets a condition, where only answers can meet it, is
/// the last among the answers.
proof fn lemma_last_answer(readings: Seq<SensorReading>, q: spec_fn(SensorReading) -> bool, j: int)
    requires
        0 <= j < readings.len(),
        readings[j].result is Ok,
        q(readings[j]),
        forall|k: int| j < k < readings.len() && (#[trigger] readings[k]).result is Ok ==> !q(readings[k]),
    ensures
        last_where(kept(readings), q) == Some(readings.take(j).filter(answered()).len() as int),
{
    let i = readings.take(j).filter(answered()).len() as int;
    let all = kept(readings);
    lemma_place(readings, answered(), j);
    assert forall|h: int| i < h < all.len() implies !q(#[trigger] all[h]) by {
        let k = lemma_origin(readings, answered(), h);
        if k <= j {
            lemma_place_order(readings, answered(), k, j);
        }
    }
    lemma_last_where(all, q);
    lemma_last_where_exists(all, i, q);
    lemma_last_where_is_last(all, q);
}

/// Nothing behind the last position meets the condition.
pub(crate) proof fn lemma_last_where_is_last<T>(s: Seq<T>, p: spec_fn(T) -> bool)
    ensures
        match last_where(s, p) {
            Some(i) => forall|j: int| i < j < s.len() ==> !p(#[trigger] s[j]),
            None => forall|j: int| 0 <= j < s.len() ==> !p(#[trigger] s[j]),
        },
    decreases s.len(),
{
    if s.len() > 0 && !p(s.last()) {
        lemma_last_where_is_last(s.drop_last(), p);
        lemma_last_where(s, p);
        assert forall|j: int|
            (match last_where(s, p) {
                Some(i) => i,
                None => -1,
            }) < j < s.len() implies !p(#[trigger] s[j]) by {
            if j < s.len() - 1 {
                assert(s.drop_last()[j] == s[j]);
            }
        }
    }
}

/// No answer meets a condition that no reading meets.
proof fn lemma_no_answer(readings: Seq<SensorReading>, q: spec_fn(SensorReading) -> bool)
    requires
        forall|k: int| 0 <= k < readings.len() && (#[trigger] readings[k]).result is Ok ==> !q(readings[k]),
    ensures
        last_where(kept(readings), q) is None,
{
    lemma_last_where(kept(readings), q);
    if let Some(i) = last_where(kept(readings), q) {
        let k = lemma_origin(readings, answered(), i);
        assert(!q(readings[k]));
    }
}

/// The entries before and after the energies are settled, at one place.
proof fn lemma_settled(readings: Seq<SensorReading>, j: int)
    requires
        0 <= j < readings.len(),
        readings[j].result is Ok,
    ensures
        ({
            let i = readings.take(j).filter(answered()).len() as int;
            let before = stripped(readings[j].result->Ok_0);
            &&& 0 <= i < kept(readings).len()
            &&& kept(readings).len() == with_dram(readings).len()
            &&& with_dram(readings).len() <= resolved(readings).len() <= with_dram(readings).len() + 1
            &&& kept(readings)[i] == readings[j]
            &&& with_dram(readings)[i] == (match (
                dram_energy(readings),
                last_where(kept(readings), is_ram()),
            ) {
                (Some(e), Some(m)) if m == i => with_energy(before, e),
                _ => before,
            })
            &&& resolved(readings)[i] == (match (igpu_energy(readings), igpu_slot(readings)) {
                (Some(e), Some(m)) if m == i => with_energy(with_dram(readings)[i], e),
                _ => with_dram(readings)[i],
            })
            &&& igpu_slot(readings) matches Some(m) ==> 0 <= m < with_dram(readings).len()
                && lacks_energy()(with_dram(readings)[m])
        }),
{
    lemma_place(readings, answered(), j);
    let i = readings.take(j).filter(answered()).len() as int;
    assert(measured(readings)[i] == stripped(kept(readings)[i].result->Ok_0));
    lemma_last_where(kept(readings), is_ram());
    lemma_last_where(kept(readings), is_integrated());
    lemma_first_where(with_dram(readings), 0, lacks_energy());
}

/// What a sensor reported stands in the event, at its place among the sensors
/// that answered, with every field but the energies as it was. A processor's
/// energy is what it reported less what it metered for its graphics unit, and
/// the metered parts are gone from it; a GPU that reported energy keeps it;
/// disk, network and process entries are left alone.
pub proof fn law_entries_keep_what_was_reported(readings: Seq<SensorReading>, j: int)
    requires
        0 <= j < readings.len(),
        readings[j].result is Ok,
    ensures
        ({
            let i = readings.take(j).filter(|r: SensorReading| r.result is Ok).len() as int;
            &&& i < resolved(readings).len()
            &&& match (readings[j].result->Ok_0, resolved(readings)[i]) {
                (SensorData::CPU(c), SensorData::CPU(d)) => {
                    &&& d.usage_percent == c.usage_percent
                    &&& d.pp1_energy is None
                    &&& d.dram_energy is None
                    &&& d.total_energy is Some <==> c.total_energy is Some
                    &&& c.total_energy matches Some(total) ==> d.total_energy->0.uj == (
                    match c.pp1_energy {
                        Some(part) => if part.uj <= total.uj {
                            total.uj - part.uj
                        } else {
                            0
                        },
                        None => total.uj as int,
                    })
                },
                (SensorData::GPU(g), SensorData::GPU(d)) => {
                    &&& d.usage_percent == g.usage_percent
                    &&& d.vram_usage_percent == g.vram_usage_percent
                    &&& d.name == g.name
                    &&& g.total_energy is Some ==> d.total_energy == g.total_energy
                },
                (SensorData::Ram(m), SensorData::Ram(d)) => d.usage_percent == m.usage_percent,
                (SensorData::Disk(k), SensorData::Disk(d)) => {
                    &&& d.total_energy == k.total_energy
                    &&& d.read_bytes == k.read_bytes
                    &&& d.written_bytes == k.written_bytes
                },
                (SensorData::Network(n), SensorData::Network(d)) => {
                    &&& d.total_energy == n.total_energy
                    &&& d.downloaded_bytes == n.downloaded_bytes
                    &&& d.uploaded_bytes == n.uploaded_bytes
                },
                (SensorData::Process(a), SensorData::Process(b)) => b == a,
                _ => false,
            }
        }),
{
    assert((|r: SensorReading| r.result is Ok) =~= answered());
    lemma_settled(readings, j);
    lemma_last_where(kept(readings), is_ram());
}

/// Where a processor metered energy of its graphics unit and no GPU that
/// answered is without energy of its own, an event has one entry more than
/// sensors that answered. That entry carries the energy that was
/// metered last, and the name of the first GPU that is part of a processor.
pub proof fn law_metered_graphics_without_a_gpu_get_an_entry(readings: Seq<SensorReading>, c: int)
    requires
        0 <= c < readings.len(),
        readings[c].result matches Ok(SensorData::CPU(cpu)) && cpu.pp1_energy matches Some(e) && e.uj > 0,
        forall|k: int|
            c < k < readings.len() ==> !((#[trigger] readings[k]).result matches Ok(SensorData::CPU(x))
                && x.pp1_energy matches Some(y) && y.uj > 0),
        forall|k: int|
            0 <= k < readings.len() ==> !((#[trigger] readings[k]).result matches Ok(SensorData::GPU(g))
                && g.total_energy is None),
    ensures
        resolved(readings).len() == readings.filter(|r: SensorReading| r.result is Ok).len() + 1,
        resolved(readings).last() matches SensorData::GPU(g) && {
            &&& g.total_energy == readings[c].result->Ok_0->CPU_0.pp1_energy
            &&& g.usage_percent is None
            &&& g.vram_usage_percent is None
            &&& g.name is Some ==> exists|k: int|
                0 <= k < readings.len() && ((#[trigger] readings[k]).gpu matches Some(t) && t.integrated
                    && Some(t.name) == g.name) && forall|h: int|
                    0 <= h < k ==> !((#[trigger] readings[h]).gpu matches Some(t) && t.integrated)
            &&& g.name is None ==> forall|k: int|
                0 <= k < readings.len() ==> !((#[trigger] readings[k]).gpu matches Some(t) && t.integrated)
        },
{
    assert((|r: SensorReading| r.result is Ok) =~= answered());
    lemma_last_answer(readings, igpu_used_energy(), c);
    lemma_settled(readings, c);
    lemma_first_where(with_dram(readings), 0, lacks_energy());
    lemma_first_where(readings, 0, is_integrated());
    if let Some(m) = igpu_slot(readings) {
        let k = lemma_origin(readings, answered(), m);
        lemma_settled(readings, k);
    }
    if let Some(k) = first_where(readings, 0, is_integrated()) {
        assert forall|h: int| 0 <= h < k implies !((#[trigger] readings[h]).gpu matches Some(t)
            && t.integrated) by {
            assert(!is_integrated()(readings[h]));
        }
    } else {
        assert forall|k: int| 0 <= k < readings.len() implies !((#[trigger] readings[k]).gpu matches Some(
            t,
        ) && t.integrated) by {
            assert(!is_integrated()(readings[k]));
        }
    }
}

/// The energy that was metered last for a graphics unit goes to the GPU at `g`:
/// the last one that answered as part of a processor, if it is without energy,
/// or else the first that answered without energy. Every other GPU stays as it
/// was, and no entry is added.
pub proof fn law_metered_graphics_energy_goes_to_one_gpu(
    readings: Seq<SensorReading>,
    c: int,
    g: int,
    j: int,
)
    requires
        0 <= c < readings.len(),
        readings[c].result matches Ok(SensorData::CPU(cpu)) && cpu.pp1_energy matches Some(e) && e.uj > 0,
        forall|k: int|
            c < k < readings.len() ==> !((#[trigger] readings[k]).result matches Ok(SensorData::CPU(x))
                && x.pp1_energy matches Some(y) && y.uj > 0),
        0 <= g < readings.len(),
        readings[g].result matches Ok(SensorData::GPU(x)) && x.total_energy is None,
        ({
            let part_of_processor = |k: int|
                readings[k].result is Ok && (readings[k].gpu matches Some(t) && t.integrated);
            ||| part_of_processor(g) && forall|k: int|
                g < k < readings.len() ==> !#[trigger] part_of_processor(k)
            ||| {
                &&& forall|k: int|
                    0 <= k < g ==> !((#[trigger] readings[k]).result matches Ok(SensorData::GPU(x))
                        && x.total_energy is None)
                &&& forall|k: int|
                    0 <= k < readings.len() && #[trigger] part_of_processor(k) && (
                    readings[k].result matches Ok(SensorData::GPU(x)) && x.total_energy is None) ==> k == g
                        || exists|h: int| k < h < readings.len() && #[trigger] part_of_processor(h)
            }
        }),
        0 <= j < readings.len(),
        readings[j].result matches Ok(SensorData::GPU(_)),
    ensures
        resolved(readings).len() == readings.filter(|r: SensorReading| r.result is Ok).len(),
        resolved(readings)[readings.take(j).filter(
            |r: SensorReading| r.result is Ok,
        ).len() as int] matches SensorData::GPU(d) && d.total_energy == (if j == g {
            readings[c].result->Ok_0->CPU_0.pp1_energy
        } else {
            readings[j].result->Ok_0->GPU_0.total_energy
        }),
{
    assert((|r: SensorReading| r.result is Ok) =~= answered());
    lemma_last_answer(readings, igpu_used_energy(), c);
    lemma_settled(readings, c);
    lemma_settled(readings, g);
    lemma_settled(readings, j);
    lemma_last_where(kept(readings), is_ram());
    let data = with_dram(readings);
    let i = readings.take(g).filter(answered()).len() as int;
    let part_of_processor = |k: int|
        readings[k].result is Ok && (readings[k].gpu matches Some(t) && t.integrated);
    assert(lacks_energy()(data[i]));
    lemma_first_where(data, 0, lacks_energy());
    lemma_last_where(kept(readings), is_integrated());
    lemma_last_where_is_last(kept(readings), is_integrated());
    if part_of_processor(g) && forall|k: int| g < k < readings.len() ==> !#[trigger] part_of_processor(k) {
        assert forall|k: int| g < k < readings.len() && (#[trigger] readings[k]).result is Ok implies !is_integrated()(
            readings[k],
        ) by {
            assert(!part_of_processor(k));
        }
        lemma_last_answer(readings, is_integrated(), g);
    } else {
        if let Some(m) = integrated_index(readings) {
            let k = lemma_origin(readings, answered(), m);
            assert(part_of_processor(k));
            if exists|h: int| k < h < readings.len() && #[trigger] part_of_processor(h) {
                let h = choose|h: int| k < h < readings.len() && #[trigger] part_of_processor(h);
                lemma_place(readings, answered(), h);
                lemma_place_order(readings, answered(), k, h);
                assert(is_integrated()(kept(readings)[readings.take(h).filter(answered()).len() as int]));
            }
            lemma_settled(readings, k);
        }
        assert forall|h: int| 0 <= h < i implies !lacks_energy()(#[trigger] data[h]) by {
            let k = lemma_origin(readings, answered(), h);
            lemma_settled(readings, k);
            if k >= g {
                lemma_place_order(readings, answered(), g, k);
            }
        }
        lemma_first_where_unique(data, lacks_energy(), i);
    }
    assert(igpu_slot(readings) == Some(i));
    if j < g {
        lemma_place_order(readings, answered(), j, g);
    } else if g < j {
        lemma_place_order(readings, answered(), g, j);
    }
}

/// Where no processor metered energy of its graphics unit, every GPU keeps what
/// it reported, be it no energy at all, and no entry is added.
pub proof fn law_unmetered_graphics_are_left_alone(readings: Seq<SensorReading>, j: int)
    requires
        forall|k: int|
            0 <= k < readings.len() ==> !((#[trigger] readings[k]).result matches Ok(SensorData::CPU(x))
                && x.pp1_energy matches Some(y) && y.uj > 0),
    ensures
        resolved(readings).len() == readings.filter(|r: SensorReading| r.result is Ok).len(),
        0 <= j < readings.len() && (readings[j].result matches Ok(SensorData::GPU(_))) ==> resolved(
            readings,
        )[readings.take(j).filter(|r: SensorReading| r.result is Ok).len() as int]
            == readings[j].result->Ok_0,
{
    assert((|r: SensorReading| r.result is Ok) =~= answered());
    lemma_no_answer(readings, igpu_used_energy());
    lemma_last_where(kept(readings), is_ram());
    if 0 <= j < readings.len() && (readings[j].result matches Ok(SensorData::GPU(_))) {
        lemma_settled(readings, j);
    }
}

/// The energy that was metered last for the memory takes the place of what the
/// last memory sensor reported.
pub proof fn law_metered_memory_energy_goes_to_the_last_memory(
    readings: Seq<SensorReading>,
    c: int,
    m: int,
)
    requires
        0 <= c < readings.len(),
        readings[c].result matches Ok(SensorData::CPU(cpu)) && cpu.dram_energy matches Some(e) && e.uj > 0,
        forall|k: int|
            c < k < readings.len() ==> !((#[trigger] readings[k]).result matches Ok(SensorData::CPU(x))
                && x.dram_energy matches Some(y) && y.uj > 0),
        0 <= m < readings.len(),
        readings[m].result matches Ok(SensorData::Ram(_)),
        forall|k: int|
            m < k < readings.len() ==> !((#[trigger] readings[k]).result matches Ok(SensorData::Ram(_))),
    ensures
        resolved(readings)[readings.take(m).filter(
            |r: SensorReading| r.result is Ok,
        ).len() as int] matches SensorData::Ram(d) && d.total_energy
            == readings[c].result->Ok_0->CPU_0.dram_energy,
{
    assert((|r: SensorReading| r.result is Ok) =~= answered());
    lemma_last_answer(readings, dram_used_energy(), c);
    lemma_settled(readings, c);
    lemma_last_answer(readings, is_ram(), m);
    lemma_settled(readings, m);
}

/// A memory sensor keeps the energy that it reported if another one answers
/// behind it, or if no processor metered energy of the memory.
pub proof fn law_other_memory_keeps_its_energy(readings: Seq<SensorReading>, j: int)
    requires
        0 <= j < readings.len(),
        readings[j].result matches Ok(SensorData::Ram(_)),
        (exists|k: int|
            j < k < readings.len() && (#[trigger] readings[k]).result matches Ok(SensorData::Ram(_)))
            || forall|k: int|
            0 <= k < readings.len() ==> !((#[trigger] readings[k]).result matches Ok(SensorData::CPU(x))
                && x.dram_energy matches Some(y) && y.uj > 0),
    ensures
        resolved(readings)[readings.take(j).filter(
            |r: SensorReading| r.result is Ok,
        ).len() as int] == readings[j].result->Ok_0,
{
    assert((|r: SensorReading| r.result is Ok) =~= answered());
    lemma_settled(readings, j);
    if exists|k: int| j < k < readings.len() && (#[trigger] readings[k]).result matches Ok(SensorData::Ram(_)) {
        let k = choose|k: int|
            j < k < readings.len() && (#[trigger] readings[k]).result matches Ok(SensorData::Ram(_));
        lemma_place(readings, answered(), k);
        lemma_place_order(readings, answered(), j, k);
        lemma_last_where_is_last(kept(readings), is_ram());
        assert(is_ram()(kept(readings)[readings.take(k).filter(answered()).len() as int]));
    } else {
        lemma_no_answer(readings, dram_used_energy());
    }
}

proof fn lemma_requested(readings: Seq<SensorReading>, n: int, i: int) -> (k: int)
    requires
        0 <= i < n <= kept(readings).len() <= usize::MAX,
        wants_estimate(readings, i),
    ensures
        0 <= k < requests_up_to(readings, n).len(),
        requests_up_to(readings, n)[k].index == i,
    decreases n,
{
    if i == n - 1 {
        requests_up_to(readings, n).len() - 1
    } else {
        lemma_requested(readings, n - 1, i)
    }
}

proof fn lemma_request_fields(readings: Seq<SensorReading>, n: int, k: int)
    requires
        0 <= n <= kept(readings).len() <= usize::MAX,
        0 <= k < requests_up_to(readings, n).len(),
    ensures
        ({
            let q = requests_up_to(readings, n)[k];
            &&& kept(readings)[q.index as int].gpu matches Some(t) && t.name == q.name
            &&& resolved(readings)[q.index as int] matches SensorData::GPU(g) && g.usage_percent
                == Some(q.usage)
        }),
    decreases n,
{
    if n > 0 && k < requests_up_to(readings, n - 1).len() {
        lemma_request_fields(readings, n - 1, k);
    }
}

/// What is asked of the estimator: each request is about a GPU sensor `j` that
/// answered, under its name and with its usage, whose entry has usage and still
/// no energy. The requests come in the order of the sensors.
pub proof fn law_requests_are_about_gpus_without_energy(readings: Seq<SensorReading>, k: int)
    requires
        readings.len() <= usize::MAX,
        0 <= k < estimate_requests(readings).len(),
    ensures
        exists|j: int|
            {
                &&& 0 <= j < readings.len()
                &&& (#[trigger] readings[j]).result is Ok
                &&& readings.take(j).filter(|r: SensorReading| r.result is Ok).len()
                    == estimate_requests(readings)[k].index
                &&& readings[j].gpu matches Some(t) && t.name == estimate_requests(readings)[k].name
                &&& readings[j].result matches Ok(SensorData::GPU(g)) && g.usage_percent == Some(
                    estimate_requests(readings)[k].usage,
                )
            },
        resolved(readings)[estimate_requests(readings)[k].index as int] matches SensorData::GPU(g)
            && g.total_energy is None,
        k > 0 ==> estimate_requests(readings)[k - 1].index < estimate_requests(readings)[k].index,
{
    assert((|r: SensorReading| r.result is Ok) =~= answered());
    readings.lemma_filter_len(answered());
    let n = kept(readings).len() as int;
    lemma_requests(readings, n);
    lemma_request_fields(readings, n, k);
    let i = estimate_requests(readings)[k].index as int;
    assert(wants_estimate(readings, i));
    let j = lemma_origin(readings, answered(), i);
    law_entries_keep_what_was_reported(readings, j);
    if k > 0 {
        assert(estimate_requests(readings)[k - 1].index < estimate_requests(readings)[k].index);
    }
}

/// No GPU is forgotten: one that answered with usage and whose entry still has
/// no energy is asked about, unless it is the last that answered as part of a
/// processor and a processor meters its graphics unit. That one is never asked
/// about.
pub proof fn law_every_gap_is_estimated(readings: Seq<SensorReading>, j: int)
    requires
        readings.len() <= usize::MAX,
        0 <= j < readings.len(),
        readings[j].gpu is Some,
        readings[j].result matches Ok(SensorData::GPU(g)) && g.usage_percent is Some,
        resolved(readings)[readings.take(j).filter(
            |r: SensorReading| r.result is Ok,
        ).len() as int] matches SensorData::GPU(g) && g.total_energy is None,
    ensures
        ({
            let i = readings.take(j).filter(|r: SensorReading| r.result is Ok).len();
            let asked = exists|k: int|
                0 <= k < estimate_requests(readings).len() && (#[trigger] estimate_requests(readings)[k]).index
                    == i;
            let last_part = readings[j].gpu->0.integrated && forall|h: int|
                j < h < readings.len() && (#[trigger] readings[h]).result is Ok ==> !(
                readings[h].gpu matches Some(t) && t.integrated);
            let metered = exists|c: int|
                0 <= c < readings.len() && ((#[trigger] readings[c]).result matches Ok(SensorData::CPU(x))
                    && x.pp1_energy is Some);
            asked <==> !(last_part && metered)
        }),
{
    assert((|r: SensorReading| r.result is Ok) =~= answered());
    readings.lemma_filter_len(answered());
    let n = kept(readings).len() as int;
    let i = readings.take(j).filter(answered()).len() as int;
    lemma_place(readings, answered(), j);
    lemma_requests(readings, n);
    let last_part = readings[j].gpu->0.integrated && forall|h: int|
        j < h < readings.len() && (#[trigger] readings[h]).result is Ok ==> !(readings[h].gpu matches Some(t)
            && t.integrated);
    let metered = exists|c: int|
        0 <= c < readings.len() && ((#[trigger] readings[c]).result matches Ok(SensorData::CPU(x))
            && x.pp1_energy is Some);
    assert(metered <==> last_where(kept(readings), meters_igpu()) is Some) by {
        if metered {
            let c = choose|c: int|
                0 <= c < readings.len() && ((#[trigger] readings[c]).result matches Ok(SensorData::CPU(x))
                    && x.pp1_energy is Some);
            lemma_place(readings, answered(), c);
            lemma_last_where_exists(
                kept(readings),
                readings.take(c).filter(answered()).len() as int,
                meters_igpu(),
            );
        } else {
            assert forall|k: int|
                0 <= k < readings.len() && (#[trigger] readings[k]).result is Ok implies !meters_igpu()(
                readings[k],
            ) by {
                if meters_igpu()(readings[k]) {
                    assert(readings[k].result matches Ok(SensorData::CPU(x)) && x.pp1_energy is Some);
                }
            }
            lemma_no_answer(readings, meters_igpu());
        }
    }
    assert(last_part <==> integrated_index(readings) == Some(i)) by {
        if last_part {
            lemma_last_answer(readings, is_integrated(), j);
        } else if integrated_index(readings) == Some(i) {
            lemma_last_where(kept(readings), is_integrated());
            lemma_last_where_is_last(kept(readings), is_integrated());
            assert forall|h: int| j < h < readings.len() && (#[trigger] readings[h]).result is Ok implies !(
            readings[h].gpu matches Some(t) && t.integrated) by {
                lemma_place(readings, answered(), h);
                lemma_place_order(readings, answered(), j, h);
                let later = readings.take(h).filter(answered()).len() as int;
                assert(!is_integrated()(kept(readings)[later]));
            }
        }
    }
    law_entries_keep_what_was_reported(readings, j);
    if wants_estimate(readings, i) {
        let k = lemma_requested(readings, n, i);
        assert(estimate_requests(readings)[k].index == i);
    } else {
        assert forall|k: int| 0 <= k < estimate_requests(readings).len() implies (
        #[trigger] estimate_requests(readings)[k]).index != i by {
            assert(wants_estimate(readings, estimate_requests(readings)[k].index as int));
        }
    }
}

/// Closing an event: it has the given time, the entries of the draft, and the
/// processes behind them. The entry of a request gets its estimate and keeps
/// every other field; an entry that nothing was asked about is left alone.
pub proof fn law_finishing_fills_in_the_estimates(
    time: u128,
    draft: EventDraft,
    estimates: Vec<EnergyUj>,
    processes: Vec<ProcessData>,
    r: Event<SensorData>,
)
    requires
        draft.well_formed(),
        estimates@.len() == draft.requests@.len(),
        forall|j: int, k: int|
            0 <= j < k < draft.requests@.len() ==> (#[trigger] draft.requests@[j]).index < (
            #[trigger] draft.requests@[k]).index,
        call_ensures(finish_event, (time, draft, &estimates, processes), r),
    ensures
        r.time == time,
        r.data@.len() == draft.data@.len() + 1,
        r.data@.last() == SensorData::Process(processes),
        forall|i: int|
            0 <= i < draft.data@.len() && (forall|k: int|
                0 <= k < draft.requests@.len() ==> (#[trigger] draft.requests@[k]).index != i)
                ==> #[trigger] r.data@[i] == draft.data@[i],
        forall|k: int|
            #![trigger draft.requests@[k]]
            0 <= k < draft.requests@.len() ==> {
                let i = draft.requests@[k].index as int;
                match draft.data@[i] {
                    SensorData::GPU(g) => r.data@[i] matches SensorData::GPU(d) && {
                        &&& d.total_energy == Some(estimates@[k])
                        &&& d.usage_percent == g.usage_percent
                        &&& d.vram_usage_percent == g.vram_usage_percent
                        &&& d.name == g.name
                    },
                    SensorData::Ram(m) => r.data@[i] matches SensorData::Ram(d) && {
                        &&& d.total_energy == Some(estimates@[k])
                        &&& d.usage_percent == m.usage_percent
                    },
                    other => r.data@[i] == other,
                }
            },
{
    let n = draft.requests@.len() as int;
    lemma_filled(draft.data@, draft.requests@, estimates@, n);
    let full = filled(draft.data@, draft.requests@, estimates@, n);
    assert forall|k: int| #![trigger draft.requests@[k]] 0 <= k < n implies {
        let i = draft.requests@[k].index as int;
        full[i] == with_energy(draft.data@[i], estimates@[k])
    } by {}
}

/// A draft is what the readings settle: the entries and the requests of the
/// laws above are those that it holds.
pub proof fn law_a_draft_holds_entries_and_requests(readings: Vec<SensorReading>, draft: EventDraft)
    requires
        call_ensures(draft_event, (readings,), draft),
    ensures
        draft.data@ == resolved(readings@),
        draft.requests@ == estimate_requests(readings@),
        draft.well_formed(),
{
}

/// The event that is made from sensors holds what each of them answered: sensor
/// by sensor there is an answer of its device, and where that is data, its entry
/// stands behind those of the sensors before it that answered, with every field
/// but the energies as it was. The processes that were measured close the event.
pub proof fn law_an_event_holds_what_the_sensors_answered<
    S: Sensor,
    F: Fn(&EstimateRequest, u128) -> EnergyUj,
    A: Fn(&GPUSensor<S>, u64) -> Result<Vec<(u32, Float64)>, SensorError>,
    M: FnOnce(HashMap<u32, Float64>) -> Vec<ProcessData>,
>(
    sensors: Vec<SensorType<S>>,
    time: u128,
    since_last_update: u128,
    timestamp_secs: u64,
    estimate: F,
    ask: A,
    measure: M,
    event: Event<SensorData>,
)
    requires
        sensors@.len() <= usize::MAX,
        call_ensures(
            create_event_from_sensors::<S, F, A, M>,
            (&sensors, time, since_last_update, timestamp_secs, estimate, ask, measure),
            event,
        ),
    ensures
        event.time == time,
        event.data@.len() > 0,
        exists|
            told: Seq<Result<Vec<(u32, Float64)>, SensorError>>,
            usage: HashMap<u32, Float64>,
            list: Vec<ProcessData>,
        |
            {
                &&& event.data@.last() == SensorData::Process(list)
                &&& #[trigger] usage_asked(ask, timestamp_secs, gpu_sensors(sensors@), told)
                &&& usage@ == merged_usage(told)
                &&& #[trigger] call_ensures(measure, (usage,), list)
            },
        exists|answers: Seq<Result<SensorData, SensorError>>|
            {
                &&& answers.len() == sensors@.len()
                &&& forall|j: int|
                    #![trigger answers[j]]
                    0 <= j < answers.len() ==> {
                        let device = match sensors@[j] {
                            SensorType::CPU(s) => s,
                            SensorType::GPU(g) => g.device,
                            SensorType::RAM(s) => s,
                            SensorType::Disk(s) => s,
                            SensorType::Network(s) => s,
                        };
                        &&& call_ensures(S::read_full_data, (&device,), answers[j])
                        &&& answers[j] matches Ok(d) ==> same_but_for_energy(
                            d,
                            event.data@[answers.take(j).filter(
                                |r: Result<SensorData, SensorError>| r is Ok,
                            ).len() as int],
                        )
                    }
            },
{
    let (readings, draft, estimates, answers, usage, processes) = choose|
        readings: Seq<SensorReading>,
        draft: EventDraft,
        estimates: Seq<EnergyUj>,
        answers: Seq<Result<Vec<(u32, Float64)>, SensorError>>,
        usage: HashMap<u32, Float64>,
        processes: Vec<ProcessData>,
    |
        {
            &&& #[trigger] read_from(sensors@, readings)
            &&& draft.data@ == resolved(readings)
            &&& draft.requests@ == estimate_requests(readings)
            &&& estimated_by(estimate, since_last_update, draft.requests@, estimates)
            &&& #[trigger] usage_asked(ask, timestamp_secs, gpu_sensors(sensors@), answers)
            &&& usage@ == merged_usage(answers)
            &&& #[trigger] call_ensures(measure, (usage,), processes)
            &&& event.data@ == #[trigger] event_data(draft, estimates, processes)
        };
    let results = readings.map_values(|r: SensorReading| r.result);
    let ok = |r: Result<SensorData, SensorError>| r is Ok;
    readings.lemma_filter_len(answered());
    let n = draft.requests@.len() as int;
    lemma_requests(readings, kept(readings).len() as int);
    law_entries_follow_the_sensors(readings);
    assert forall|k: int| 0 <= k < n implies (#[trigger] draft.requests@[k]).index < draft.data@.len() by {}
    lemma_filled_len(draft.data@, draft.requests@, estimates, n);
    assert forall|j: int| #![trigger results[j]] 0 <= j < results.len() implies {
        let device = match sensors@[j] {
            SensorType::CPU(s) => s,
            SensorType::GPU(g) => g.device,
            SensorType::RAM(s) => s,
            SensorType::Disk(s) => s,
            SensorType::Network(s) => s,
        };
        &&& call_ensures(S::read_full_data, (&device,), results[j])
        &&& results[j] matches Ok(d) ==> same_but_for_energy(
            d,
            event.data@[results.take(j).filter(ok).len() as int],
        )
    } by {
        assert(results[j] == readings[j].result);
        if results[j] is Ok {
            lemma_filter_results(readings.take(j));
            assert(readings.take(j).map_values(|r: SensorReading| r.result) =~= results.take(j));
            law_entries_keep_what_was_reported(readings, j);
            lemma_place(readings, answered(), j);
            assert((|r: SensorReading| r.result is Ok) =~= answered());
            let i = readings.take(j).filter(answered()).len() as int;
            lemma_filled_fields(draft.data@, draft.requests@, estimates, n, i);
        }
    }
    assert((|r: Result<SensorData, SensorError>| r is Ok) =~= ok);
    assert(results.len() == sensors@.len());
    assert(event.data@.last() == SensorData::Process(processes));
    assert(usage_asked(ask, timestamp_secs, gpu_sensors(sensors@), answers));
    assert(call_ensures(measure, (usage,), processes));
}

/// Two entries are of one kind, and hold the same but for the energies.
pub open spec fn same_but_for_energy(a: SensorData, b: SensorData) -> bool {
    match (a, b) {
        (SensorData::CPU(x), SensorData::CPU(y)) => x.usage_percent == y.usage_percent,
        (SensorData::GPU(x), SensorData::GPU(y)) => {
            &&& x.usage_percent == y.usage_percent
            &&& x.vram_usage_percent == y.vram_usage_percent
            &&& x.name == y.name
        },
        (SensorData::Ram(x), SensorData::Ram(y)) => x.usage_percent == y.usage_percent,
        (SensorData::Disk(x), SensorData::Disk(y)) => {
            &&& x.read_bytes == y.read_bytes
            &&& x.written_bytes == y.written_bytes
        },
        (SensorData::Network(x), SensorData::Network(y)) => {
            &&& x.downloaded_bytes == y.downloaded_bytes
            &&& x.uploaded_bytes == y.uploaded_bytes
        },
        (SensorData::Process(x), SensorData::Process(y)) => x == y,
        _ => false,
    }
}

proof fn lemma_filter_results(readings: Seq<SensorReading>)
    ensures
        readings.map_values(|r: SensorReading| r.result).filter(
            |r: Result<SensorData, SensorError>| r is Ok,
        ).len() == readings.filter(answered()).len(),
    decreases readings.len(),
{
    reveal(Seq::filter);
    let results = readings.map_values(|r: SensorReading| r.result);
    if readings.len() > 0 {
        let front = readings.drop_last();
        lemma_filter_results(front);
        assert(results.drop_last() =~= front.map_values(|r: SensorReading| r.result));
    }
}

proof fn lemma_filled_fields(
    data: Seq<SensorData>,
    requests: Seq<EstimateRequest>,
    estimates: Seq<EnergyUj>,
    n: int,
    i: int,
)
    requires
        0 <= n <= requests.len(),
        forall|k: int| 0 <= k < requests.len() ==> (#[trigger] requests[k]).index < data.len(),
        0 <= i < data.len(),
    ensures
        same_but_for_energy(data[i], filled(data, requests, estimates, n)[i]),
    decreases n,
{
    if n > 0 {
        lemma_filled_len(data, requests, estimates, n - 1);
        lemma_filled_fields(data, requests, estimates, n - 1, i);
    }
}

/// Reading the sensors gives, sensor by sensor, an answer of its device, with
/// the name and the kind of the GPU where the sensor is one.
pub proof fn law_readings_come_from_the_sensors<S: Sensor>(
    sensors: Vec<SensorType<S>>,
    readings: Vec<SensorReading>,
    j: int,
)
    requires
        call_ensures(read_sensors::<S>, (&sensors,), readings),
        0 <= j < sensors@.len(),
    ensures
        readings@.len() == sensors@.len(),
        match sensors@[j] {
            SensorType::CPU(s) => readings@[j].gpu is None && call_ensures(
                S::read_full_data,
                (&s,),
                readings@[j].result,
            ),
            SensorType::GPU(g) => {
                &&& readings@[j].gpu matches Some(t) && t.name == g.name && t.integrated == g.integrated
                &&& call_ensures(S::read_full_data, (&g.device,), readings@[j].result)
            },
            SensorType::RAM(s) => readings@[j].gpu is None && call_ensures(
                S::read_full_data,
                (&s,),
                readings@[j].result,
            ),
            SensorType::Disk(s) => readings@[j].gpu is None && call_ensures(
                S::read_full_data,
                (&s,),
                readings@[j].result,
            ),
            SensorType::Network(s) => readings@[j].gpu is None && call_ensures(
                S::read_full_data,
                (&s,),
                readings@[j].result,
            ),
        },
{
    assert(read_from(sensors@, readings@));
}

/// What is missing in an event comes from the estimator: there are readings of
/// the sensors whose every request was put to the estimator with the time since
/// the last update, its answer is the energy of the entry that it is about, and
/// what nothing was asked about is as the readings settle it.
pub proof fn law_gaps_are_filled_by_the_estimator<
    S: Sensor,
    F: Fn(&EstimateRequest, u128) -> EnergyUj,
    A: Fn(&GPUSensor<S>, u64) -> Result<Vec<(u32, Float64)>, SensorError>,
    M: FnOnce(HashMap<u32, Float64>) -> Vec<ProcessData>,
>(
    sensors: Seq<SensorType<S>>,
    time: u128,
    since_last_update: u128,
    timestamp_secs: u64,
    estimate: F,
    ask: A,
    measure: M,
    event: Event<SensorData>,
)
    requires
        sensors.len() <= usize::MAX,
        made_from(event, sensors, time, since_last_update, timestamp_secs, estimate, ask, measure),
    ensures
        exists|readings: Seq<SensorReading>|
            {
                &&& readings.len() == sensors.len()
                &&& event.data@.len() == resolved(readings).len() + 1
                &&& forall|j: int|
                    #![trigger readings[j]]
                    0 <= j < readings.len() ==> match sensors[j] {
                        SensorType::GPU(g) => readings[j].gpu matches Some(t) && t.name == g.name
                            && t.integrated == g.integrated,
                        _ => readings[j].gpu is None,
                    }
                &&& forall|k: int|
                    0 <= k < estimate_requests(readings).len() ==> {
                        let q = #[trigger] estimate_requests(readings)[k];
                        event.data@[q.index as int] matches SensorData::GPU(g) && g.total_energy matches Some(e)
                            && call_ensures(estimate, (&q, since_last_update), e)
                    }
                &&& forall|i: int|
                    0 <= i < resolved(readings).len() && (forall|k: int|
                        0 <= k < estimate_requests(readings).len() ==> (
                        #[trigger] estimate_requests(readings)[k]).index != i) ==> #[trigger] event.data@[i]
                        == resolved(readings)[i]
            },
{
    let (readings, draft, estimates, answers, usage, processes) = choose|
        readings: Seq<SensorReading>,
        draft: EventDraft,
        estimates: Seq<EnergyUj>,
        answers: Seq<Result<Vec<(u32, Float64)>, SensorError>>,
        usage: HashMap<u32, Float64>,
        processes: Vec<ProcessData>,
    |
        {
            &&& #[trigger] read_from(sensors, readings)
            &&& draft.data@ == resolved(readings)
            &&& draft.requests@ == estimate_requests(readings)
            &&& estimated_by(estimate, since_last_update, draft.requests@, estimates)
            &&& #[trigger] usage_asked(ask, timestamp_secs, gpu_sensors(sensors), answers)
            &&& usage@ == merged_usage(answers)
            &&& #[trigger] call_ensures(measure, (usage,), processes)
            &&& event.data@ == #[trigger] event_data(draft, estimates, processes)
        };
    let requests = estimate_requests(readings);
    let before = resolved(readings);
    let n = requests.len() as int;
    readings.lemma_filter_len(answered());
    lemma_requests(readings, kept(readings).len() as int);
    law_entries_follow_the_sensors(readings);
    assert forall|k: int| 0 <= k < n implies (#[trigger] requests[k]).index < before.len() by {}
    lemma_filled(before, requests, estimates, n);
    let after = filled(before, requests, estimates, n);
    assert(event.data@ == after.push(SensorData::Process(processes)));
    assert forall|k: int| 0 <= k < n implies {
        let q = #[trigger] requests[k];
        event.data@[q.index as int] matches SensorData::GPU(g) && g.total_energy matches Some(e)
            && call_ensures(estimate, (&q, since_last_update), e)
    } by {
        let q = requests[k];
        assert(wants_estimate(readings, q.index as int));
        assert(after[q.index as int] == with_energy(before[q.index as int], estimates[k]));
        assert(event.data@[q.index as int] == after[q.index as int]);
        assert(call_ensures(estimate, (&requests[k], since_last_update), estimates[k]));
    }
    assert forall|i: int|
        0 <= i < before.len() && (forall|k: int| 0 <= k < n ==> (#[trigger] requests[k]).index != i) implies
        #[trigger] event.data@[i] == before[i] by {
        assert(event.data@[i] == after[i]);
    }
    assert forall|j: int| #![trigger readings[j]] 0 <= j < readings.len() implies match sensors[j] {
        SensorType::GPU(g) => readings[j].gpu matches Some(t) && t.name == g.name && t.integrated
            == g.integrated,
        _ => readings[j].gpu is None,
    } by {}
    assert(readings.len() == sensors.len());
}

} // verus!
