//! From a measured event to an accounted one: totals, and the processes that
//! used most energy.

use crate::energy::{
    energy_sum, lemma_saturating_step, lemma_sum_push, lemma_sum_remove, saturated, EnergyUj,
};
use crate::event::{
    energies, estimate_requests, event_data, kept, last_where, law_processes_close_the_event, lemma_filled_len,
    lemma_last_where, lemma_last_where_exists, lemma_last_where_is_last, lemma_place, resolved, EventDraft,
    SensorReading,
};
use crate::sensor::{
    as_computed, computed_energy, entry_energy, CPUData, ComputedSensorData, DiskData, Event, Float64, GPUData,
    NetworkData, ProcessData, RamData, SensorData, TotalData,
};
use vstd::prelude::*;

verus! {

/// How many processes an event lists when nothing else is asked for.
pub const DEFAULT_PROCESS_CAP: usize = 10;

/// What one kind of component reported: its energy, and the usage of each
/// component that reported energy.
#[derive(Debug)]
pub struct ComponentLoad {
    pub energy: EnergyUj,
    pub usages: Vec<Option<Float64>>,
}

/// What the energy of processes is worked out from.
#[derive(Debug)]
pub struct ProcessAccount {
    pub processes: Vec<ProcessData>,
    pub cpu: ComponentLoad,
    pub gpu: ComponentLoad,
    pub total_energy: EnergyUj,
}

/// The entry lists processes.
pub open spec fn lists_processes() -> spec_fn(SensorData) -> bool {
    |d: SensorData| d is Process
}

/// The entry is about a component.
pub open spec fn about_component() -> spec_fn(SensorData) -> bool {
    |d: SensorData| d !is Process
}

/// A processor that reported energy.
pub open spec fn cpu_with_energy() -> spec_fn(SensorData) -> bool {
    |d: SensorData| d matches SensorData::CPU(c) && c.total_energy is Some
}

/// A GPU that reported energy.
pub open spec fn gpu_with_energy() -> spec_fn(SensorData) -> bool {
    |d: SensorData| d matches SensorData::GPU(g) && g.total_energy is Some
}

/// The usage that a processor or GPU reports.
pub open spec fn usage(d: SensorData) -> Option<Float64> {
    match d {
        SensorData::CPU(c) => c.usage_percent,
        SensorData::GPU(g) => g.usage_percent,
        _ => None,
    }
}

impl ComponentLoad {
    /// The load is that of the entries that meet `p`.
    pub open spec fn sums_up(self, data: Seq<SensorData>, p: spec_fn(SensorData) -> bool) -> bool {
        &&& self.energy == saturated(energy_sum(energies(data.filter(p))))
        &&& self.usages@ == data.filter(p).map_values(|d: SensorData| usage(d))
    }

    fn new(Ghost(p): Ghost<spec_fn(SensorData) -> bool>) -> (r: ComponentLoad)
        ensures
            r.sums_up(Seq::empty(), p),
    {
        let r = ComponentLoad { energy: EnergyUj::from_u64(0), usages: Vec::new() };
        proof {
            reveal(Seq::filter);
            let none = Seq::<SensorData>::empty().filter(p);
            assert(energies(none) =~= Seq::<Option<EnergyUj>>::empty());
            assert(r.usages@ =~= none.map_values(|d: SensorData| usage(d)));
        }
        r
    }

    fn add(
        &mut self,
        energy: EnergyUj,
        usage_percent: Option<Float64>,
        Ghost(data): Ghost<Seq<SensorData>>,
        Ghost(d): Ghost<SensorData>,
        Ghost(p): Ghost<spec_fn(SensorData) -> bool>,
    )
        requires
            old(self).sums_up(data, p),
            p(d),
            entry_energy(d) == Some(energy),
            usage(d) == usage_percent,
        ensures
            final(self).sums_up(data.push(d), p),
    {
        self.energy = self.energy.saturating_add(energy);
        self.usages.push(usage_percent);
        proof {
            lemma_filter_push(data, d, p);
            let some = data.filter(p);
            assert(energies(some.push(d)) == energies(some).push(Some(energy)));
            lemma_sum_push(energies(some), Some(energy));
            lemma_saturating_step(energy_sum(energies(some)), energy);
            assert(self.usages@ =~= some.push(d).map_values(|d: SensorData| usage(d)));
        }
    }
}

pub(crate) proof fn lemma_filter_push<T>(s: Seq<T>, x: T, p: spec_fn(T) -> bool)
    ensures
        s.push(x).filter(p) == (if p(x) {
            s.filter(p).push(x)
        } else {
            s.filter(p)
        }),
{
    reveal(Seq::filter);
    assert(s.push(x).drop_last() == s);
}

/// The component entries of an event, in their order.
pub open spec fn component_entries(data: Seq<SensorData>) -> Seq<ComputedSensorData> {
    data.filter(about_component()).map_values(|d: SensorData| as_computed(d))
}

/// The energy that all entries of an event report.
pub open spec fn event_energy(data: Seq<SensorData>) -> EnergyUj {
    saturated(energy_sum(energies(data)))
}

/// Where the processes are looked up: as many entries in as there are
/// component entries before the last list of processes. Of an event with one
/// list that is the list.
pub open spec fn process_index(data: Seq<SensorData>) -> Option<int> {
    match last_where(data, lists_processes()) {
        Some(i) => Some(data.take(i).filter(about_component()).len() as int),
        None => None,
    }
}

/// The processes of an event: the list at [`process_index`], or none.
pub open spec fn event_processes(data: Seq<SensorData>) -> Seq<ProcessData> {
    match process_index(data) {
        Some(i) => match data[i] {
            SensorData::Process(list) => list@,
            _ => Seq::empty(),
        },
        None => Seq::empty(),
    }
}

/// At most `cap` processes from the front.
pub open spec fn capped(ranked: Seq<ProcessData>, cap: Option<usize>) -> Seq<ProcessData> {
    match cap {
        Some(n) if n < ranked.len() => ranked.take(n as int),
        _ => ranked,
    }
}

impl ProcessAccount {
    /// The account is that of an event with these entries.
    pub open spec fn accounts_for(self, data: Seq<SensorData>) -> bool {
        &&& self.processes@ == event_processes(data)
        &&& self.cpu.sums_up(data, cpu_with_energy())
        &&& self.gpu.sums_up(data, gpu_with_energy())
        &&& self.total_energy == event_energy(data)
    }
}

/// A copy of a component entry among accounted ones.
fn to_computed(d: &SensorData) -> (r: ComputedSensorData)
    requires
        d !is Process,
    ensures
        r == as_computed(*d),
{
    match d {
        SensorData::CPU(c) => ComputedSensorData::CPU(*c),
        SensorData::GPU(g) => ComputedSensorData::GPU(g.clone()),
        SensorData::Ram(m) => ComputedSensorData::Ram(*m),
        SensorData::Disk(k) => ComputedSensorData::Disk(*k),
        SensorData::Network(n) => ComputedSensorData::Network(*n),
        SensorData::Process(_) => ComputedSensorData::Process(Vec::new()),
    }
}

/// Sums an event up: its component entries with the total behind them, and
/// the account of its processes.
pub fn summarize_event(event: &Event<SensorData>) -> (r: (Vec<ComputedSensorData>, ProcessAccount))
    ensures
        r.0@ == component_entries(event.data@).push(
            ComputedSensorData::Total(TotalData { total_energy: event_energy(event.data@) }),
        ),
        r.1.accounts_for(event.data@),
{
    let ghost all = event.data@;
    let mut data: Vec<ComputedSensorData> = Vec::new();
    let mut cpu = ComponentLoad::new(Ghost(cpu_with_energy()));
    let mut gpu = ComponentLoad::new(Ghost(gpu_with_energy()));
    let mut total_energy = EnergyUj::from_u64(0);
    let mut index: Option<usize> = None;
    proof {
        reveal(Seq::filter);
        assert(all.take(0) == Seq::<SensorData>::empty());
        assert(energies(Seq::<SensorData>::empty()) == Seq::<Option<EnergyUj>>::empty());
        assert(component_entries(Seq::empty()) =~= Seq::empty());
    }
    for i in 0..event.data.len()
        invariant
            all == event.data@,
            data@ == component_entries(all.take(i as int)),
            cpu.sums_up(all.take(i as int), cpu_with_energy()),
            gpu.sums_up(all.take(i as int), gpu_with_energy()),
            total_energy == event_energy(all.take(i as int)),
            index matches Some(k) ==> process_index(all.take(i as int)) == Some(k as int) && k < i,
            index is None ==> process_index(all.take(i as int)) is None,
    {
        let entry = &event.data[i];
        let ghost seen = all.take(i as int);
        proof {
            assert(all.take(i + 1) == seen.push(*entry));
            lemma_filter_push(seen, *entry, about_component());
            lemma_filter_push(seen, *entry, cpu_with_energy());
            lemma_filter_push(seen, *entry, gpu_with_energy());
            lemma_process_index_push(seen, *entry);
            seen.lemma_filter_len(about_component());
            assert(energies(seen.push(*entry)) == energies(seen).push(entry_energy(*entry)));
            lemma_sum_push(energies(seen), entry_energy(*entry));
        }
        if let Some(energy) = entry.total_energy() {
            proof {
                lemma_saturating_step(energy_sum(energies(seen)), energy);
            }
            total_energy = total_energy.saturating_add(energy);
            if let SensorData::CPU(c) = entry {
                cpu.add(energy, c.usage_percent, Ghost(seen), Ghost(*entry), Ghost(cpu_with_energy()));
            }
            if let SensorData::GPU(g) = entry {
                gpu.add(energy, g.usage_percent, Ghost(seen), Ghost(*entry), Ghost(gpu_with_energy()));
            }
        }
        match entry {
            SensorData::Process(_) => {
                index = Some(data.len());
            },
            _ => {
                data.push(to_computed(entry));
            },
        }
        assert(data@ =~= component_entries(all.take(i + 1)));
    }
    assert(all.take(all.len() as int) == all);
    data.push(ComputedSensorData::Total(TotalData { total_energy }));
    let processes = match index {
        Some(k) => match &event.data[k] {
            SensorData::Process(list) => copy_processes(list),
            _ => Vec::new(),
        },
        None => Vec::new(),
    };
    (data, ProcessAccount { processes, cpu, gpu, total_energy })
}

proof fn lemma_process_index_push(data: Seq<SensorData>, d: SensorData)
    ensures
        process_index(data.push(d)) == (if d is Process {
            Some(data.filter(about_component()).len() as int)
        } else {
            process_index(data)
        }),
{
    let all = data.push(d);
    assert(all.drop_last() == data);
    lemma_last_where(data, lists_processes());
    if d is Process {
        assert(all.take(data.len() as int) == data);
    } else if let Some(i) = last_where(data, lists_processes()) {
        assert(all.take(i) == data.take(i));
    }
}

fn copy_processes(list: &Vec<ProcessData>) -> (r: Vec<ProcessData>)
    ensures
        r@ == list@,
{
    let mut r: Vec<ProcessData> = Vec::new();
    for i in 0..list.len()
        invariant
            r@ == list@.take(i as int),
    {
        r.push(list[i]);
        assert(r@ =~= list@.take(i + 1));
    }
    assert(list@.take(list@.len() as int) == list@);
    r
}

/// Keeps the first processes of a ranking.
pub fn cap_processes(ranked: Vec<ProcessData>, cap: Option<usize>) -> (r: Vec<ProcessData>)
    ensures
        r@ == capped(ranked@, cap),
{
    let mut r = ranked;
    if let Some(n) = cap {
        r.truncate(n);
    }
    assert(r@ =~= capped(ranked@, cap));
    r
}

/// The processes that an accounted event lists.
pub open spec fn listed(r: Event<ComputedSensorData>) -> Seq<ProcessData> {
    r.data@.last()->Process_0@
}

/// The accounted event: the component entries, the total, and a list of
/// processes.
pub open spec fn is_computed_event(
    r: Event<ComputedSensorData>,
    event: Event<SensorData>,
) -> bool {
    &&& r.time == event.time
    &&& r.data@.len() > 0
    &&& r.data@.drop_last() == component_entries(event.data@).push(
        ComputedSensorData::Total(TotalData { total_energy: event_energy(event.data@) }),
    )
    &&& r.data@.last() is Process
}

/// The list is what a cap leaves of the ranking of an event's account. With a
/// cap of zero there is no ranking.
pub open spec fn ranked_under<F: FnOnce(ProcessAccount) -> Vec<ProcessData>>(
    list: Seq<ProcessData>,
    data: Seq<SensorData>,
    process_cap: Option<usize>,
    rank: F,
) -> bool {
    if process_cap == Some(0usize) {
        list.len() == 0
    } else {
        exists|a: ProcessAccount, ranked: Vec<ProcessData>|
            {
                &&& a.accounts_for(data)
                &&& #[trigger] call_ensures(rank, (a,), ranked)
                &&& list == capped(ranked@, process_cap)
            }
    }
}

/// `r` is the event accounted for under a cap.
pub open spec fn accounted_under<F: FnOnce(ProcessAccount) -> Vec<ProcessData>>(
    r: Event<ComputedSensorData>,
    event: Event<SensorData>,
    process_cap: Option<usize>,
    rank: F,
) -> bool {
    &&& is_computed_event(r, event)
    &&& ranked_under(listed(r), event.data@, process_cap, rank)
}

/// Accounts for an event, listing at most `process_cap` processes.
///
/// `rank` attributes energy to the processes and puts them in order. It is not
/// asked when no process is to be listed.
pub fn to_computed_event_with_cap<F: FnOnce(ProcessAccount) -> Vec<ProcessData>>(
    sensors_event: &Event<SensorData>,
    process_cap: Option<usize>,
    rank: F,
) -> (r: Event<ComputedSensorData>)
    requires
        forall|a: ProcessAccount|
            #[trigger] a.accounts_for(sensors_event.data@) ==> call_requires(rank, (a,)),
    ensures
        accounted_under(r, *sensors_event, process_cap, rank),
{
    let (mut data, account) = summarize_event(sensors_event);
    let list = match process_cap {
        Some(0) => Vec::new(),
        _ => {
            let ghost shown = account;
            let ranked = rank(account);
            let ghost full = ranked;
            let list = cap_processes(ranked, process_cap);
            assert(call_ensures(rank, (shown,), full));
            list
        },
    };
    let ghost entries = data@;
    data.push(ComputedSensorData::Process(list));
    assert(data@.drop_last() =~= entries);
    Event { time: sensors_event.time, data }
}

/// Accounts for an event, listing the usual number of processes.
pub fn to_computed_event<F: FnOnce(ProcessAccount) -> Vec<ProcessData>>(
    sensors_event: &Event<SensorData>,
    rank: F,
) -> (r: Event<ComputedSensorData>)
    requires
        forall|a: ProcessAccount|
            #[trigger] a.accounts_for(sensors_event.data@) ==> call_requires(rank, (a,)),
    ensures
        accounted_under(r, *sensors_event, Some(DEFAULT_PROCESS_CAP), rank),
{
    to_computed_event_with_cap(sensors_event, Some(DEFAULT_PROCESS_CAP), rank)
}

/// An event with one list of processes is accounted for with that list,
/// wherever it stands.
pub proof fn law_the_list_of_processes_is_found(data: Seq<SensorData>, j: int)
    requires
        0 <= j < data.len(),
        data[j] is Process,
        forall|i: int| 0 <= i < data.len() && i != j ==> (#[trigger] data[i]) !is Process,
    ensures
        event_processes(data) == data[j]->Process_0@,
{
    lemma_last_where(data, lists_processes());
    lemma_last_where_exists(data, j, lists_processes());
    assert(last_where(data, lists_processes()) == Some(j));
    lemma_filter_all(data.take(j), about_component());
}

proof fn lemma_filter_all<T>(s: Seq<T>, p: spec_fn(T) -> bool)
    requires
        forall|i: int| 0 <= i < s.len() ==> p(#[trigger] s[i]),
    ensures
        s.filter(p) == s,
    decreases s.len(),
{
    reveal(Seq::filter);
    if s.len() > 0 {
        lemma_filter_all(s.drop_last(), p);
        assert(s.drop_last().push(s.last()) == s);
    }
}

/// The processes that were measured for an event are those that it accounts
/// for, where no sensor lists processes of its own.
pub proof fn law_measured_processes_are_accounted_for(
    readings: Seq<SensorReading>,
    draft: EventDraft,
    estimates: Seq<EnergyUj>,
    processes: Vec<ProcessData>,
)
    requires
        draft.data@ == resolved(readings),
        draft.requests@ == estimate_requests(readings),
        draft.well_formed(),
        forall|j: int|
            0 <= j < kept(readings).len() ==> !((#[trigger] kept(readings)[j]).result->Ok_0 is Process),
    ensures
        event_processes(event_data(draft, estimates, processes)) == processes@,
{
    let data = event_data(draft, estimates, processes);
    lemma_filled_len(draft.data@, draft.requests@, estimates, draft.requests@.len() as int);
    let last = data.len() - 1;
    assert forall|i: int| 0 <= i < data.len() && i != last implies !((#[trigger] data[i]) is Process) by {
        law_processes_close_the_event(readings, draft, estimates, processes, i);
    }
    law_the_list_of_processes_is_found(data, last);
}

/// The total of an accounted event is the energy of the component entries
/// that stand before it.
pub proof fn law_total_is_the_sum_of_the_components(data: Seq<SensorData>)
    ensures
        event_energy(data) == saturated(
            energy_sum(component_entries(data).map_values(|d: ComputedSensorData| computed_energy(d))),
        ),
{
    lemma_component_energy(data);
}

proof fn lemma_component_energy(data: Seq<SensorData>)
    ensures
        energy_sum(component_entries(data).map_values(|d: ComputedSensorData| computed_energy(d)))
            == energy_sum(energies(data)),
    decreases data.len(),
{
    let energy = |d: ComputedSensorData| computed_energy(d);
    if data.len() == 0 {
        reveal(Seq::filter);
        assert(component_entries(data).map_values(energy) =~= energies(data));
    } else {
        let front = data.drop_last();
        let d = data.last();
        lemma_component_energy(front);
        assert(front.push(d) == data);
        lemma_filter_push(front, d, about_component());
        assert(energies(data) =~= energies(front).push(entry_energy(d)));
        lemma_sum_push(energies(front), entry_energy(d));
        let before = component_entries(front).map_values(energy);
        if d is Process {
            assert(component_entries(data) =~= component_entries(front));
        } else {
            assert(component_entries(data).map_values(energy) =~= before.push(entry_energy(d)));
            lemma_sum_push(before, entry_energy(d));
        }
    }
}

/// A cap is kept, and the processes that stay are the first of the ranking.
pub proof fn law_cap_keeps_the_first(ranked: Seq<ProcessData>, cap: Option<usize>)
    ensures
        cap matches Some(n) ==> capped(ranked, cap).len() <= n,
        cap is None ==> capped(ranked, cap) == ranked,
        capped(ranked, cap).is_prefix_of(ranked),
{
}

/// The first `n` of a list, or all of it if it is shorter.
pub open spec fn front(list: Seq<ProcessData>, n: usize) -> Seq<ProcessData> {
    list.take(
        if n < list.len() {
            n as int
        } else {
            list.len() as int
        },
    )
}

/// The ranking gives one answer for the account of an event.
pub open spec fn ranks_alike<F: FnOnce(ProcessAccount) -> Vec<ProcessData>>(
    rank: F,
    data: Seq<SensorData>,
) -> bool {
    forall|a: ProcessAccount, b: ProcessAccount, x: Vec<ProcessData>, y: Vec<ProcessData>|
        a.accounts_for(data) && b.accounts_for(data) && #[trigger] call_ensures(rank, (a,), x)
            && #[trigger] call_ensures(rank, (b,), y) ==> x@ == y@
}

/// Two accounted events say the same, the processes apart: they have the same
/// time, the same component entries and the same total.
pub open spec fn agree_but_for_processes(
    r: Event<ComputedSensorData>,
    s: Event<ComputedSensorData>,
) -> bool {
    &&& r.time == s.time
    &&& r.data@.drop_last() == s.data@.drop_last()
    &&& r.data@.last() is Process
    &&& s.data@.last() is Process
}

/// A cap gives a prefix: under a cap of `n` the list is the first `n` of a
/// ranking of the event's account, or all of it if it is shorter, and nothing
/// else differs from the event without a cap. A cap of zero lists nothing. Where
/// the ranking gives one answer, the list is the first `n` of the uncapped one.
pub proof fn law_a_cap_gives_a_prefix<F: FnOnce(ProcessAccount) -> Vec<ProcessData>>(
    event: Event<SensorData>,
    n: usize,
    rank: F,
    all: Event<ComputedSensorData>,
    r: Event<ComputedSensorData>,
)
    requires
        accounted_under(all, event, None, rank),
        accounted_under(r, event, Some(n), rank),
    ensures
        agree_but_for_processes(all, r),
        listed(r).len() <= n,
        n > 0 ==> exists|whole: Seq<ProcessData>| #[trigger]
            ranked_under(whole, event.data@, None, rank) && listed(r) == front(whole, n),
        ranks_alike(rank, event.data@) ==> listed(r) == front(listed(all), n),
{
    if n > 0 {
        let (a, ranked) = choose|a: ProcessAccount, ranked: Vec<ProcessData>|
            {
                &&& a.accounts_for(event.data@)
                &&& #[trigger] call_ensures(rank, (a,), ranked)
                &&& listed(r) == capped(ranked@, Some(n))
            };
        assert(capped(ranked@, None) == ranked@);
        assert(ranked_under(ranked@, event.data@, None, rank));
        assert(ranked@.take(ranked@.len() as int) == ranked@);
    } else {
        assert(listed(r) =~= front(listed(all), n));
    }
    assert(listed(all).take(listed(all).len() as int) == listed(all));
}

/// The usual accounting is that with a cap of ten: it gives an event that this
/// cap gives, with at most ten processes. Both agree but for the processes, and
/// on those too where the ranking gives one answer.
pub proof fn law_the_usual_cap_is_ten<F: FnOnce(ProcessAccount) -> Vec<ProcessData>>(
    event: Event<SensorData>,
    rank: F,
    usual: Event<ComputedSensorData>,
    r: Event<ComputedSensorData>,
)
    requires
        call_ensures(to_computed_event::<F>, (&event, rank), usual),
        call_ensures(to_computed_event_with_cap::<F>, (&event, Some(10usize), rank), r),
    ensures
        accounted_under(usual, event, Some(10usize), rank),
        accounted_under(r, event, Some(10usize), rank),
        listed(usual).len() <= 10,
        agree_but_for_processes(usual, r),
        ranks_alike(rank, event.data@) ==> listed(usual) == listed(r),
{
}

proof fn lemma_filter_remove<T>(s: Seq<T>, i: int, p: spec_fn(T) -> bool)
    requires
        0 <= i < s.len(),
        !p(s[i]),
    ensures
        s.remove(i).filter(p) == s.filter(p),
    decreases s.len(),
{
    reveal(Seq::filter);
    if i == s.len() - 1 {
        assert(s.remove(i) == s.drop_last());
    } else {
        lemma_filter_remove(s.drop_last(), i, p);
        assert(s.remove(i).drop_last() == s.drop_last().remove(i));
        assert(s.remove(i).last() == s.last());
    }
}

/// An entry without energy has no part in the sums.
proof fn lemma_entry_without_energy(data: Seq<SensorData>, i: int)
    requires
        0 <= i < data.len(),
        entry_energy(data[i]) is None,
    ensures
        event_energy(data.remove(i)) == event_energy(data),
        data.remove(i).filter(cpu_with_energy()) == data.filter(cpu_with_energy()),
        data.remove(i).filter(gpu_with_energy()) == data.filter(gpu_with_energy()),
{
    lemma_filter_remove(data, i, cpu_with_energy());
    lemma_filter_remove(data, i, gpu_with_energy());
    assert(energies(data.remove(i)) =~= energies(data).remove(i));
    lemma_sum_remove(energies(data), i);
}

/// Where the list of processes stands does not matter: two events that differ
/// in its place alone have the same account, and an event that is one accounted
/// for under a cap is the other one too. Where the ranking gives one answer,
/// both list the same processes.
pub proof fn law_the_place_of_the_processes_does_not_matter<
    F: FnOnce(ProcessAccount) -> Vec<ProcessData>,
>(
    e: Event<SensorData>,
    f: Event<SensorData>,
    i: int,
    j: int,
    cap: Option<usize>,
    rank: F,
    r: Event<ComputedSensorData>,
    s: Event<ComputedSensorData>,
)
    requires
        e.time == f.time,
        0 <= i < e.data@.len(),
        0 <= j < f.data@.len(),
        e.data@[i] matches SensorData::Process(list) && f.data@[j] matches SensorData::Process(same) && list@
            == same@,
        e.data@.remove(i) == f.data@.remove(j),
        forall|k: int| 0 <= k < e.data@.len() && k != i ==> (#[trigger] e.data@[k]) !is Process,
        accounted_under(r, e, cap, rank),
        accounted_under(s, f, cap, rank),
    ensures
        forall|a: ProcessAccount| a.accounts_for(e.data@) <==> #[trigger] a.accounts_for(f.data@),
        accounted_under(r, f, cap, rank),
        accounted_under(s, e, cap, rank),
        agree_but_for_processes(r, s),
        ranks_alike(rank, e.data@) ==> listed(r) == listed(s),
{
    let rest = e.data@.remove(i);
    assert(rest.len() == e.data@.len() - 1 && f.data@.remove(j).len() == f.data@.len() - 1);
    assert forall|k: int| 0 <= k < f.data@.len() && k != j implies (
    #[trigger] f.data@[k]) !is Process by {
        let q = if k < j { k } else { k - 1 };
        assert(f.data@[k] == f.data@.remove(j)[q]);
        assert(rest[q] == e.data@[if q < i { q } else { q + 1 }]);
    }
    law_the_list_of_processes_is_found(e.data@, i);
    law_the_list_of_processes_is_found(f.data@, j);
    lemma_entry_without_energy(e.data@, i);
    lemma_entry_without_energy(f.data@, j);
    lemma_filter_remove(e.data@, i, about_component());
    lemma_filter_remove(f.data@, j, about_component());
}

/// A processor or GPU that reports no energy stands among the entries and
/// counts for nothing: with it at place `i` of an event, neither the account
/// of the processes changes nor the total, and a list that is ranked under a
/// cap for one is so for the other. Where the ranking gives one answer, both
/// list the same processes.
pub proof fn law_entries_without_energy_do_not_count<
    F: FnOnce(ProcessAccount) -> Vec<ProcessData>,
>(
    e: Event<SensorData>,
    f: Event<SensorData>,
    i: int,
    j: int,
    cap: Option<usize>,
    rank: F,
    r: Event<ComputedSensorData>,
    s: Event<ComputedSensorData>,
)
    requires
        0 <= i < f.data@.len(),
        f.data@[i] is CPU || f.data@[i] is GPU,
        entry_energy(f.data@[i]) is None,
        e.data@ == f.data@.remove(i),
        0 <= j < e.data@.len(),
        e.data@[j] is Process,
        forall|k: int| 0 <= k < e.data@.len() && k != j ==> (#[trigger] e.data@[k]) !is Process,
        accounted_under(r, e, cap, rank),
        accounted_under(s, f, cap, rank),
    ensures
        forall|a: ProcessAccount| a.accounts_for(e.data@) <==> #[trigger] a.accounts_for(f.data@),
        r.data@[r.data@.len() - 2] == s.data@[s.data@.len() - 2],
        r.data@[r.data@.len() - 2] == ComputedSensorData::Total(
            TotalData { total_energy: event_energy(e.data@) },
        ),
        ranked_under(listed(r), f.data@, cap, rank),
        ranked_under(listed(s), e.data@, cap, rank),
        ranks_alike(rank, e.data@) ==> listed(r) == listed(s),
        component_entries(f.data@).contains(as_computed(f.data@[i])),
{
    let place = if j < i { j } else { j + 1 };
    assert(f.data@[place] == e.data@[j]);
    assert forall|k: int| 0 <= k < f.data@.len() && k != place implies (
    #[trigger] f.data@[k]) !is Process by {
        if k != i {
            assert(f.data@[k] == e.data@[if k < i { k } else { k - 1 }]);
        }
    }
    law_the_list_of_processes_is_found(e.data@, j);
    law_the_list_of_processes_is_found(f.data@, place);
    lemma_entry_without_energy(f.data@, i);
    assert(r.data@[r.data@.len() - 2] == r.data@.drop_last().last());
    assert(s.data@[s.data@.len() - 2] == s.data@.drop_last().last());
    f.data@.lemma_filter_contains(about_component(), i);
    let k = choose|k: int|
        0 <= k < f.data@.filter(about_component()).len() && f.data@.filter(about_component())[k] == f.data@[i];
    assert(component_entries(f.data@)[k] == as_computed(f.data@[i]));
}

/// An entry of a component goes over as it is: entry `j` of an event, if it is
/// not a list of processes, stands in the accounted one behind the component
/// entries before it, of the same kind and with the same data, field by field.
pub proof fn law_entries_go_over_unchanged<F: FnOnce(ProcessAccount) -> Vec<ProcessData>>(
    event: Event<SensorData>,
    cap: Option<usize>,
    rank: F,
    r: Event<ComputedSensorData>,
    j: int,
)
    requires
        accounted_under(r, event, cap, rank),
        0 <= j < event.data@.len(),
        event.data@[j] !is Process,
    ensures
        r.time == event.time,
        r.data@.len() == event.data@.filter(|d: SensorData| d !is Process).len() + 2,
        ({
            let i = event.data@.take(j).filter(|d: SensorData| d !is Process).len() as int;
            &&& i < r.data@.len() - 2
            &&& match (event.data@[j], r.data@[i]) {
                (SensorData::CPU(a), ComputedSensorData::CPU(b)) => {
                    &&& b.total_energy == a.total_energy
                    &&& b.pp1_energy == a.pp1_energy
                    &&& b.dram_energy == a.dram_energy
                    &&& b.usage_percent == a.usage_percent
                },
                (SensorData::GPU(a), ComputedSensorData::GPU(b)) => {
                    &&& b.total_energy == a.total_energy
                    &&& b.usage_percent == a.usage_percent
                    &&& b.vram_usage_percent == a.vram_usage_percent
                    &&& b.name == a.name
                },
                (SensorData::Ram(a), ComputedSensorData::Ram(b)) => {
                    &&& b.total_energy == a.total_energy
                    &&& b.usage_percent == a.usage_percent
                },
                (SensorData::Disk(a), ComputedSensorData::Disk(b)) => {
                    &&& b.total_energy == a.total_energy
                    &&& b.read_bytes == a.read_bytes
                    &&& b.written_bytes == a.written_bytes
                },
                (SensorData::Network(a), ComputedSensorData::Network(b)) => {
                    &&& b.total_energy == a.total_energy
                    &&& b.downloaded_bytes == a.downloaded_bytes
                    &&& b.uploaded_bytes == a.uploaded_bytes
                },
                _ => false,
            }
        }),
{
    lemma_entry_place(event.data@, j);
    let i = event.data@.take(j).filter(about_component()).len() as int;
    assert((|d: SensorData| d !is Process) =~= about_component());
    assert(r.data@.drop_last().len() == r.data@.len() - 1);
    assert(component_entries(event.data@).len() == event.data@.filter(about_component()).len());
    assert(r.data@.drop_last()[i] == r.data@[i]);
}

/// The same of an event that is only summed up.
pub proof fn law_summaries_hold_every_component(
    event: Event<SensorData>,
    r: (Vec<ComputedSensorData>, ProcessAccount),
    j: int,
)
    requires
        call_ensures(summarize_event, (&event,), r),
        0 <= j < event.data@.len(),
        event.data@[j] !is Process,
    ensures
        r.0@.len() == event.data@.filter(|d: SensorData| d !is Process).len() + 1,
        ({
            let i = event.data@.take(j).filter(|d: SensorData| d !is Process).len() as int;
            &&& i < r.0@.len() - 1
            &&& match (event.data@[j], r.0@[i]) {
                (SensorData::CPU(a), ComputedSensorData::CPU(b)) => a == b,
                (SensorData::GPU(a), ComputedSensorData::GPU(b)) => a == b,
                (SensorData::Ram(a), ComputedSensorData::Ram(b)) => a == b,
                (SensorData::Disk(a), ComputedSensorData::Disk(b)) => a == b,
                (SensorData::Network(a), ComputedSensorData::Network(b)) => a == b,
                _ => false,
            }
        }),
{
    lemma_entry_place(event.data@, j);
    assert((|d: SensorData| d !is Process) =~= about_component());
}

/// A summary closes with the total of its account, behind one entry for each
/// component.
pub proof fn law_summaries_close_with_the_total(
    event: Event<SensorData>,
    r: (Vec<ComputedSensorData>, ProcessAccount),
)
    requires
        call_ensures(summarize_event, (&event,), r),
    ensures
        r.0@.len() == event.data@.filter(|d: SensorData| d !is Process).len() + 1,
        r.0@.last() matches ComputedSensorData::Total(t) && t.total_energy == r.1.total_energy,
        r.1.accounts_for(event.data@),
{
    assert((|d: SensorData| d !is Process) =~= about_component());
}

proof fn lemma_entry_place(data: Seq<SensorData>, j: int)
    requires
        0 <= j < data.len(),
        data[j] !is Process,
    ensures
        data.take(j).filter(about_component()).len() < component_entries(data).len(),
        component_entries(data)[data.take(j).filter(about_component()).len() as int] == as_computed(data[j]),
{
    lemma_place(data, about_component(), j);
}

/// The account of an event without entries: no energy, no usage, no process.
pub proof fn law_an_empty_event_has_an_empty_account(a: ProcessAccount, data: Seq<SensorData>)
    requires
        a.accounts_for(data),
        data.len() == 0,
    ensures
        a.processes@.len() == 0,
        a.cpu.energy.uj == 0,
        a.cpu.usages@.len() == 0,
        a.gpu.energy.uj == 0,
        a.gpu.usages@.len() == 0,
        a.total_energy.uj == 0,
{
    reveal(Seq::filter);
    assert(data.filter(cpu_with_energy()).len() == 0);
    assert(data.filter(gpu_with_energy()).len() == 0);
    assert(energies(data).len() == 0);
}

/// One more entry: whatever energy it reports is added to the total, as far as
/// the counter goes. The energy of a processor is added to that of the
/// processors too, and its usage is one more usage; likewise for a GPU. Nothing
/// else of the sums changes.
pub proof fn law_every_entry_is_counted_once(
    data: Seq<SensorData>,
    d: SensorData,
    before: ProcessAccount,
    after: ProcessAccount,
)
    requires
        before.accounts_for(data),
        after.accounts_for(data.push(d)),
    ensures
        ({
            let energy: int = match d {
                SensorData::CPU(CPUData { total_energy: Some(e), .. }) => e.uj as int,
                SensorData::GPU(GPUData { total_energy: Some(e), .. }) => e.uj as int,
                SensorData::Ram(RamData { total_energy: Some(e), .. }) => e.uj as int,
                SensorData::Disk(DiskData { total_energy: Some(e), .. }) => e.uj as int,
                SensorData::Network(NetworkData { total_energy: Some(e), .. }) => e.uj as int,
                _ => 0,
            };
            after.total_energy.uj == (if before.total_energy.uj + energy <= u64::MAX {
                before.total_energy.uj + energy
            } else {
                u64::MAX as int
            })
        }),
        match d {
            SensorData::CPU(CPUData { total_energy: Some(e), usage_percent, .. }) => {
                &&& after.cpu.energy.uj == (if before.cpu.energy.uj + e.uj <= u64::MAX {
                    before.cpu.energy.uj + e.uj
                } else {
                    u64::MAX as int
                })
                &&& after.cpu.usages@ == before.cpu.usages@.push(usage_percent)
            },
            _ => after.cpu.energy == before.cpu.energy && after.cpu.usages@ == before.cpu.usages@,
        },
        match d {
            SensorData::GPU(GPUData { total_energy: Some(e), usage_percent, .. }) => {
                &&& after.gpu.energy.uj == (if before.gpu.energy.uj + e.uj <= u64::MAX {
                    before.gpu.energy.uj + e.uj
                } else {
                    u64::MAX as int
                })
                &&& after.gpu.usages@ == before.gpu.usages@.push(usage_percent)
            },
            _ => after.gpu.energy == before.gpu.energy && after.gpu.usages@ == before.gpu.usages@,
        },
{
    assert(energies(data.push(d)) =~= energies(data).push(entry_energy(d)));
    lemma_sum_push(energies(data), entry_energy(d));
    if let Some(e) = entry_energy(d) {
        lemma_saturating_step(energy_sum(energies(data)), e);
    }
    lemma_load_push(before.cpu, after.cpu, data, d, cpu_with_energy());
    lemma_load_push(before.gpu, after.gpu, data, d, gpu_with_energy());
}

proof fn lemma_load_push(
    before: ComponentLoad,
    after: ComponentLoad,
    data: Seq<SensorData>,
    d: SensorData,
    p: spec_fn(SensorData) -> bool,
)
    requires
        before.sums_up(data, p),
        after.sums_up(data.push(d), p),
        p(d) ==> entry_energy(d) is Some,
    ensures
        p(d) ==> after.energy == before.energy.plus(entry_energy(d)->0) && after.usages@
            == before.usages@.push(usage(d)),
        !p(d) ==> after.energy == before.energy && after.usages@ == before.usages@,
{
    lemma_filter_push(data, d, p);
    if p(d) {
        let some = data.filter(p);
        assert(energies(some.push(d)) =~= energies(some).push(entry_energy(d)));
        lemma_sum_push(energies(some), entry_energy(d));
        lemma_saturating_step(energy_sum(energies(some)), entry_energy(d)->0);
        assert(some.push(d).map_values(|d: SensorData| usage(d)) =~= some.map_values(
            |d: SensorData| usage(d),
        ).push(usage(d)));
    }
}

/// The total that stands in an accounted event, behind the components and before
/// the processes, is that of its account.
pub proof fn law_the_total_entry_is_that_of_the_account<F: FnOnce(ProcessAccount) -> Vec<ProcessData>>(
    event: Event<SensorData>,
    cap: Option<usize>,
    rank: F,
    r: Event<ComputedSensorData>,
    a: ProcessAccount,
)
    requires
        accounted_under(r, event, cap, rank),
        a.accounts_for(event.data@),
    ensures
        r.data@.len() >= 2,
        r.data@[r.data@.len() - 2] matches ComputedSensorData::Total(t) && t.total_energy
            == a.total_energy,
        r.data@[r.data@.len() - 1] is Process,
{
    assert(r.data@[r.data@.len() - 2] == r.data@.drop_last().last());
}

/// The processes of an account are found from the last list of processes, at
/// `j`: as many entries in as components stand before that list. If a list
/// stands there, its processes are accounted for, and else none are.
pub proof fn law_processes_are_looked_up(data: Seq<SensorData>, j: int, a: ProcessAccount)
    requires
        a.accounts_for(data),
        0 <= j < data.len(),
        data[j] is Process,
        forall|k: int| j < k < data.len() ==> (#[trigger] data[k]) !is Process,
    ensures
        a.processes@ == (match data[data.take(j).filter(
            |d: SensorData| d !is Process,
        ).len() as int] {
            SensorData::Process(list) => list@,
            _ => Seq::empty(),
        }),
{
    assert((|d: SensorData| d !is Process) =~= about_component());
    lemma_last_where(data, lists_processes());
    lemma_last_where_exists(data, j, lists_processes());
    lemma_last_where_is_last(data, lists_processes());
}

/// An event that lists no processes accounts for none.
pub proof fn law_no_list_no_processes(data: Seq<SensorData>, a: ProcessAccount)
    requires
        a.accounts_for(data),
        forall|k: int| 0 <= k < data.len() ==> (#[trigger] data[k]) !is Process,
    ensures
        a.processes@.len() == 0,
{
    lemma_last_where(data, lists_processes());
}

/// Capping keeps the first `n` of a ranking in their order, or all of it where
/// it is no longer or there is no cap.
pub proof fn law_capping_cuts_the_end_off(
    ranked: Vec<ProcessData>,
    cap: Option<usize>,
    r: Vec<ProcessData>,
    i: int,
)
    requires
        call_ensures(cap_processes, (ranked, cap), r),
    ensures
        r@.len() == (match cap {
            Some(n) => if n < ranked@.len() {
                n as int
            } else {
                ranked@.len() as int
            },
            None => ranked@.len() as int,
        }),
        0 <= i < r@.len() ==> r@[i] == ranked@[i],
{
}

/// The processes that an accounted event lists: none under a cap of zero, and
/// otherwise the first of what the ranking answered for the event's account, as
/// many as the cap admits.
pub proof fn law_listed_processes_are_the_first_ranked<F: FnOnce(ProcessAccount) -> Vec<ProcessData>>(
    event: Event<SensorData>,
    cap: Option<usize>,
    rank: F,
    r: Event<ComputedSensorData>,
)
    requires
        call_ensures(to_computed_event_with_cap::<F>, (&event, cap, rank), r),
    ensures
        r.time == event.time,
        r.data@.len() == event.data@.filter(|d: SensorData| d !is Process).len() + 2,
        r.data@[r.data@.len() - 1] is Process,
        cap == Some(0usize) ==> r.data@[r.data@.len() - 1]->Process_0@.len() == 0,
        cap != Some(0usize) ==> exists|a: ProcessAccount, ranked: Vec<ProcessData>|
            {
                &&& a.accounts_for(event.data@)
                &&& #[trigger] call_ensures(rank, (a,), ranked)
                &&& r.data@[r.data@.len() - 1]->Process_0@.len() == (match cap {
                    Some(n) => if n < ranked@.len() {
                        n as int
                    } else {
                        ranked@.len() as int
                    },
                    None => ranked@.len() as int,
                })
                &&& forall|i: int|
                    0 <= i < r.data@[r.data@.len() - 1]->Process_0@.len() ==> (
                    #[trigger] r.data@[r.data@.len() - 1]->Process_0@[i]) == ranked@[i]
            },
{
    assert((|d: SensorData| d !is Process) =~= about_component());
    assert(r.data@.drop_last().len() == r.data@.len() - 1);
    assert(component_entries(event.data@).len() == event.data@.filter(about_component()).len());
    if cap != Some(0usize) {
        let (a, ranked) = choose|a: ProcessAccount, ranked: Vec<ProcessData>|
            {
                &&& a.accounts_for(event.data@)
                &&& #[trigger] call_ensures(rank, (a,), ranked)
                &&& listed(r) == capped(ranked@, cap)
            };
        assert(call_ensures(rank, (a,), ranked));
    }
}

} // verus!
