use std::collections::HashMap;

use wattseal::computed::{
    cap_processes, summarize_event, to_computed_event, to_computed_event_with_cap, ProcessAccount,
};
use wattseal::energy::EnergyUj;
use wattseal::event::{create_event_from_sensors, draft_event, finish_event, GpuTag, SensorReading};
use wattseal::hardware::{
    describe_hardware, get_hardware_info, table_names, BatteryAnswer, BatteryFacts, DisplayFacts, InitialInfo, PlatformFacts,
};
use wattseal::process::{get_process_gpu_usage, merge_gpu_usage};
use wattseal::sensor::{
    CPUData, ComputedSensorData, DiskData, Event, Float32, Float64, GPUData, GPUSensor, NetworkData, ProcessData,
    RamData, Sensor, SensorData, SensorError, SensorType,
};

fn uj(n: u64) -> Option<EnergyUj> {
    Some(EnergyUj::from_u64(n))
}

fn percent(x: f64) -> Option<Float64> {
    Some(Float64 { bits: x.to_bits() })
}

fn cpu(total: Option<EnergyUj>, pp1: Option<EnergyUj>, dram: Option<EnergyUj>) -> SensorData {
    SensorData::CPU(CPUData {
        total_energy: total,
        pp1_energy: pp1,
        dram_energy: dram,
        usage_percent: percent(40.0),
    })
}

fn gpu(total: Option<EnergyUj>, usage: Option<Float64>) -> SensorData {
    SensorData::GPU(GPUData {
        total_energy: total,
        usage_percent: usage,
        vram_usage_percent: None,
        name: Some("card".to_string()),
    })
}

fn ram(total: Option<EnergyUj>) -> SensorData {
    SensorData::Ram(RamData {
        total_energy: total,
        usage_percent: None,
    })
}

fn plain(data: SensorData) -> SensorReading {
    SensorReading {
        gpu: None,
        result: Ok(data),
    }
}

fn from_gpu(name: &str, integrated: bool, result: Result<SensorData, SensorError>) -> SensorReading {
    SensorReading {
        gpu: Some(GpuTag {
            name: name.to_string(),
            integrated,
        }),
        result,
    }
}

fn energies(data: &[SensorData]) -> Vec<Option<u64>> {
    data.iter().map(|d| d.total_energy().map(|e| e.as_u64())).collect()
}

#[test]
fn metered_graphics_energy_moves_to_the_integrated_gpu() {
    let draft = draft_event(vec![
        plain(cpu(uj(100), uj(30), None)),
        from_gpu("first", false, Ok(gpu(None, None))),
        from_gpu("igpu", true, Ok(gpu(None, None))),
    ]);
    assert_eq!(energies(&draft.data), vec![Some(70), None, Some(30)]);
    assert_eq!(draft.requests.len(), 0);
    match &draft.data[0] {
        SensorData::CPU(c) => assert!(c.pp1_energy.is_none() && c.dram_energy.is_none()),
        _ => panic!("the processor comes first"),
    }
}

#[test]
fn metered_graphics_energy_falls_back_to_a_gpu_without_energy() {
    let draft = draft_event(vec![
        plain(cpu(uj(100), uj(30), None)),
        from_gpu("igpu", true, Ok(gpu(uj(5), None))),
        from_gpu("card", false, Ok(gpu(None, percent(10.0)))),
    ]);
    assert_eq!(energies(&draft.data), vec![Some(70), Some(5), Some(30)]);
    assert_eq!(draft.requests.len(), 0);
}

#[test]
fn metered_graphics_energy_gets_an_entry_of_its_own() {
    let draft = draft_event(vec![
        from_gpu("broken", true, Err(SensorError::ReadError("gone".to_string()))),
        plain(cpu(uj(10), uj(30), None)),
        plain(ram(None)),
    ]);
    assert_eq!(energies(&draft.data), vec![Some(0), None, Some(30)]);
    match &draft.data[2] {
        SensorData::GPU(g) => {
            assert_eq!(g.name, Some("broken".to_string()));
            assert!(g.usage_percent.is_none());
        }
        _ => panic!("a GPU was expected"),
    }
}

#[test]
fn metered_memory_energy_replaces_that_of_the_last_memory_entry() {
    let draft = draft_event(vec![
        plain(ram(uj(1))),
        plain(ram(uj(2))),
        plain(cpu(uj(100), None, uj(9))),
    ]);
    assert_eq!(energies(&draft.data), vec![Some(1), Some(9), Some(100)]);
}

#[test]
fn metering_of_zero_moves_nothing_but_keeps_the_estimate_away() {
    let draft = draft_event(vec![
        plain(cpu(uj(100), uj(0), uj(0))),
        plain(ram(uj(2))),
        from_gpu("igpu", true, Ok(gpu(None, percent(10.0)))),
        from_gpu("card", false, Ok(gpu(None, percent(20.0)))),
    ]);
    assert_eq!(energies(&draft.data), vec![Some(100), Some(2), None, None]);
    assert_eq!(draft.requests.len(), 1);
    assert_eq!(draft.requests[0].index, 3);
    assert_eq!(draft.requests[0].name, "card");
    assert_eq!(f64::from_bits(draft.requests[0].usage.bits), 20.0);
}

#[test]
fn energy_is_conserved_when_it_is_moved() {
    let draft = draft_event(vec![
        plain(cpu(uj(100), uj(30), None)),
        plain(ram(uj(7))),
        from_gpu("card", false, Ok(gpu(uj(11), None))),
    ]);
    let sum: u64 = energies(&draft.data).into_iter().flatten().sum();
    assert_eq!(sum, 118);
}

#[test]
fn estimates_fill_gaps_and_processes_close_the_event() {
    let draft = draft_event(vec![
        SensorReading {
            gpu: None,
            result: Err(SensorError::NotSupported),
        },
        from_gpu("a", false, Ok(gpu(None, percent(1.0)))),
        from_gpu("b", false, Ok(gpu(uj(4), percent(1.0)))),
        from_gpu("c", true, Ok(gpu(None, percent(3.0)))),
    ]);
    assert_eq!(draft.requests.len(), 2);
    let list = vec![ProcessData { pid: 7, energy: None }];
    let event = finish_event(77, draft, &vec![EnergyUj::from_u64(50), EnergyUj::from_u64(60)], list.clone());
    assert_eq!(event.time, 77);
    assert_eq!(energies(&event.data), vec![Some(50), Some(4), Some(60), None]);
    match &event.data[3] {
        SensorData::Process(p) => assert_eq!(*p, list),
        _ => panic!("the processes come last"),
    }
}

struct Fixed {
    energy: Option<u64>,
    specs: Option<&'static str>,
}

impl Sensor for Fixed {
    type Specs = String;

    fn read_full_data(&self) -> Result<SensorData, SensorError> {
        match self.energy {
            Some(n) => Ok(SensorData::Disk(DiskData {
                total_energy: uj(n),
                read_bytes: 1,
                written_bytes: 2,
            })),
            None => Err(SensorError::ReadError("no data".to_string())),
        }
    }

    fn read_initial_info(&self) -> Result<String, SensorError> {
        match self.specs {
            Some(s) => Ok(s.to_string()),
            None => Err(SensorError::NotSupported),
        }
    }
}

struct Bare;

impl Sensor for Bare {
    type Specs = String;

    fn read_full_data(&self) -> Result<SensorData, SensorError> {
        Ok(gpu(None, percent(50.0)))
    }
}

fn fixed(energy: Option<u64>, specs: Option<&'static str>) -> Fixed {
    Fixed { energy, specs }
}

#[test]
fn sensor_types_pass_questions_on() {
    let s = SensorType::CPU(fixed(Some(3), Some("chip")));
    assert_eq!(s.read_full_data().unwrap().total_energy().unwrap().as_u64(), 3);
    assert_eq!(s.read_initial_info().unwrap(), "chip");
    assert!(matches!(s.read_name(), Err(SensorError::NotSupported)));
    let n = SensorType::Network(fixed(Some(3), Some("card")));
    assert!(matches!(n.read_initial_info(), Err(SensorError::NotSupported)));
    assert!(matches!(
        SensorType::Disk(fixed(None, None)).read_full_data(),
        Err(SensorError::ReadError(_))
    ));
    assert!(matches!(SensorType::RAM(Bare).read_name(), Err(SensorError::NotSupported)));
    assert!(matches!(Bare.read_initial_info(), Err(SensorError::NotSupported)));
}

#[test]
fn an_event_is_made_from_sensors() {
    let sensors = vec![
        SensorType::GPU(GPUSensor {
            name: "card".to_string(),
            integrated: false,
            device: Bare,
        }),
        SensorType::Network(Bare),
    ];
    let event = create_event_from_sensors(
        &sensors,
        9,
        1_000,
        77,
        |q, since| EnergyUj::from_u64(q.index as u64 + since as u64 + f64::from_bits(q.usage.bits) as u64),
        |g, secs| {
            assert_eq!(g.name(), "card");
            Ok(vec![(4, Float64 { bits: secs })])
        },
        |usage| {
            assert_eq!(usage.len(), 1);
            usage
                .iter()
                .map(|(pid, x)| ProcessData { pid: *pid, energy: uj(x.bits) })
                .collect()
        },
    );
    assert_eq!(event.time, 9);
    assert_eq!(energies(&event.data), vec![Some(1050), None, None]);
    match &event.data[2] {
        SensorData::Process(list) => assert_eq!(list, &vec![ProcessData { pid: 4, energy: uj(77) }]),
        _ => panic!("the processes come last"),
    }
}

fn sample() -> Event<SensorData> {
    Event {
        time: 5,
        data: vec![
            cpu(uj(10), None, None),
            gpu(uj(20), percent(30.0)),
            gpu(None, percent(99.0)),
            SensorData::Process(vec![ProcessData { pid: 1, energy: None }]),
            SensorData::Network(NetworkData {
                total_energy: uj(3),
                downloaded_bytes: 1,
                uploaded_bytes: 2,
            }),
        ],
    }
}

#[test]
fn an_event_is_summed_up() {
    let (entries, account) = summarize_event(&sample());
    assert_eq!(entries.len(), 5);
    assert!(matches!(entries[4], ComputedSensorData::Total(t) if t.total_energy.as_u64() == 33));
    assert_eq!(account.total_energy.as_u64(), 33);
    assert_eq!(account.cpu.energy.as_u64(), 10);
    assert_eq!(account.gpu.energy.as_u64(), 20);
    assert_eq!(account.gpu.usages, vec![percent(30.0)]);
    assert_eq!(account.processes, vec![ProcessData { pid: 1, energy: None }]);
}

#[test]
fn totals_stay_in_range() {
    let event = Event {
        time: 0,
        data: vec![ram(uj(u64::MAX)), ram(uj(5))],
    };
    let (_, account) = summarize_event(&event);
    assert_eq!(account.total_energy.as_u64(), u64::MAX);
    assert_eq!(account.processes.len(), 0);
}

#[test]
fn a_second_list_of_processes_hides_the_first() {
    let list = |pid: u32| SensorData::Process(vec![ProcessData { pid, energy: None }]);
    let event = Event {
        time: 0,
        data: vec![list(1), ram(None), list(2)],
    };
    assert_eq!(summarize_event(&event).1.processes.len(), 0);
    let event = Event {
        time: 0,
        data: vec![ram(None), list(1), list(2)],
    };
    assert_eq!(summarize_event(&event).1.processes[0].pid, 1);
}

fn ranking(n: u32) -> Vec<ProcessData> {
    (0..n).map(|pid| ProcessData { pid, energy: uj(1) }).collect()
}

fn listed(event: &Event<ComputedSensorData>) -> Vec<ProcessData> {
    match event.data.last() {
        Some(ComputedSensorData::Process(p)) => p.clone(),
        _ => panic!("the processes come last"),
    }
}

#[test]
fn processes_are_capped() {
    assert_eq!(cap_processes(ranking(5), Some(2)), ranking(2));
    assert_eq!(cap_processes(ranking(5), Some(9)), ranking(5));
    assert_eq!(cap_processes(ranking(5), None), ranking(5));
    let event = sample();
    let computed = to_computed_event_with_cap(&event, Some(3), |a| {
        assert_eq!(a.total_energy.as_u64(), 33);
        ranking(4)
    });
    assert_eq!(computed.time, 5);
    assert_eq!(computed.data.len(), 6);
    assert_eq!(listed(&computed), ranking(3));
    assert_eq!(listed(&to_computed_event(&event, |_| ranking(12))), ranking(10));
    assert_eq!(listed(&to_computed_event_with_cap(&event, None, |_| ranking(12))), ranking(12));
}

#[test]
fn no_ranking_is_made_when_nothing_is_listed() {
    let computed = to_computed_event_with_cap(&sample(), Some(0), |_| panic!("not asked for"));
    assert_eq!(listed(&computed).len(), 0);
}

fn ranked(account: ProcessAccount) -> Vec<ProcessData> {
    let load = account.cpu.energy.as_u64() + account.gpu.energy.as_u64() + account.gpu.usages.len() as u64;
    let mut list = account.processes;
    list.extend((20..32).map(|pid| ProcessData { pid, energy: uj(load) }));
    list
}

#[test]
fn a_cap_gives_a_prefix() {
    let event = sample();
    let all = to_computed_event_with_cap(&event, None, ranked);
    assert_eq!(listed(&all).len(), 13);
    for n in [0, 1, 5, 13, 20] {
        let r = to_computed_event_with_cap(&event, Some(n), ranked);
        assert_eq!(listed(&r), listed(&all)[..n.min(13)].to_vec());
        assert_eq!(format!("{:?}", &r.data[..5]), format!("{:?}", &all.data[..5]));
        assert_eq!(r.time, all.time);
    }
}

#[test]
fn the_usual_cap_is_ten() {
    let event = sample();
    let usual = to_computed_event(&event, ranked);
    let r = to_computed_event_with_cap(&event, Some(10), ranked);
    assert_eq!(listed(&usual).len(), 10);
    assert_eq!(format!("{:?}", usual.data), format!("{:?}", r.data));
    assert_eq!(usual.time, r.time);
}

#[test]
fn the_place_of_the_processes_does_not_matter() {
    let first = to_computed_event_with_cap(&sample(), Some(4), ranked);
    for place in 0..5 {
        let mut event = sample();
        let list = event.data.remove(3);
        event.data.insert(place, list);
        let r = to_computed_event_with_cap(&event, Some(4), ranked);
        assert_eq!(format!("{:?}", r.data), format!("{:?}", first.data));
        assert_eq!(r.time, first.time);
    }
}

#[test]
fn entries_without_energy_do_not_count() {
    let without = to_computed_event_with_cap(&sample(), Some(4), ranked);
    for place in 0..6 {
        for extra in [gpu(None, percent(77.0)), cpu(None, None, None)] {
            let mut event = sample();
            event.data.insert(place, extra);
            let with = to_computed_event_with_cap(&event, Some(4), ranked);
            assert_eq!(with.data.len(), without.data.len() + 1);
            assert!(matches!(with.data[5], ComputedSensorData::Total(t) if t.total_energy.as_u64() == 33));
            assert_eq!(listed(&with), listed(&without));
        }
    }
}

#[test]
fn gpu_usage_of_processes_is_merged() {
    let usage = |x: f64| Float64 { bits: x.to_bits() };
    let answers = vec![
        Ok(vec![(1, usage(1.0)), (2, usage(2.0))]),
        Err(SensorError::NotSupported),
        Ok(vec![(2, usage(5.0)), (3, usage(3.0))]),
    ];
    let merged: HashMap<u32, Float64> = merge_gpu_usage(&answers);
    assert_eq!(merged.len(), 3);
    assert_eq!(merged[&1], usage(1.0));
    assert_eq!(merged[&2], usage(5.0));
    assert_eq!(merged[&3], usage(3.0));
}

#[test]
fn only_gpus_are_asked_for_the_usage_of_processes() {
    let card = |name: &str| {
        SensorType::GPU(GPUSensor {
            name: name.to_string(),
            integrated: false,
            device: Bare,
        })
    };
    let sensors = vec![card("1"), SensorType::CPU(Bare), card("x"), card("2")];
    let usages = get_process_gpu_usage(&sensors, 77, |gpu, secs| match gpu.name().parse::<u64>() {
        Ok(n) => Ok(vec![(9, Float64 { bits: secs + n })]),
        Err(_) => Err(SensorError::NotSupported),
    });
    assert_eq!(usages.len(), 1);
    assert_eq!(usages[&9].bits, 79);
}

fn facts() -> PlatformFacts {
    PlatformFacts {
        os_name: Some("Linux".to_string()),
        os_version: None,
        host_name: Some("host".to_string()),
        displays: Some(vec![DisplayFacts {
            friendly_name: "screen".to_string(),
            width: 1920,
            height: 1080,
            frequency_hz: 60,
            is_primary: true,
        }]),
        battery: BatteryAnswer::Read(BatteryFacts {
            vendor: Some("maker".to_string()),
            energy_full_design_wh: Float32 { bits: 50.5f32.to_bits() },
            energy_full_wh: Float32 { bits: 40.0f32.to_bits() },
            cycle_count: Some(12),
        }),
    }
}

#[test]
fn hardware_is_described() {
    let sensors = vec![
        SensorType::CPU(fixed(None, Some("chip"))),
        SensorType::RAM(fixed(None, None)),
        SensorType::Network(fixed(None, Some("hidden"))),
    ];
    let tables = table_names(vec!["cpu".to_string()], "process".to_string(), "total".to_string());
    let general = get_hardware_info(&sensors, &tables, facts());
    assert_eq!(general.tables, "cpu,process,total");
    assert_eq!(general.hardware_info.len(), 4);
    assert!(matches!(&general.hardware_info[0], InitialInfo::Device(d) if d == "chip"));
    match &general.hardware_info[1] {
        InitialInfo::System(s) => {
            assert_eq!(s.os, "Linux ");
            assert_eq!(s.hostname, "host");
            assert!(!s.is_virtual_machine);
        }
        _ => panic!("the system was expected"),
    }
    match &general.hardware_info[2] {
        InitialInfo::Displays(d) => {
            assert_eq!(d.len(), 1);
            assert_eq!(d[0].model, "screen");
            assert_eq!(d[0].resolution, "1920x1080");
            assert_eq!(d[0].refresh_rate_hz, 60);
            assert!(d[0].is_primary);
        }
        _ => panic!("the screens were expected"),
    }
    match &general.hardware_info[3] {
        InitialInfo::Battery(b) => {
            assert!(b.present);
            assert_eq!(b.name, Some("maker".to_string()));
            assert_eq!(b.design_capacity_wh, Some(Float32 { bits: 50.5f32.to_bits() }));
            assert_eq!(b.full_charge_capacity_wh, Some(Float32 { bits: 40.0f32.to_bits() }));
            assert_eq!(b.cycle_count, Some(12));
        }
        _ => panic!("the battery was expected"),
    }
}

#[test]
fn a_node_without_battery_says_so() {
    let mut facts = facts();
    facts.battery = BatteryAnswer::Absent;
    facts.displays = None;
    facts.os_name = None;
    facts.host_name = None;
    let answers: Vec<Result<u8, SensorError>> = vec![Err(SensorError::ReadError("x".to_string()))];
    let general = describe_hardware(answers, &vec![], facts);
    assert_eq!(general.tables, "");
    assert_eq!(general.hardware_info.len(), 3);
    assert!(matches!(&general.hardware_info[0], InitialInfo::System(s) if s.os == " " && s.hostname.is_empty()));
    assert!(matches!(&general.hardware_info[1], InitialInfo::Displays(d) if d.is_empty()));
    assert!(matches!(
        &general.hardware_info[2],
        InitialInfo::Battery(b) if !b.present && b.name.is_none() && b.cycle_count.is_none()
    ));
}

#[test]
fn a_battery_that_cannot_be_read_counts_as_none() {
    for answer in [BatteryAnswer::Unlisted, BatteryAnswer::Unreadable] {
        let mut facts = facts();
        facts.battery = answer;
        let answers: Vec<Result<u8, SensorError>> = vec![Ok(1)];
        let general = describe_hardware(answers, &vec![], facts);
        assert!(matches!(
            &general.hardware_info[3],
            InitialInfo::Battery(b) if !b.present && b.design_capacity_wh.is_none() && b.full_charge_capacity_wh.is_none()
        ));
    }
}
