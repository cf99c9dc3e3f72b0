use std::cell::RefCell;

use wattseal::collector::{
    publish_sensor_envelope, timestamp_ms, Clock, CollectorApp, MQTTInfo, RunAction, RunPhase, SensorPayload,
};
use wattseal::config::{process_cap, BrokerAddr, ConsumptionUnit, MqttConfig, ProcessPublishMode};
use wattseal::discovery::{build_ha_discovery_configs, HaDevice};
use wattseal::energy::{CumulativeEnergy, EnergyUj};
use wattseal::hardware::HardwareInfo;
use wattseal::publisher::{MQTTClient, MQTTError, MQTTPublisher, QoS};
use wattseal::sensor::{
    ComputedSensorData, Float64, GPUData, GPUSensor, ProcessData, RamData, Sensor, SensorData, SensorError, SensorType,
    TotalData,
};
use wattseal::startup::{assemble_sensors, vendor_indices, GPUVendor, InitAction, Initialization};

struct Recorder<'a> {
    sent: &'a RefCell<Vec<(String, String)>>,
}

impl<'a> MQTTClient for Recorder<'a> {
    fn try_publish_bytes(&self, topic: &str, _: QoS, _: bool, payload: Vec<u8>) -> Result<(), MQTTError> {
        self.sent
            .borrow_mut()
            .push((topic.to_string(), String::from_utf8(payload).unwrap()));
        Ok(())
    }
}

struct Silent;

impl MQTTClient for Silent {
    fn try_publish_bytes(&self, _: &str, _: QoS, _: bool, _: Vec<u8>) -> Result<(), MQTTError> {
        Err(MQTTError::PublishError)
    }
}

fn addr() -> BrokerAddr {
    BrokerAddr {
        host: "::1".to_string(),
        port: 1,
    }
}

fn info<'a>(sent: &'a RefCell<Vec<(String, String)>>, unit: Option<ConsumptionUnit>) -> MQTTInfo<Recorder<'a>> {
    MQTTInfo::new("Node", &addr(), unit, |config: &MqttConfig, hardware: Option<&HardwareInfo>| {
        assert_eq!(config.id, "Node");
        assert!(hardware.is_none());
        MQTTPublisher::new(Recorder { sent })
    })
}

fn payload(n: u32) -> SensorPayload {
    SensorPayload {
        measured: Ok(format!("{{\"uj\":{}}}", n).into_bytes()),
        watt_hours: Ok(format!("{{\"wh\":{}}}", n).into_bytes()),
    }
}

fn ram(energy: Option<u64>) -> ComputedSensorData {
    ComputedSensorData::Ram(RamData {
        total_energy: energy.map(EnergyUj::from_u64),
        usage_percent: None,
    })
}

#[test]
fn a_node_starts_with_no_energy_counted() {
    let sent = RefCell::new(Vec::new());
    let node = info(&sent, Some(ConsumptionUnit::WattHour));
    assert_eq!(node.config.unit, Some(ConsumptionUnit::WattHour));
    assert_eq!(node.config.addr.host, "::1");
    assert_eq!(node.cumulative_energy.get(&"cpu".to_string()), None);
}

#[test]
fn running_totals_go_out_with_the_readings() {
    let sent = RefCell::new(Vec::new());
    let mut node = info(&sent, None);
    let data = vec![
        ram(None),
        ram(Some(5)),
        ComputedSensorData::Total(TotalData {
            total_energy: EnergyUj::from_u64(7),
        }),
        ComputedSensorData::Process(vec![ProcessData { pid: 1, energy: None }]),
    ];
    let results = node.publish_event(&data, (0..4).map(payload).collect(), 100);
    assert!(results.iter().all(|r| r.is_ok()));
    node.publish_event(&vec![ram(Some(u64::MAX)), ram(None)], (4..6).map(payload).collect(), 200);
    let sent = sent.borrow();
    let expected = [
        ("Node/sensor_data/ram", "{\"timestamp_ms\":100,\"uj\":0}"),
        ("Node/sensor_data/ram", "{\"timestamp_ms\":100,\"total_energy_uj\":5,\"uj\":1}"),
        ("Node/sensor_data/total", "{\"timestamp_ms\":100,\"total_energy_uj\":7,\"uj\":2}"),
        ("Node/sensor_data/process", "{\"timestamp_ms\":100,\"uj\":3}"),
        (
            "Node/sensor_data/ram",
            "{\"timestamp_ms\":200,\"total_energy_uj\":18446744073709551615,\"uj\":4}",
        ),
        (
            "Node/sensor_data/ram",
            "{\"timestamp_ms\":200,\"total_energy_uj\":18446744073709551615,\"uj\":5}",
        ),
    ];
    assert_eq!(sent.len(), expected.len());
    for (got, want) in sent.iter().zip(expected.iter()) {
        assert_eq!(got.0, want.0);
        assert_eq!(got.1, want.1);
    }
}

#[test]
fn readings_go_out_in_the_unit_that_is_set() {
    let sent = RefCell::new(Vec::new());
    let node = info(&sent, Some(ConsumptionUnit::WattHour));
    assert!(publish_sensor_envelope(&node, "GPU", payload(1), 1, None).is_ok());
    let node = info(&sent, Some(ConsumptionUnit::AsMeasured));
    assert!(publish_sensor_envelope(&node, "GPU", payload(2), 1, Some(3)).is_ok());
    let sent = sent.borrow();
    assert_eq!(sent[0].0, "Node/sensor_data/gpu");
    assert_eq!(sent[0].1, "{\"timestamp_ms\":1,\"wh\":1}");
    assert_eq!(sent[1].1, "{\"timestamp_ms\":1,\"total_energy_uj\":3,\"uj\":2}");
}

#[test]
fn totals_never_fall() {
    let mut totals = CumulativeEnergy::new();
    let cpu = "cpu".to_string();
    let gpu = "gpu".to_string();
    totals.record(&cpu, Some(EnergyUj::from_u64(4)));
    totals.record(&gpu, Some(EnergyUj::from_u64(1)));
    totals.record(&cpu, None);
    totals.record(&cpu, Some(EnergyUj::from_u64(6)));
    assert_eq!(totals.get(&cpu), Some(10));
    assert_eq!(totals.get(&gpu), Some(1));
    assert_eq!(totals.get(&"ram".to_string()), None);
}

#[test]
fn amounts_stay_in_range() {
    let big = EnergyUj::from_u64(u64::MAX);
    let one = EnergyUj::from_u64(1);
    assert_eq!(big.saturating_add(one), big);
    assert_eq!(one.saturating_add(one).as_u64(), 2);
    assert_eq!(one.saturating_sub(big).as_u64(), 0);
    assert_eq!(big.saturating_sub(one).as_u64(), u64::MAX - 1);
    assert!(one.is_positive() && !EnergyUj::from_u64(0).is_positive());
}

#[test]
fn names_of_components_are_known() {
    assert_eq!(ram(None).sensor_type(), "RAM");
    assert_eq!(ram(Some(2)).total_energy(), Some(EnergyUj::from_u64(2)));
}

#[test]
fn processes_are_capped_as_published() {
    assert_eq!(process_cap(None), Some(10));
    assert_eq!(process_cap(Some(ProcessPublishMode::Disabled)), Some(0));
    assert_eq!(process_cap(Some(ProcessPublishMode::Capped(3))), Some(3));
    let sent = RefCell::new(Vec::new());
    let mut node = info(&sent, None);
    node.config.process_mode = ProcessPublishMode::Disabled;
    let app: CollectorApp<u8, Recorder<'_>, u8> = CollectorApp::new(None, Some(node), 0).unwrap();
    assert_eq!(app.process_cap(), Some(0));
}

struct Card;

impl Sensor for Card {
    type Specs = u8;

    fn read_full_data(&self) -> Result<SensorData, SensorError> {
        Ok(SensorData::GPU(GPUData {
            total_energy: None,
            usage_percent: Some(Float64 { bits: 6 }),
            vram_usage_percent: None,
            name: None,
        }))
    }
}

#[test]
fn a_sample_is_made_from_the_sensors_and_capped() {
    let cases = [
        (None, 10),
        (Some(ProcessPublishMode::Disabled), 0),
        (Some(ProcessPublishMode::Capped(2)), 2),
        (Some(ProcessPublishMode::Capped(40)), 15),
    ];
    for (mode, count) in cases {
        let sent = RefCell::new(Vec::new());
        let node = mode.map(|m| {
            let mut node = info(&sent, None);
            node.config.process_mode = m;
            node
        });
        let mut app: CollectorApp<Card, Recorder<'_>, u8> = CollectorApp::new(None, node, 0).unwrap();
        app.initialize(vec![SensorType::GPU(GPUSensor {
            name: "g".to_string(),
            integrated: false,
            device: Card,
        })]);
        let event = app.collect(
            8,
            1_000,
            55,
            |q, since| EnergyUj::from_u64(q.usage.bits + since as u64),
            |g, secs| {
                assert_eq!(g.name(), "g");
                Ok(vec![(3, Float64 { bits: secs })])
            },
            |usage| {
                let energy = Some(EnergyUj::from_u64(usage[&3].bits));
                (0..15).map(|pid| ProcessData { pid, energy }).collect()
            },
            |account| {
                assert_eq!(account.total_energy.as_u64(), 1_006);
                let mut list = account.processes;
                list.reverse();
                list
            },
        );
        assert_eq!(event.time, 8);
        assert_eq!(event.data.len(), 3);
        assert_eq!(event.data[0].total_energy(), Some(EnergyUj::from_u64(1_006)));
        assert!(matches!(event.data[1], ComputedSensorData::Total(t) if t.total_energy.as_u64() == 1_006));
        match &event.data[2] {
            ComputedSensorData::Process(list) => {
                assert_eq!(list.len(), count);
                for (i, p) in list.iter().enumerate() {
                    assert_eq!(p.pid as usize, 14 - i);
                    assert_eq!(p.energy, Some(EnergyUj::from_u64(55)));
                }
            }
            _ => panic!("the processes come last"),
        }
    }
}

#[test]
fn totals_count_every_event() {
    let sent = RefCell::new(Vec::new());
    let mut node = info(&sent, None);
    let events = [
        vec![ram(None)],
        vec![ram(Some(4)), ram(Some(1))],
        vec![ram(None)],
        vec![ram(Some(u64::MAX - 6))],
        vec![ram(Some(1)), ram(Some(1))],
        vec![ram(Some(9))],
    ];
    for event in events {
        let payloads = event.iter().map(|_| payload(0)).collect();
        node.publish_event(&event, payloads, 1);
    }
    let full = Some(u64::MAX);
    let expected = [None, Some(4), Some(5), Some(5), Some(u64::MAX - 1), full, full, full];
    let sent = sent.borrow();
    assert_eq!(sent.len(), expected.len());
    for (got, want) in sent.iter().zip(expected) {
        let total = match want {
            Some(n) => format!(",\"total_energy_uj\":{}", n),
            None => String::new(),
        };
        assert_eq!(got.1, format!("{{\"timestamp_ms\":1{},\"uj\":0}}", total));
    }
}

type App = CollectorApp<u8, Silent, u8>;

#[test]
fn a_database_that_cannot_be_opened_is_an_error() {
    let r: Result<App, String> = CollectorApp::new(Some(Err("locked".to_string())), None, 0);
    assert_eq!(r.err(), Some("Failed to create database: locked".to_string()));
    let app: App = CollectorApp::new(Some(Ok(3)), None, 0).unwrap();
    assert_eq!(app.database, Some(3));
    assert!(app.mqtt_info.is_none());
    assert_eq!(app.process_cap(), Some(10));
}

fn clock(monotonic_ns: u128, unix_ms: u128) -> Clock {
    Clock { monotonic_ns, unix_ms }
}

#[test]
fn the_loop_waits_collects_saves_and_sleeps() {
    let mut app: App = CollectorApp::new(Some(Ok(3)), None, 100).unwrap();
    let second: u128 = 1_000_000_000;
    assert_eq!(app.run(clock(200, 0)), RunAction::Purge);
    assert_eq!(app.run(clock(500, 0)), RunAction::Wait(second - 300));
    assert_eq!(app.schedule.last_purge, 500);
    assert_eq!(app.run(clock(1_100, 0)), RunAction::Collect(1_000));
    assert_eq!(app.run(clock(1_200, 0)), RunAction::Save);
    assert_eq!(app.run(clock(1_300, 12_345)), RunAction::Sleep(655));
    assert_eq!(app.run(clock(2_100, 0)), RunAction::Collect(1_000));
    assert_eq!(app.run(clock(2_200, 0)), RunAction::Save);
    assert_eq!(app.run(clock(2_300, 13_000)), RunAction::Sleep(1000));
    let day = 86_400 * second;
    assert_eq!(app.run(clock(500 + day, 0)), RunAction::Collect(day - 1_600));
    app.run(clock(500 + day, 0));
    app.run(clock(500 + day, 0));
    assert_eq!(app.run(clock(501 + day, 0)), RunAction::Purge);
    assert_eq!(app.run(clock(600 + day, 0)), RunAction::Collect(100));
    assert_eq!(app.schedule.last_purge, 600 + day);
}

#[test]
fn the_loop_publishes_when_there_is_a_broker() {
    let sent = RefCell::new(Vec::new());
    let mut app: CollectorApp<u8, Recorder<'_>, u8> = CollectorApp::new(None, Some(info(&sent, None)), 0).unwrap();
    app.run(clock(0, 0));
    assert_eq!(app.run(clock(2_000_000_000, 0)), RunAction::Wait(0));
    assert!(matches!(app.run(clock(5, 0)), RunAction::Collect(5)));
    assert_eq!(app.run(clock(5, 0)), RunAction::Publish);
    assert_eq!(app.run(clock(5, 999)), RunAction::Sleep(1));
    assert_eq!(app.schedule.phase, RunPhase::Asleep);
}

#[test]
fn the_schedule_fits_the_collector() {
    for (saves, publishes) in [(false, false), (false, true), (true, false), (true, true)] {
        let sent = RefCell::new(Vec::new());
        let database = if saves { Some(Ok(1)) } else { None };
        let node = if publishes { Some(info(&sent, None)) } else { None };
        let mut app: CollectorApp<u8, Recorder<'_>, u8> = CollectorApp::new(database, node, 0).unwrap();
        app.initialize(assemble_sensors(Ok(1), vec![], 3, 4, 5));
        for second in 0..200 {
            let action = app.run(clock(second * 1_000_000_000_000, 0));
            assert_eq!(app.schedule.saves, app.database.is_some());
            assert_eq!(app.schedule.publishes, app.mqtt_info.is_some());
            assert!(saves || action != RunAction::Save);
            assert!(publishes || action != RunAction::Publish);
        }
    }
}

#[test]
fn samples_are_saved_before_they_are_published() {
    let sent = RefCell::new(Vec::new());
    let mut app: CollectorApp<u8, Recorder<'_>, u8> =
        CollectorApp::new(Some(Ok(1)), Some(info(&sent, None)), 0).unwrap();
    app.run(clock(0, 0));
    app.run(clock(0, 0));
    assert!(matches!(app.run(clock(9, 0)), RunAction::Collect(9)));
    assert_eq!(app.run(clock(9, 0)), RunAction::Save);
    assert_eq!(app.run(clock(9, 0)), RunAction::Publish);
    assert_eq!(app.run(clock(9, 1_500)), RunAction::Sleep(500));
}

#[test]
fn readings_go_where_home_assistant_reads_them() {
    let sent = RefCell::new(Vec::new());
    let mut node = info(&sent, None);
    node.publish_event(&vec![ram(Some(1))], vec![payload(1)], 1);
    let device = HaDevice::new("Node", None, None, None);
    let configs = build_ha_discovery_configs("Node", &device);
    let (_, config) = configs.iter().find(|(t, _)| t.contains("ram_energy")).unwrap();
    assert_eq!(sent.borrow()[0].0, config.state_topic);
}

#[test]
fn time_is_stamped_in_milliseconds() {
    assert_eq!(timestamp_ms(1700000000000), 1700000000000);
    assert_eq!(timestamp_ms(u64::MAX as u128), -1);
}

#[test]
fn gpus_are_numbered_by_vendor() {
    let vendors = vec![
        GPUVendor::Amd,
        GPUVendor::Nvidia,
        GPUVendor::Other,
        GPUVendor::Amd,
        GPUVendor::Intel,
        GPUVendor::Other,
        GPUVendor::Nvidia,
    ];
    assert_eq!(vendor_indices(&vendors), vec![0, 0, 0, 1, 0, 0, 1]);
}

fn gpu(device: u8) -> GPUSensor<u8> {
    GPUSensor {
        name: "g".to_string(),
        integrated: false,
        device,
    }
}

#[test]
fn sensors_that_open_are_assembled() {
    let failed = || SensorError::ReadError("no".to_string());
    let sensors = assemble_sensors(Ok(1), vec![Err(failed()), Ok(gpu(2))], 3, 4, 5);
    assert_eq!(sensors.len(), 5);
    assert!(matches!(sensors[0], SensorType::CPU(1)));
    assert!(matches!(&sensors[1], SensorType::GPU(g) if g.device == 2 && !g.is_integrated() && g.name() == "g"));
    assert!(matches!(sensors[2], SensorType::RAM(3)));
    assert!(matches!(sensors[3], SensorType::Disk(4)));
    assert!(matches!(sensors[4], SensorType::Network(5)));
    assert_eq!(assemble_sensors(Err(failed()), vec![], 3u8, 4, 5).len(), 3);
    let mut app: App = CollectorApp::new(None, None, 0).unwrap();
    let init = app.initialize(sensors);
    assert_eq!(app.sensors.len(), 5);
    assert!(matches!(init.action(), InitAction::GatherHardware));
}

#[test]
fn initialization_runs_through() {
    let mut init = Initialization::start(true, Some("n".to_string()));
    assert!(matches!(init.action(), InitAction::CreateTables));
    init.advance(Ok(()));
    assert!(matches!(init.action(), InitAction::GatherHardware));
    init.advance(Ok(()));
    assert!(matches!(init.action(), InitAction::SaveHardware));
    init.advance(Err("disk full".to_string()));
    assert!(matches!(init.action(), InitAction::PublishHardware(t) if t == "n/hardware_info"));
    init.advance(Err("no broker".to_string()));
    assert!(matches!(init.action(), InitAction::Finish(Ok(()))));
    init.advance(Err("late".to_string()));
    assert!(matches!(init.action(), InitAction::Finish(Ok(()))));
}

#[test]
fn tables_that_cannot_be_made_refuse_the_start() {
    let mut init = Initialization::start(true, Some("n".to_string()));
    init.advance(Err("read-only".to_string()));
    match init.action() {
        InitAction::Finish(Err(m)) => assert_eq!(m, "Failed to create database tables: read-only"),
        _ => panic!("a refusal was expected"),
    }
    init.advance(Ok(()));
    assert!(matches!(init.action(), InitAction::Finish(Err(_))));
}

#[test]
fn without_places_to_keep_it_the_description_is_only_made() {
    let mut init = Initialization::start(false, None);
    assert!(matches!(init.action(), InitAction::GatherHardware));
    init.advance(Ok(()));
    assert!(matches!(init.action(), InitAction::Finish(Ok(()))));
}
