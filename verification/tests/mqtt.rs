use std::cell::RefCell;

use serde_json::{Number, Value};
use wattseal::config::{BrokerAddr, ConsumptionUnit, MqttConfig, ProcessPublishMode};
use wattseal::connection::{connect_options, Connection, ConnectionAction, ConnectionEvent};
use wattseal::discovery::{build_ha_discovery_configs, metric_descriptors, HaDevice};
use wattseal::envelope::Envelope;
use wattseal::hardware::{CpuInfo, HardwareInfo, SystemInfo};
use wattseal::publisher::{MQTTClient, MQTTError, MQTTPublisher, QoS};
use wattseal::text::{decimal_text, hex4_text, join, signed_decimal_text};
use wattseal::topics::{ha_discovery_topic, hardware_info_topic, sensor_type_to_topic, status_topic};

struct Call {
    topic: String,
    qos: QoS,
    retain: bool,
    payload: Vec<u8>,
}

struct Recorder<'a> {
    calls: &'a RefCell<Vec<Call>>,
    accepts: bool,
}

impl<'a> MQTTClient for Recorder<'a> {
    fn try_publish_bytes(&self, topic: &str, qos: QoS, retain: bool, payload: Vec<u8>) -> Result<(), MQTTError> {
        self.calls.borrow_mut().push(Call {
            topic: topic.to_string(),
            qos,
            retain,
            payload,
        });
        if self.accepts {
            Ok(())
        } else {
            Err(MQTTError::PublishError)
        }
    }
}

fn publisher(calls: &RefCell<Vec<Call>>) -> MQTTPublisher<Recorder<'_>> {
    MQTTPublisher::new(Recorder { calls, accepts: true })
}

fn object(key: &str, value: Value) -> Value {
    let mut map = serde_json::Map::new();
    map.insert(key.to_string(), value);
    Value::Object(map)
}

fn config() -> MqttConfig {
    MqttConfig::new(
        "node".to_string(),
        BrokerAddr {
            host: "10.0.0.1".to_string(),
            port: 1883,
        },
    )
}

#[test]
fn test_valid_publish() {
    let test_topic = "wattseal_collector/sensor_data/cpu";
    let calls = RefCell::new(Vec::new());
    let publisher = publisher(&calls);
    let data = object("test_value", Value::Number(Number::from(6)));

    let result = publisher.publish(test_topic, serde_json::to_vec(&data));

    assert!(result.is_ok());
    let calls = calls.borrow();
    assert_eq!(calls.len(), 1);
    assert_eq!(calls[0].topic, test_topic);
    assert_eq!(calls[0].qos, QoS::AtLeastOnce);
    assert!(!calls[0].retain);
    assert_eq!(calls[0].payload, b"{\"test_value\":6}".to_vec());
}

#[test]
fn test_envelope_serialization() {
    let test_topic = "wattseal_collector/sensor_data/cpu";
    let calls = RefCell::new(Vec::new());
    let publisher = publisher(&calls);
    let data = object("usage_percent", Value::Number(Number::from_f64(45.5).unwrap()));

    let result = publisher.publish_envelope(test_topic, serde_json::to_vec(&data), 1700000000000, Some(500000));

    assert!(result.is_ok());
    let calls = calls.borrow();
    assert_eq!(calls.len(), 1);
    let text = String::from_utf8_lossy(&calls[0].payload).to_string();
    assert_eq!(calls[0].topic, test_topic);
    assert!(text.contains("\"timestamp_ms\":1700000000000"));
    assert!(text.contains("\"total_energy_uj\":500000"));
    assert!(text.contains("\"usage_percent\":45.5"));
    assert_eq!(
        text,
        "{\"timestamp_ms\":1700000000000,\"total_energy_uj\":500000,\"usage_percent\":45.5}"
    );
}

#[test]
fn test_ha_discovery_building() {
    let device = HaDevice::new("test_node", Some("my-host"), Some("Windows 11"), Some("Core i7"));

    let configs = build_ha_discovery_configs("test_node", &device);
    assert!(!configs.is_empty());

    let (cpu_topic, cpu_cfg) = configs.iter().find(|(t, _)| t.contains("cpu_usage")).unwrap();
    assert_eq!(cpu_topic, "homeassistant/sensor/test_node/cpu_usage/config");
    assert_eq!(cpu_cfg.state_topic, "test_node/sensor_data/cpu");
    assert_eq!(cpu_cfg.device.name, "my-host");
}

#[test]
fn a_retained_message_is_retained() {
    let calls = RefCell::new(Vec::new());
    let publisher = publisher(&calls);
    assert!(publisher.publish_retained("t", Ok(vec![1, 2])).is_ok());
    let calls = calls.borrow();
    assert!(calls[0].retain);
    assert_eq!(calls[0].payload, vec![1, 2]);
}

#[test]
fn a_client_that_refuses_is_heard() {
    let calls = RefCell::new(Vec::new());
    let publisher = MQTTPublisher::new(Recorder {
        calls: &calls,
        accepts: false,
    });
    assert!(matches!(publisher.publish("t", Ok(vec![])), Err(MQTTError::PublishError)));
    assert!(matches!(publisher.publish_offline("n"), Err(MQTTError::PublishError)));
    assert_eq!(calls.borrow().len(), 2);
}

#[test]
fn an_error_of_serialization_is_passed_on() {
    let calls = RefCell::new(Vec::new());
    let publisher = publisher(&calls);
    for k in 0..3 {
        let error = serde_json::from_str::<Value>("{").unwrap_err();
        let text = error.to_string();
        let result = match k {
            0 => publisher.publish("t", Err(error)),
            1 => publisher.publish_retained("t", Err(error)),
            _ => publisher.publish_envelope("t", Err(error), 1, None),
        };
        match result {
            Err(MQTTError::SerializationError(e)) => assert_eq!(e.to_string(), text),
            _ => panic!("a serialization error was expected"),
        }
    }
    assert_eq!(calls.borrow().len(), 0);
}

#[test]
fn a_reading_without_members_leaves_the_time_alone() {
    let calls = RefCell::new(Vec::new());
    let publisher = publisher(&calls);
    for text in ["null", "{}"] {
        assert!(publisher.publish_envelope("t", Ok(text.as_bytes().to_vec()), 3, None).is_ok());
    }
    let calls = calls.borrow();
    assert_eq!(calls.len(), 2);
    assert_eq!(calls[0].payload, b"{\"timestamp_ms\":3}".to_vec());
    assert_eq!(calls[1].payload, calls[0].payload);
}

#[test]
fn only_members_have_an_envelope() {
    let calls = RefCell::new(Vec::new());
    let publisher = publisher(&calls);
    for text in ["5", "\"x\"", "[1]", "true", "nul", "", "{"] {
        match publisher.publish_envelope("t", Ok(text.as_bytes().to_vec()), 1, None) {
            Err(MQTTError::SerializationError(e)) => {
                assert_eq!(e.to_string(), "can only flatten structs and maps")
            }
            _ => panic!("a serialization error was expected"),
        }
    }
    assert_eq!(calls.borrow().len(), 0);
}

fn framed(timestamp_ms: i64, total_energy_uj: Option<u64>, data: &str) -> Option<String> {
    let data = data.as_bytes().to_vec();
    let envelope = Envelope {
        timestamp_ms,
        total_energy_uj,
        data: &data,
    };
    envelope.to_json().map(|v| String::from_utf8(v).unwrap())
}

#[test]
fn an_envelope_flattens_its_data() {
    assert_eq!(framed(5, None, "{}").unwrap(), "{\"timestamp_ms\":5}");
    assert_eq!(framed(0, Some(0), "{}").unwrap(), "{\"timestamp_ms\":0,\"total_energy_uj\":0}");
    assert_eq!(
        framed(-7, Some(u64::MAX), "{\"CPU\":{\"a\":[1,2]}}").unwrap(),
        "{\"timestamp_ms\":-7,\"total_energy_uj\":18446744073709551615,\"CPU\":{\"a\":[1,2]}}"
    );
    assert_eq!(framed(5, None, "null").unwrap(), "{\"timestamp_ms\":5}");
    assert_eq!(framed(5, Some(8), "null"), framed(5, Some(8), "{}"));
    assert_eq!(framed(5, None, "17"), None);
    assert_eq!(framed(5, None, "nulL"), None);
    let back: Value = serde_json::from_str(&framed(12, Some(9), "{\"GPU\":{\"é\":1},\"b\":2}").unwrap()).unwrap();
    assert_eq!(back["timestamp_ms"], Value::from(12));
    assert_eq!(back["total_energy_uj"], Value::from(9));
    assert_eq!(back["GPU"]["é"], Value::from(1));
    assert_eq!(back["b"], Value::from(2));
}

#[test]
fn a_node_can_say_that_it_goes() {
    let calls = RefCell::new(Vec::new());
    assert!(publisher(&calls).publish_offline("node").is_ok());
    let calls = calls.borrow();
    assert_eq!(calls[0].topic, "node/status");
    assert_eq!(calls[0].qos, QoS::AtLeastOnce);
    assert!(calls[0].retain);
    assert_eq!(calls[0].payload, b"offline".to_vec());
}

#[test]
fn topics_are_spelled_out() {
    assert_eq!(sensor_type_to_topic("n", "CPU"), "n/sensor_data/cpu");
    assert_eq!(sensor_type_to_topic("N", "Énergie Σ"), "N/sensor_data/énergie σ");
    assert_eq!(hardware_info_topic("n"), "n/hardware_info");
    assert_eq!(status_topic("n"), "n/status");
    assert_eq!(ha_discovery_topic("n", "o"), "homeassistant/sensor/n/o/config");
    assert_ne!(ha_discovery_topic("n", "o"), ha_discovery_topic("n", "p"));
    assert_ne!(status_topic("a"), status_topic("b"));
}

#[test]
fn numbers_are_written_plainly() {
    assert_eq!(decimal_text(0), "0");
    assert_eq!(decimal_text(1020), "1020");
    assert_eq!(decimal_text(u64::MAX), "18446744073709551615");
    assert_eq!(signed_decimal_text(i64::MIN), "-9223372036854775808");
    assert_eq!(signed_decimal_text(i64::MAX), "9223372036854775807");
    assert_eq!(signed_decimal_text(-1), "-1");
    assert_eq!(hex4_text(0), "0000");
    assert_eq!(hex4_text(0x0a3f), "0a3f");
    assert_eq!(hex4_text(u16::MAX), "ffff");
    assert_eq!(decimal_text(98765).parse::<u64>().unwrap(), 98765);
}

#[test]
fn lists_are_joined() {
    assert_eq!(join(&vec![], ","), "");
    assert_eq!(join(&vec!["a".to_string()], ","), "a");
    assert_eq!(join(&vec!["a".to_string(), "".to_string(), "b".to_string()], ", "), "a, , b");
}

#[test]
fn a_device_goes_by_its_host_name() {
    let named = HaDevice::new("n", Some("host"), None, None);
    assert_eq!(named.name, "host");
    assert_eq!(named.identifiers, vec!["wattseal_n".to_string()]);
    assert_eq!(named.manufacturer, "WattSeal");
    assert_eq!(named.model, "System / CPU");
    assert_eq!(named.sw_version, "0.1.0");
    assert_eq!(HaDevice::new("n", Some(""), Some("os"), Some("cpu")).name, "n");
    assert_eq!(HaDevice::new("n", None, Some("os"), Some("cpu")).model, "os / cpu");
    assert_eq!(named.clone().identifiers, named.identifiers);
}

#[test]
fn an_announcement_can_be_copied() {
    let device = HaDevice::new("n", Some("host"), None, None);
    for (_, config) in build_ha_discovery_configs("n", &device) {
        let copy = config.clone();
        assert_eq!(format!("{:?}", copy), format!("{:?}", config));
    }
}

#[test]
fn every_metric_is_announced() {
    let device = HaDevice::new("n", None, None, None);
    let configs = build_ha_discovery_configs("n", &device);
    let descriptors = metric_descriptors();
    assert_eq!(configs.len(), 14);
    assert_eq!(descriptors.len(), 14);
    let (topic, vram) = &configs[3];
    assert_eq!(topic, "homeassistant/sensor/n/gpu_vram_usage/config");
    assert_eq!(vram.name, "GPU VRAM Usage");
    assert_eq!(vram.unique_id, "wattseal_n_gpu_vram_usage");
    assert_eq!(vram.state_topic, "n/sensor_data/gpu");
    assert_eq!(vram.availability_topic, Some("n/status".to_string()));
    assert_eq!(vram.payload_available, Some("online".to_string()));
    assert_eq!(vram.payload_not_available, Some("offline".to_string()));
    assert_eq!(
        vram.value_template,
        Some("{{ value_json.GPU.vram_usage_percent | round(1) }}".to_string())
    );
    assert_eq!(vram.unit_of_measurement, Some("%".to_string()));
    assert_eq!(vram.device_class, None);
    assert_eq!(vram.state_class, Some("measurement".to_string()));
    assert_eq!(vram.icon, Some("mdi:expansion-card".to_string()));
    for (i, a) in configs.iter().enumerate() {
        for b in configs.iter().skip(i + 1) {
            assert_ne!(a.0, b.0);
            assert_ne!(a.1.unique_id, b.1.unique_id);
        }
    }
    for d in &descriptors {
        assert_eq!(d.device_class == Some("energy"), d.state_class == Some("total_increasing"));
        if d.device_class == Some("energy") {
            assert_eq!(d.value_template, "{{ value_json.total_energy_uj }}");
            assert_eq!(d.unit, Some("µJ"));
            assert_eq!(d.icon, Some("mdi:lightning-bolt"));
        } else {
            assert!(!d.value_template.contains("total_energy_uj"));
            assert_ne!(d.unit, Some("µJ"));
        }
    }
    let downloads = configs.iter().find(|(t, _)| t.contains("network_download")).unwrap();
    assert_eq!(downloads.1.unit_of_measurement, Some("B".to_string()));
    assert_eq!(downloads.1.device_class, Some("data_size".to_string()));
    assert_eq!(downloads.1.state_topic, "n/sensor_data/network");
}

#[test]
fn announcements_tell_nodes_apart() {
    let ids = ["n", "n_gpu_vram", "n_gpu", "n/gpu_usage", "gpu_vram_usage", "", "n_"];
    for (i, a) in ids.iter().enumerate() {
        for b in ids.iter().skip(i + 1) {
            let ours = build_ha_discovery_configs(a, &HaDevice::new(a, None, None, None));
            let theirs = build_ha_discovery_configs(b, &HaDevice::new(b, None, None, None));
            for x in &ours {
                for y in &theirs {
                    assert_ne!(x.0, y.0);
                    assert_ne!(x.1.unique_id, y.1.unique_id);
                }
            }
        }
    }
}

#[test]
fn settings_start_plain() {
    let c = config();
    assert_eq!(c.id, "node");
    assert_eq!(c.addr.port, 1883);
    assert_eq!(c.unit, None);
    assert_eq!(c.process_mode, ProcessPublishMode::Capped(10));
    assert_eq!(ProcessPublishMode::default(), ProcessPublishMode::Capped(10));
    assert!(!c.home_assistant);
    assert!(c.user.is_none() && c.pass.is_none());
    assert!(!c.tls);
    assert_eq!(MqttConfig::for_broker(c.addr.clone()).id, "wattseal_collector");
    let mut d = c.clone();
    d.unit = Some(ConsumptionUnit::WattHour);
    assert_eq!(c.unit, None);
}

#[test]
fn a_connection_is_opened_as_configured() {
    let mut c = config();
    c.user = Some("u".to_string());
    let o = connect_options(&c, 0x1_2345_00ab);
    assert_eq!(o.client_id, "node_00ab");
    assert_eq!(o.host, "10.0.0.1");
    assert_eq!(o.port, 1883);
    assert_eq!(o.keep_alive_secs, 5);
    assert_eq!(o.credentials, None);
    assert!(!o.tls);
    assert_eq!(o.request_capacity, 10);
    assert_eq!(o.last_will.topic, "node/status");
    assert_eq!(o.last_will.payload, b"offline".to_vec());
    assert_eq!(o.last_will.qos, QoS::AtLeastOnce);
    assert!(o.last_will.retain);
    c.pass = Some("p".to_string());
    c.tls = true;
    let o = connect_options(&c, u128::MAX);
    assert_eq!(o.client_id, "node_ffff");
    assert_eq!(o.credentials, Some(("u".to_string(), "p".to_string())));
    assert!(o.tls);
}

#[test]
fn a_node_announces_itself_once_per_connection() {
    let mut c = config();
    c.home_assistant = true;
    let hardware = HardwareInfo {
        system: SystemInfo {
            os: "os".to_string(),
            hostname: "host".to_string(),
            is_virtual_machine: false,
        },
        cpu: CpuInfo { name: "chip".to_string() },
    };
    let mut connection = Connection::new(&c, Some(hardware));
    assert_eq!(connection.on_event(ConnectionEvent::Other).len(), 0);
    let actions = connection.on_event(ConnectionEvent::Accepted);
    assert_eq!(actions.len(), 15);
    match &actions[0] {
        ConnectionAction::Publish(m) => {
            assert_eq!(m.topic, "node/status");
            assert_eq!(m.payload, b"online".to_vec());
            assert!(m.retain);
        }
        _ => panic!("the birth message comes first"),
    }
    match &actions[1] {
        ConnectionAction::Announce { topic, qos, retain, config } => {
            assert_eq!(topic, "homeassistant/sensor/node/cpu_usage/config");
            assert_eq!(*qos, QoS::AtLeastOnce);
            assert!(*retain);
            assert_eq!(config.availability_topic, Some(connect_options(&c, 0).last_will.topic));
            assert_eq!(config.payload_available, Some("online".to_string()));
            assert_eq!(config.payload_not_available, Some("offline".to_string()));
            assert_eq!(config.device.name, "host");
            assert_eq!(config.device.model, "os / chip");
        }
        _ => panic!("the announcements follow"),
    }
    assert_eq!(connection.on_event(ConnectionEvent::Accepted).len(), 0);
    let waits = connection.on_event(ConnectionEvent::Failed);
    assert_eq!(waits.len(), 1);
    assert!(matches!(waits[0], ConnectionAction::Wait(5)));
    assert!(!connection.connected);
    assert_eq!(connection.on_event(ConnectionEvent::Accepted).len(), 15);
}

#[test]
fn without_home_assistant_only_the_birth_is_published() {
    let mut connection = Connection::new(&config(), None);
    assert_eq!(connection.on_event(ConnectionEvent::Accepted).len(), 1);
    assert!(connection.connected);
}
