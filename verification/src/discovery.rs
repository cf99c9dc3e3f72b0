//! What Home Assistant is told of a node: one sensor for each metric.

use crate::config::clone_text;
use crate::energy::EnergyUj;
use crate::sensor::{component_name, CPUData, ComputedSensorData, DiskData, GPUData, NetworkData, RamData, TotalData};
use crate::text::{ascii_lower, concat2, concat3};
use crate::topics::{
    availability_topic, discovery_topic, ha_discovery_topic, law_discovery_topic_is_injective,
    law_discovery_topics_tell_nodes_apart, lemma_parted, sensor_data_topic, sensor_type_to_topic, status_topic,
};
use vstd::prelude::*;
use vstd::string::*;
use vstd::utf8::*;

verus! {

/// The version that a device announces.
pub const SW_VERSION: &'static str = "0.1.0";

/// What is published on the status topic of a node that has come up.
pub const ONLINE: &'static str = "online";

/// What is published on the status topic of a node that has gone.
pub const OFFLINE: &'static str = "offline";

/// The device that sensors belong to.
#[derive(Debug)]
pub struct HaDevice {
    pub identifiers: Vec<String>,
    pub name: String,
    pub manufacturer: String,
    pub model: String,
    pub sw_version: String,
}

/// The texts of a device.
pub struct HaDeviceView {
    pub identifiers: Seq<Seq<char>>,
    pub name: Seq<char>,
    pub manufacturer: Seq<char>,
    pub model: Seq<char>,
    pub sw_version: Seq<char>,
}

impl View for HaDevice {
    type V = HaDeviceView;

    open spec fn view(&self) -> HaDeviceView {
        HaDeviceView {
            identifiers: self.identifiers@.map_values(|s: String| s@),
            name: self.name@,
            manufacturer: self.manufacturer@,
            model: self.model@,
            sw_version: self.sw_version@,
        }
    }
}

/// A text that may be missing.
pub open spec fn text_of(s: Option<String>) -> Option<Seq<char>> {
    match s {
        Some(t) => Some(t@),
        None => None,
    }
}

/// A borrowed text that may be missing.
pub open spec fn str_of(s: Option<&str>) -> Option<Seq<char>> {
    match s {
        Some(t) => Some(t@),
        None => None,
    }
}

/// The text, or another where it is missing.
pub open spec fn text_or(s: Option<Seq<char>>, other: Seq<char>) -> Seq<char> {
    match s {
        Some(t) => t,
        None => other,
    }
}

/// The device of a node. It goes by its host name, or by the node's own where
/// that is missing or empty.
pub open spec fn device_of(
    node_id: Seq<char>,
    hostname: Option<Seq<char>>,
    os_info: Option<Seq<char>>,
    cpu_model: Option<Seq<char>>,
) -> HaDeviceView {
    HaDeviceView {
        identifiers: seq!["wattseal_"@ + node_id],
        name: if text_or(hostname, Seq::empty()).len() > 0 {
            text_or(hostname, Seq::empty())
        } else {
            node_id
        },
        manufacturer: "WattSeal"@,
        model: text_or(os_info, "System"@) + " / "@ + text_or(cpu_model, "CPU"@),
        sw_version: SW_VERSION@,
    }
}

impl HaDevice {
    pub fn new(
        node_id: &str,
        hostname: Option<&str>,
        os_info: Option<&str>,
        cpu_model: Option<&str>,
    ) -> (r: HaDevice)
        ensures
            r@ == device_of(node_id@, str_of(hostname), str_of(os_info), str_of(cpu_model)),
    {
        // Home Assistant shows the manufacturer before the name, so the name
        // itself carries no brand.
        let name = match hostname {
            Some(h) if !h.is_empty() => h.to_owned(),
            _ => node_id.to_owned(),
        };
        let os: &str = match os_info {
            Some(t) => t,
            None => "System",
        };
        let cpu: &str = match cpu_model {
            Some(t) => t,
            None => "CPU",
        };
        let r = HaDevice {
            identifiers: vec![concat2("wattseal_", node_id)],
            name,
            manufacturer: "WattSeal".to_owned(),
            model: concat3(os, " / ", cpu),
            sw_version: SW_VERSION.to_owned(),
        };
        assert(r@.identifiers =~= seq!["wattseal_"@ + node_id@]);
        r
    }
}

impl Clone for HaDevice {
    fn clone(&self) -> (r: HaDevice)
        ensures
            r@ == self@,
    {
        let mut identifiers: Vec<String> = Vec::new();
        for i in 0..self.identifiers.len()
            invariant
                identifiers@ == self.identifiers@.take(i as int),
        {
            identifiers.push(self.identifiers[i].clone());
            assert(identifiers@ =~= self.identifiers@.take(i + 1));
        }
        assert(identifiers@ =~= self.identifiers@);
        HaDevice {
            identifiers,
            name: self.name.clone(),
            manufacturer: self.manufacturer.clone(),
            model: self.model.clone(),
            sw_version: self.sw_version.clone(),
        }
    }
}

/// The announcement of one sensor.
#[derive(Debug)]
pub struct HaSensorConfig {
    pub name: String,
    pub unique_id: String,
    pub state_topic: String,
    pub availability_topic: Option<String>,
    pub payload_available: Option<String>,
    pub payload_not_available: Option<String>,
    pub value_template: Option<String>,
    pub unit_of_measurement: Option<String>,
    pub device_class: Option<String>,
    pub state_class: Option<String>,
    pub icon: Option<String>,
    pub device: HaDevice,
}

/// The texts of an announcement.
pub struct HaSensorConfigView {
    pub name: Seq<char>,
    pub unique_id: Seq<char>,
    pub state_topic: Seq<char>,
    pub availability_topic: Option<Seq<char>>,
    pub payload_available: Option<Seq<char>>,
    pub payload_not_available: Option<Seq<char>>,
    pub value_template: Option<Seq<char>>,
    pub unit_of_measurement: Option<Seq<char>>,
    pub device_class: Option<Seq<char>>,
    pub state_class: Option<Seq<char>>,
    pub icon: Option<Seq<char>>,
    pub device: HaDeviceView,
}

impl View for HaSensorConfig {
    type V = HaSensorConfigView;

    open spec fn view(&self) -> HaSensorConfigView {
        HaSensorConfigView {
            name: self.name@,
            unique_id: self.unique_id@,
            state_topic: self.state_topic@,
            availability_topic: text_of(self.availability_topic),
            payload_available: text_of(self.payload_available),
            payload_not_available: text_of(self.payload_not_available),
            value_template: text_of(self.value_template),
            unit_of_measurement: text_of(self.unit_of_measurement),
            device_class: text_of(self.device_class),
            state_class: text_of(self.state_class),
            icon: text_of(self.icon),
            device: self.device@,
        }
    }
}

impl Clone for HaSensorConfig {
    fn clone(&self) -> (r: HaSensorConfig)
        ensures
            r@ == self@,
    {
        HaSensorConfig {
            name: self.name.clone(),
            unique_id: self.unique_id.clone(),
            state_topic: self.state_topic.clone(),
            availability_topic: clone_text(&self.availability_topic),
            payload_available: clone_text(&self.payload_available),
            payload_not_available: clone_text(&self.payload_not_available),
            value_template: clone_text(&self.value_template),
            unit_of_measurement: clone_text(&self.unit_of_measurement),
            device_class: clone_text(&self.device_class),
            state_class: clone_text(&self.state_class),
            icon: clone_text(&self.icon),
            device: self.device.clone(),
        }
    }
}

/// A metric: the component it is about, and how Home Assistant reads and shows
/// it.
#[derive(Clone, Copy, Debug)]
pub struct MetricDescriptor {
    pub sensor_type: &'static str,
    pub object_id: &'static str,
    pub name: &'static str,
    pub value_template: &'static str,
    pub unit: Option<&'static str>,
    pub device_class: Option<&'static str>,
    pub state_class: Option<&'static str>,
    pub icon: Option<&'static str>,
}

/// A share of a component's capacity, in percent.
pub open spec fn usage_metric(
    sensor_type: &'static str,
    object_id: &'static str,
    name: &'static str,
    value_template: &'static str,
    icon: &'static str,
) -> MetricDescriptor {
    MetricDescriptor {
        sensor_type,
        object_id,
        name,
        value_template,
        unit: Some("%"),
        device_class: None,
        state_class: Some("measurement"),
        icon: Some(icon),
    }
}

/// An amount of data, in bytes.
pub open spec fn bytes_metric(
    sensor_type: &'static str,
    object_id: &'static str,
    name: &'static str,
    value_template: &'static str,
    icon: &'static str,
) -> MetricDescriptor {
    MetricDescriptor {
        sensor_type,
        object_id,
        name,
        value_template,
        unit: Some("B"),
        device_class: Some("data_size"),
        state_class: Some("measurement"),
        icon: Some(icon),
    }
}

/// The energy of a component: the running total at the root of the envelope,
/// which never falls.
pub open spec fn energy_metric(
    sensor_type: &'static str,
    object_id: &'static str,
    name: &'static str,
) -> MetricDescriptor {
    MetricDescriptor {
        sensor_type,
        object_id,
        name,
        value_template: "{{ value_json.total_energy_uj }}",
        unit: Some("µJ"),
        device_class: Some("energy"),
        state_class: Some("total_increasing"),
        icon: Some("mdi:lightning-bolt"),
    }
}

/// The metrics of a node, in the order in which they are announced.
pub open spec fn metric_table() -> Seq<MetricDescriptor> {
    seq![
        usage_metric(
            "cpu",
            "cpu_usage",
            "CPU Usage",
            "{{ value_json.CPU.usage_percent | round(1) }}",
            "mdi:cpu-64-bit",
        ),
        energy_metric("cpu", "cpu_energy", "CPU Energy"),
        usage_metric(
            "gpu",
            "gpu_usage",
            "GPU Usage",
            "{{ value_json.GPU.usage_percent | round(1) }}",
            "mdi:expansion-card",
        ),
        usage_metric(
            "gpu",
            "gpu_vram_usage",
            "GPU VRAM Usage",
            "{{ value_json.GPU.vram_usage_percent | round(1) }}",
            "mdi:expansion-card",
        ),
        energy_metric("gpu", "gpu_energy", "GPU Energy"),
        usage_metric(
            "ram",
            "ram_usage",
            "RAM Usage",
            "{{ value_json.Ram.usage_percent | round(1) }}",
            "mdi:memory",
        ),
        energy_metric("ram", "ram_energy", "RAM Energy"),
        bytes_metric(
            "disk",
            "disk_read",
            "Disk Read",
            "{{ value_json.Disk.read_bytes }}",
            "mdi:harddisk",
        ),
        bytes_metric(
            "disk",
            "disk_write",
            "Disk Write",
            "{{ value_json.Disk.written_bytes }}",
            "mdi:harddisk",
        ),
        energy_metric("disk", "disk_energy", "Disk Energy"),
        bytes_metric(
            "network",
            "network_download",
            "Network Download",
            "{{ value_json.Network.downloaded_bytes }}",
            "mdi:download",
        ),
        bytes_metric(
            "network",
            "network_upload",
            "Network Upload",
            "{{ value_json.Network.uploaded_bytes }}",
            "mdi:upload",
        ),
        energy_metric("network", "network_energy", "Network Energy"),
        energy_metric("total", "total_energy", "Total Energy"),
    ]
}

fn usage_descriptor(
    sensor_type: &'static str,
    object_id: &'static str,
    name: &'static str,
    value_template: &'static str,
    icon: &'static str,
) -> (r: MetricDescriptor)
    ensures
        r == usage_metric(sensor_type, object_id, name, value_template, icon),
{
    MetricDescriptor {
        sensor_type,
        object_id,
        name,
        value_template,
        unit: Some("%"),
        device_class: None,
        state_class: Some("measurement"),
        icon: Some(icon),
    }
}

fn bytes_descriptor(
    sensor_type: &'static str,
    object_id: &'static str,
    name: &'static str,
    value_template: &'static str,
    icon: &'static str,
) -> (r: MetricDescriptor)
    ensures
        r == bytes_metric(sensor_type, object_id, name, value_template, icon),
{
    MetricDescriptor {
        sensor_type,
        object_id,
        name,
        value_template,
        unit: Some("B"),
        device_class: Some("data_size"),
        state_class: Some("measurement"),
        icon: Some(icon),
    }
}

fn energy_descriptor(
    sensor_type: &'static str,
    object_id: &'static str,
    name: &'static str,
) -> (r: MetricDescriptor)
    ensures
        r == energy_metric(sensor_type, object_id, name),
{
    MetricDescriptor {
        sensor_type,
        object_id,
        name,
        value_template: "{{ value_json.total_energy_uj }}",
        unit: Some("µJ"),
        device_class: Some("energy"),
        state_class: Some("total_increasing"),
        icon: Some("mdi:lightning-bolt"),
    }
}

/// The metrics of a node.
///
/// A reading arrives in an envelope such as
/// `{"timestamp_ms":1234,"total_energy_uj":9999,"CPU":{"usage_percent":42.0}}`:
/// the running total stands at the root, the fields of the component under the
/// component's key.
pub fn metric_descriptors() -> (r: Vec<MetricDescriptor>)
    ensures
        r@ == metric_table(),
{
    vec![
        usage_descriptor(
            "cpu",
            "cpu_usage",
            "CPU Usage",
            "{{ value_json.CPU.usage_percent | round(1) }}",
            "mdi:cpu-64-bit",
        ),
        energy_descriptor("cpu", "cpu_energy", "CPU Energy"),
        usage_descriptor(
            "gpu",
            "gpu_usage",
            "GPU Usage",
            "{{ value_json.GPU.usage_percent | round(1) }}",
            "mdi:expansion-card",
        ),
        usage_descriptor(
            "gpu",
            "gpu_vram_usage",
            "GPU VRAM Usage",
            "{{ value_json.GPU.vram_usage_percent | round(1) }}",
            "mdi:expansion-card",
        ),
        energy_descriptor("gpu", "gpu_energy", "GPU Energy"),
        usage_descriptor(
            "ram",
            "ram_usage",
            "RAM Usage",
            "{{ value_json.Ram.usage_percent | round(1) }}",
            "mdi:memory",
        ),
        energy_descriptor("ram", "ram_energy", "RAM Energy"),
        bytes_descriptor(
            "disk",
            "disk_read",
            "Disk Read",
            "{{ value_json.Disk.read_bytes }}",
            "mdi:harddisk",
        ),
        bytes_descriptor(
            "disk",
            "disk_write",
            "Disk Write",
            "{{ value_json.Disk.written_bytes }}",
            "mdi:harddisk",
        ),
        energy_descriptor("disk", "disk_energy", "Disk Energy"),
        bytes_descriptor(
            "network",
            "network_download",
            "Network Download",
            "{{ value_json.Network.downloaded_bytes }}",
            "mdi:download",
        ),
        bytes_descriptor(
            "network",
            "network_upload",
            "Network Upload",
            "{{ value_json.Network.uploaded_bytes }}",
            "mdi:upload",
        ),
        energy_descriptor("network", "network_energy", "Network Energy"),
        energy_descriptor("total", "total_energy", "Total Energy"),
    ]
}

/// The announcement of a metric.
pub open spec fn sensor_config(
    node_id: Seq<char>,
    device: HaDeviceView,
    desc: MetricDescriptor,
) -> HaSensorConfigView {
    HaSensorConfigView {
        name: desc.name@,
        unique_id: "wattseal_"@ + node_id + "_"@ + desc.object_id@,
        state_topic: sensor_data_topic(node_id, desc.sensor_type@),
        availability_topic: Some(availability_topic(node_id)),
        payload_available: Some(ONLINE@),
        payload_not_available: Some(OFFLINE@),
        value_template: Some(desc.value_template@),
        unit_of_measurement: str_of(desc.unit),
        device_class: str_of(desc.device_class),
        state_class: str_of(desc.state_class),
        icon: str_of(desc.icon),
        device,
    }
}

/// The name of a component is an ASCII text in lower case.
proof fn lemma_sensor_types(k: int)
    requires
        0 <= k < metric_table().len(),
    ensures
        is_ascii_chars(metric_table()[k].sensor_type@),
        metric_table()[k].sensor_type@.map_values(|c: char| ascii_lower(c)) == metric_table()[k].sensor_type@,
{
    reveal_strlit("cpu");
    reveal_strlit("gpu");
    reveal_strlit("ram");
    reveal_strlit("disk");
    reveal_strlit("network");
    reveal_strlit("total");
    let s = metric_table()[k].sensor_type@;
    assert(s.map_values(|c: char| ascii_lower(c)) =~= s);
}

fn owned(s: Option<&'static str>) -> (r: Option<String>)
    ensures
        text_of(r) == str_of(s),
{
    match s {
        Some(t) => Some(t.to_owned()),
        None => None,
    }
}

/// The announcements of a node's metrics, each with the topic it goes to.
pub fn build_ha_discovery_configs(node_id: &str, device: &HaDevice) -> (r: Vec<(String, HaSensorConfig)>)
    ensures
        r@.len() == metric_table().len(),
        forall|k: int|
            #![trigger r@[k]]
            0 <= k < r@.len() ==> {
                &&& r@[k].0@ == discovery_topic(node_id@, metric_table()[k].object_id@)
                &&& r@[k].1@ == sensor_config(node_id@, device@, metric_table()[k])
            },
{
    let avail_topic = status_topic(node_id);
    let descriptors = metric_descriptors();
    let mut configs: Vec<(String, HaSensorConfig)> = Vec::new();
    for k in 0..descriptors.len()
        invariant
            avail_topic@ == availability_topic(node_id@),
            descriptors@ == metric_table(),
            configs@.len() == k,
            forall|j: int|
                #![trigger configs@[j]]
                0 <= j < configs@.len() ==> {
                    &&& configs@[j].0@ == discovery_topic(node_id@, metric_table()[j].object_id@)
                    &&& configs@[j].1@ == sensor_config(node_id@, device@, metric_table()[j])
                },
    {
        let desc = descriptors[k];
        proof {
            lemma_sensor_types(k as int);
        }
        let state_topic = sensor_type_to_topic(node_id, desc.sensor_type);
        let topic = ha_discovery_topic(node_id, desc.object_id);
        let mut unique_id = concat3("wattseal_", node_id, "_");
        unique_id.append(desc.object_id);
        // Home Assistant puts the device before the name when it builds the
        // entity id, so the name is that of the metric alone.
        let config = HaSensorConfig {
            name: desc.name.to_owned(),
            unique_id,
            state_topic,
            availability_topic: Some(avail_topic.clone()),
            payload_available: Some(ONLINE.to_owned()),
            payload_not_available: Some(OFFLINE.to_owned()),
            value_template: Some(desc.value_template.to_owned()),
            unit_of_measurement: owned(desc.unit),
            device_class: owned(desc.device_class),
            state_class: owned(desc.state_class),
            icon: owned(desc.icon),
            device: device.clone(),
        };
        configs.push((topic, config));
    }
    configs
}

/// What tells the object ids of the table apart: the length, and two letters.
spec fn object_mark(s: Seq<char>) -> (nat, char, char) {
    (s.len(), s[0], s[8])
}

spec fn object_marks() -> Seq<(nat, char, char)> {
    seq![
        (9nat, 'c', 'e'),
        (10nat, 'c', 'g'),
        (9nat, 'g', 'e'),
        (14nat, 'g', '_'),
        (10nat, 'g', 'g'),
        (9nat, 'r', 'e'),
        (10nat, 'r', 'g'),
        (9nat, 'd', 'd'),
        (10nat, 'd', 't'),
        (11nat, 'd', 'r'),
        (16nat, 'n', 'd'),
        (14nat, 'n', 'u'),
        (14nat, 'n', 'e'),
        (12nat, 't', 'e'),
    ]
}

proof fn lemma_object_marks(k: int)
    requires
        0 <= k < metric_table().len(),
    ensures
        object_mark(metric_table()[k].object_id@) == object_marks()[k],
{
    reveal_strlit("cpu_usage");
    reveal_strlit("cpu_energy");
    reveal_strlit("gpu_usage");
    reveal_strlit("gpu_vram_usage");
    reveal_strlit("gpu_energy");
    reveal_strlit("ram_usage");
    reveal_strlit("ram_energy");
    reveal_strlit("disk_read");
    reveal_strlit("disk_write");
    reveal_strlit("disk_energy");
    reveal_strlit("network_download");
    reveal_strlit("network_upload");
    reveal_strlit("network_energy");
    reveal_strlit("total_energy");
}

/// Two metrics never share an object id.
pub proof fn law_object_ids_are_distinct(j: int, k: int)
    requires
        0 <= j < k < metric_table().len(),
    ensures
        metric_table()[j].object_id@ != metric_table()[k].object_id@,
{
    lemma_object_marks(j);
    lemma_object_marks(k);
    assert(object_marks()[j] != object_marks()[k]);
}

/// Two announcements of one node never share a topic or a unique id.
pub proof fn law_announcements_are_distinct(node_id: Seq<char>, device: HaDeviceView, j: int, k: int)
    requires
        0 <= j < k < metric_table().len(),
    ensures
        discovery_topic(node_id, metric_table()[j].object_id@) != discovery_topic(
            node_id,
            metric_table()[k].object_id@,
        ),
        sensor_config(node_id, device, metric_table()[j]).unique_id != sensor_config(
            node_id,
            device,
            metric_table()[k],
        ).unique_id,
{
    let a = metric_table()[j].object_id@;
    let b = metric_table()[k].object_id@;
    law_object_ids_are_distinct(j, k);
    if discovery_topic(node_id, a) == discovery_topic(node_id, b) {
        law_discovery_topic_is_injective(node_id, a, b);
    }
    let head = "wattseal_"@ + node_id + "_"@;
    if head + a == head + b {
        assert((head + a).skip(head.len() as int) == a);
        assert((head + b).skip(head.len() as int) == b);
    }
}

/// Where the object ids of the table have their first underscore.
spec fn underscores() -> Seq<int> {
    seq![3, 3, 3, 3, 3, 3, 3, 4, 4, 4, 7, 7, 7, 5]
}

/// Object ids hold no slash, and one underscore each, but for the one that
/// has a second.
proof fn lemma_object_letters(k: int)
    requires
        0 <= k < metric_table().len(),
    ensures
        !metric_table()[k].object_id@.contains('/'),
        underscores()[k] < metric_table()[k].object_id@.len(),
        metric_table()[k].object_id@[underscores()[k]] == '_',
        forall|i: int|
            0 <= i < metric_table()[k].object_id@.len() && #[trigger] metric_table()[k].object_id@[i]
                == '_' ==> i == underscores()[k] || k == 3 && i == 8,
        metric_table()[3].object_id@[4] == 'v',
{
    reveal_strlit("cpu_usage");
    reveal_strlit("cpu_energy");
    reveal_strlit("gpu_usage");
    reveal_strlit("gpu_vram_usage");
    reveal_strlit("gpu_energy");
    reveal_strlit("ram_usage");
    reveal_strlit("ram_energy");
    reveal_strlit("disk_read");
    reveal_strlit("disk_write");
    reveal_strlit("disk_energy");
    reveal_strlit("network_download");
    reveal_strlit("network_upload");
    reveal_strlit("network_energy");
    reveal_strlit("total_energy");
}

/// No object id is another one behind an underscore.
proof fn lemma_object_ids_do_not_end_in_one_another(j: int, k: int)
    requires
        0 <= j < metric_table().len(),
        0 <= k < metric_table().len(),
        metric_table()[j].object_id@.len() > metric_table()[k].object_id@.len(),
    ensures
        ({
            let a = metric_table()[j].object_id@;
            let b = metric_table()[k].object_id@;
            !(a[a.len() - b.len() - 1] == '_' && a.skip(a.len() - b.len()) == b)
        }),
{
    let a = metric_table()[j].object_id@;
    let b = metric_table()[k].object_id@;
    let d = a.len() - b.len();
    lemma_object_letters(j);
    lemma_object_letters(k);
    lemma_object_marks(k);
    if a[d - 1] == '_' && a.skip(d) == b {
        assert(a[d + underscores()[k]] == b[underscores()[k]]);
        assert(j == 3 && d - 1 == 3);
        assert(b[0] == a[d]);
        assert(object_marks()[k].1 != 'v');
        assert(false);
    }
}

/// Announcements of two different nodes never share a topic or a unique id,
/// whatever the metrics.
pub proof fn law_announcements_tell_nodes_apart(
    node: Seq<char>,
    device: HaDeviceView,
    j: int,
    other: Seq<char>,
    other_device: HaDeviceView,
    k: int,
)
    requires
        node != other,
        0 <= j < metric_table().len(),
        0 <= k < metric_table().len(),
    ensures
        discovery_topic(node, metric_table()[j].object_id@) != discovery_topic(
            other,
            metric_table()[k].object_id@,
        ),
        sensor_config(node, device, metric_table()[j]).unique_id != sensor_config(
            other,
            other_device,
            metric_table()[k],
        ).unique_id,
{
    let a = metric_table()[j].object_id@;
    let b = metric_table()[k].object_id@;
    lemma_object_letters(j);
    lemma_object_letters(k);
    if discovery_topic(node, a) == discovery_topic(other, b) {
        law_discovery_topics_tell_nodes_apart(node, a, other, b);
    }
    reveal_strlit("_");
    let head = "wattseal_"@;
    let t = head + node + "_"@ + a;
    let u = head + other + "_"@ + b;
    if t == u {
        assert(t.skip(head.len() as int) =~= node.push('_') + a);
        assert(u.skip(head.len() as int) =~= other.push('_') + b);
        if a.len() >= b.len() {
            if a.len() > b.len() {
                lemma_object_ids_do_not_end_in_one_another(j, k);
            }
            lemma_parted(node, a, other, b, '_');
        } else {
            lemma_object_ids_do_not_end_in_one_another(k, j);
            lemma_parted(other, b, node, a, '_');
        }
    }
}

/// Every energy metric reads the running total, in microjoules, and is
/// announced as one that only rises; nothing else is.
pub proof fn law_energy_metrics_read_the_running_total(k: int)
    requires
        0 <= k < metric_table().len(),
    ensures
        str_of(metric_table()[k].device_class) == Some("energy"@) <==> str_of(
            metric_table()[k].state_class,
        ) == Some("total_increasing"@),
        str_of(metric_table()[k].device_class) == Some("energy"@)
            <==> metric_table()[k].value_template@ == "{{ value_json.total_energy_uj }}"@,
        str_of(metric_table()[k].device_class) == Some("energy"@) <==> str_of(metric_table()[k].unit)
            == Some("µJ"@),
{
    reveal_strlit("{{ value_json.total_energy_uj }}");
    reveal_strlit("{{ value_json.CPU.usage_percent | round(1) }}");
    reveal_strlit("{{ value_json.GPU.usage_percent | round(1) }}");
    reveal_strlit("{{ value_json.GPU.vram_usage_percent | round(1) }}");
    reveal_strlit("{{ value_json.Ram.usage_percent | round(1) }}");
    reveal_strlit("{{ value_json.Disk.read_bytes }}");
    reveal_strlit("{{ value_json.Disk.written_bytes }}");
    reveal_strlit("{{ value_json.Network.downloaded_bytes }}");
    reveal_strlit("{{ value_json.Network.uploaded_bytes }}");
    reveal_strlit("%");
    reveal_strlit("B");
    reveal_strlit("µJ");
    assert("µJ"@.len() != "%"@.len());
    assert("µJ"@.len() != "B"@.len());
    assert("{{ value_json.total_energy_uj }}"@[14] != metric_table()[k].value_template@[14] || str_of(
        metric_table()[k].device_class,
    ) == Some("energy"@));
    reveal_strlit("energy");
    reveal_strlit("data_size");
    reveal_strlit("measurement");
    reveal_strlit("total_increasing");
    assert("energy"@.len() != "data_size"@.len());
    assert("measurement"@.len() != "total_increasing"@.len());
}

/// A metric is read from the topic on which the collector publishes the
/// readings of its component.
pub proof fn law_metrics_are_read_where_readings_go(node_id: Seq<char>, device: HaDeviceView, k: int)
    requires
        0 <= k < metric_table().len(),
    ensures
        exists|d: ComputedSensorData|
            sensor_config(node_id, device, metric_table()[k]).state_topic == sensor_data_topic(
                node_id,
                #[trigger] component_name(d),
            ),
{
    let name = metric_table()[k].sensor_type@;
    let cpu = CPUData {
        total_energy: None,
        pp1_energy: None,
        dram_energy: None,
        usage_percent: None,
    };
    let gpu = GPUData {
        total_energy: None,
        usage_percent: None,
        vram_usage_percent: None,
        name: None,
    };
    let ram = RamData { total_energy: None, usage_percent: None };
    let disk = DiskData { total_energy: None, read_bytes: 0, written_bytes: 0 };
    let network = NetworkData {
        total_energy: None,
        downloaded_bytes: 0,
        uploaded_bytes: 0,
    };
    let total = TotalData { total_energy: EnergyUj { uj: 0 } };
    assert(component_name(ComputedSensorData::CPU(cpu)) == "cpu"@);
    assert(component_name(ComputedSensorData::GPU(gpu)) == "gpu"@);
    assert(component_name(ComputedSensorData::Ram(ram)) == "ram"@);
    assert(component_name(ComputedSensorData::Disk(disk)) == "disk"@);
    assert(component_name(ComputedSensorData::Network(network)) == "network"@);
    assert(component_name(ComputedSensorData::Total(total)) == "total"@);
    assert(name == "cpu"@ || name == "gpu"@ || name == "ram"@ || name == "disk"@ || name == "network"@ || name
        == "total"@);
}

/// A device goes by its host name, or by its node where that is missing or empty.
/// Its model is its system and its processor, with a general word for what is not
/// known, and it is identified by its node.
pub proof fn law_devices_go_by_their_host_name(
    node_id: &str,
    hostname: Option<&str>,
    os_info: Option<&str>,
    cpu_model: Option<&str>,
    r: HaDevice,
)
    requires
        call_ensures(HaDevice::new, (node_id, hostname, os_info, cpu_model), r),
    ensures
        r.identifiers@.len() == 1,
        r.identifiers@[0]@ == "wattseal_"@ + node_id@,
        hostname matches Some(h) ==> (h@.len() > 0 ==> r.name@ == h@),
        hostname matches Some(h) ==> (h@.len() == 0 ==> r.name@ == node_id@),
        hostname is None ==> r.name@ == node_id@,
        r.manufacturer@ == "WattSeal"@,
        r.sw_version@ == "0.1.0"@,
        r.model@ == (match os_info {
            Some(os) => os@,
            None => "System"@,
        }) + " / "@ + (match cpu_model {
            Some(cpu) => cpu@,
            None => "CPU"@,
        }),
{
    let known = device_of(node_id@, str_of(hostname), str_of(os_info), str_of(cpu_model));
    assert(r@ == known);
    assert(known.identifiers.len() == 1);
    assert(r@.identifiers.len() == r.identifiers@.len());
    assert(r@.identifiers[0] == r.identifiers@[0]@);
}

/// An announcement says of a metric what its descriptor says, under an identity
/// made of the node and the metric. It is read from the topic on which the node
/// publishes the readings of the metric's component, it is there while the node
/// says so on its status topic, and it belongs to the device that was given.
pub proof fn law_announcements_say_what_descriptors_say(
    node_id: &str,
    device: HaDevice,
    descriptors: Vec<MetricDescriptor>,
    r: Vec<(String, HaSensorConfig)>,
    k: int,
)
    requires
        call_ensures(metric_descriptors, (), descriptors),
        call_ensures(build_ha_discovery_configs, (node_id, &device), r),
        0 <= k < descriptors@.len(),
    ensures
        r@.len() == descriptors@.len(),
        descriptors@ == metric_table(),
        ({
            let desc = descriptors@[k];
            let (topic, config) = r@[k];
            &&& topic@ == "homeassistant/sensor/"@ + node_id@ + "/"@ + desc.object_id@ + "/config"@
            &&& config.name@ == desc.name@
            &&& config.unique_id@ == "wattseal_"@ + node_id@ + "_"@ + desc.object_id@
            &&& config.state_topic@ == node_id@ + "/sensor_data/"@ + desc.sensor_type@
            &&& config.availability_topic matches Some(t) && t@ == node_id@ + "/status"@
            &&& config.payload_available matches Some(t) && t@ == "online"@
            &&& config.payload_not_available matches Some(t) && t@ == "offline"@
            &&& config.value_template matches Some(t) && t@ == desc.value_template@
            &&& config.unit_of_measurement is Some <==> desc.unit is Some
            &&& config.unit_of_measurement matches Some(t) ==> t@ == desc.unit->0@
            &&& config.device_class is Some <==> desc.device_class is Some
            &&& config.device_class matches Some(t) ==> t@ == desc.device_class->0@
            &&& config.state_class is Some <==> desc.state_class is Some
            &&& config.state_class matches Some(t) ==> t@ == desc.state_class->0@
            &&& config.icon is Some <==> desc.icon is Some
            &&& config.icon matches Some(t) ==> t@ == desc.icon->0@
            &&& config.device@ == device@
        }),
{
    let config = r@[k].1;
    assert(config@ == sensor_config(node_id@, device@, metric_table()[k]));
    assert(text_of(config.unit_of_measurement) == config@.unit_of_measurement);
    assert(text_of(config.device_class) == config@.device_class);
    assert(text_of(config.state_class) == config@.state_class);
    assert(text_of(config.icon) == config@.icon);
}

/// Every metric is about the component that its object id names first: the id is
/// the component, an underscore and a rest. What users see as its name is the same
/// text, with capitals, and with spaces for underscores.
pub proof fn law_metrics_are_about_their_component(k: int)
    requires
        0 <= k < metric_table().len(),
    ensures
        ({
            let m = metric_table()[k];
            let n = m.sensor_type@.len() as int;
            &&& n + 1 < m.object_id@.len()
            &&& m.object_id@.take(n) == m.sensor_type@
            &&& m.object_id@[n] == '_'
            &&& m.name@.len() == m.object_id@.len()
            &&& forall|i: int|
                0 <= i < m.name@.len() ==> m.object_id@[i] == (if #[trigger] m.name@[i] == ' ' {
                    '_'
                } else {
                    ascii_lower(m.name@[i])
                })
        }),
{
    reveal_strlit("cpu");
    reveal_strlit("gpu");
    reveal_strlit("ram");
    reveal_strlit("disk");
    reveal_strlit("network");
    reveal_strlit("total");
    reveal_strlit("cpu_usage");
    reveal_strlit("cpu_energy");
    reveal_strlit("gpu_usage");
    reveal_strlit("gpu_vram_usage");
    reveal_strlit("gpu_energy");
    reveal_strlit("ram_usage");
    reveal_strlit("ram_energy");
    reveal_strlit("disk_read");
    reveal_strlit("disk_write");
    reveal_strlit("disk_energy");
    reveal_strlit("network_download");
    reveal_strlit("network_upload");
    reveal_strlit("network_energy");
    reveal_strlit("total_energy");
    reveal_strlit("CPU Usage");
    reveal_strlit("CPU Energy");
    reveal_strlit("GPU Usage");
    reveal_strlit("GPU VRAM Usage");
    reveal_strlit("GPU Energy");
    reveal_strlit("RAM Usage");
    reveal_strlit("RAM Energy");
    reveal_strlit("Disk Read");
    reveal_strlit("Disk Write");
    reveal_strlit("Disk Energy");
    reveal_strlit("Network Download");
    reveal_strlit("Network Upload");
    reveal_strlit("Network Energy");
    reveal_strlit("Total Energy");
    let m = metric_table()[k];
    assert(m.object_id@.take(m.sensor_type@.len() as int) =~= m.sensor_type@);
}

/// A metric of a component is read from the topic on which the readings of that
/// component are published, and from no other.
pub proof fn law_metrics_are_read_from_their_own_component(
    node_id: Seq<char>,
    device: HaDeviceView,
    k: int,
    d: ComputedSensorData,
)
    requires
        0 <= k < metric_table().len(),
        component_name(d).len() < metric_table()[k].object_id@.len(),
        metric_table()[k].object_id@.take(component_name(d).len() as int) == component_name(d),
        metric_table()[k].object_id@[component_name(d).len() as int] == '_',
    ensures
        sensor_config(node_id, device, metric_table()[k]).state_topic == node_id + "/sensor_data/"@
            + component_name(d),
        sensor_config(node_id, device, metric_table()[k]).state_topic == node_id + "/sensor_data/"@ + (
        match d {
            ComputedSensorData::CPU(_) => "cpu"@,
            ComputedSensorData::GPU(_) => "gpu"@,
            ComputedSensorData::Ram(_) => "ram"@,
            ComputedSensorData::Disk(_) => "disk"@,
            ComputedSensorData::Network(_) => "network"@,
            ComputedSensorData::Total(_) => "total"@,
            ComputedSensorData::Process(_) => "process"@,
        }),
{
    law_metrics_are_about_their_component(k);
    let m = metric_table()[k];
    let a = m.sensor_type@.len() as int;
    let b = component_name(d).len() as int;
    reveal_strlit("cpu");
    reveal_strlit("gpu");
    reveal_strlit("ram");
    reveal_strlit("disk");
    reveal_strlit("network");
    reveal_strlit("total");
    reveal_strlit("process");
    if a < b {
        assert(component_name(d)[a] == m.object_id@.take(b)[a]);
        assert(component_name(d)[a] == '_');
        assert(false);
    }
    if b < a {
        assert(m.sensor_type@[b] == m.object_id@.take(a)[b]);
        assert(m.sensor_type@[b] == '_');
        assert(false);
    }
}

/// A metric that reads a field of a component's data is read from the topic on
/// which that component's readings arrive.
pub proof fn law_templates_are_read_where_their_data_arrive(
    node_id: Seq<char>,
    device: HaDeviceView,
    k: int,
)
    requires
        0 <= k < metric_table().len(),
    ensures
        metric_table()[k].value_template@.take(18) == "{{ value_json.CPU."@ ==> sensor_config(
            node_id,
            device,
            metric_table()[k],
        ).state_topic == node_id + "/sensor_data/"@ + "cpu"@,
        metric_table()[k].value_template@.take(18) == "{{ value_json.GPU."@ ==> sensor_config(
            node_id,
            device,
            metric_table()[k],
        ).state_topic == node_id + "/sensor_data/"@ + "gpu"@,
        metric_table()[k].value_template@.take(18) == "{{ value_json.Ram."@ ==> sensor_config(
            node_id,
            device,
            metric_table()[k],
        ).state_topic == node_id + "/sensor_data/"@ + "ram"@,
        metric_table()[k].value_template@.take(19) == "{{ value_json.Disk."@ ==> sensor_config(
            node_id,
            device,
            metric_table()[k],
        ).state_topic == node_id + "/sensor_data/"@ + "disk"@,
        metric_table()[k].value_template@.take(22) == "{{ value_json.Network."@ ==> sensor_config(
            node_id,
            device,
            metric_table()[k],
        ).state_topic == node_id + "/sensor_data/"@ + "network"@,
{
    reveal_strlit("{{ value_json.CPU.usage_percent | round(1) }}");
    reveal_strlit("{{ value_json.GPU.usage_percent | round(1) }}");
    reveal_strlit("{{ value_json.GPU.vram_usage_percent | round(1) }}");
    reveal_strlit("{{ value_json.Ram.usage_percent | round(1) }}");
    reveal_strlit("{{ value_json.Disk.read_bytes }}");
    reveal_strlit("{{ value_json.Disk.written_bytes }}");
    reveal_strlit("{{ value_json.Network.downloaded_bytes }}");
    reveal_strlit("{{ value_json.Network.uploaded_bytes }}");
    reveal_strlit("{{ value_json.total_energy_uj }}");
    reveal_strlit("{{ value_json.CPU.");
    reveal_strlit("{{ value_json.GPU.");
    reveal_strlit("{{ value_json.Ram.");
    reveal_strlit("{{ value_json.Disk.");
    reveal_strlit("{{ value_json.Network.");
    let t = metric_table()[k].value_template@;
    let s = metric_table()[k].sensor_type@;
    assert(t.take(18)[14] == t[14] && t.take(18)[15] == t[15]);
    assert(t.take(19)[14] == t[14] && t.take(19)[15] == t[15]);
    assert(t.take(22)[14] == t[14] && t.take(22)[15] == t[15]);
}

/// The metrics are these, each once and in this order: usage of processor, GPU, GPU
/// memory and memory, what disk and network have moved in either direction, and
/// the energy of every component and of all together.
pub proof fn law_every_metric_is_there()
    ensures
        metric_table().len() == 14,
        metric_table()[0].object_id@ == "cpu_usage"@,
        metric_table()[1].object_id@ == "cpu_energy"@,
        metric_table()[2].object_id@ == "gpu_usage"@,
        metric_table()[3].object_id@ == "gpu_vram_usage"@,
        metric_table()[4].object_id@ == "gpu_energy"@,
        metric_table()[5].object_id@ == "ram_usage"@,
        metric_table()[6].object_id@ == "ram_energy"@,
        metric_table()[7].object_id@ == "disk_read"@,
        metric_table()[8].object_id@ == "disk_write"@,
        metric_table()[9].object_id@ == "disk_energy"@,
        metric_table()[10].object_id@ == "network_download"@,
        metric_table()[11].object_id@ == "network_upload"@,
        metric_table()[12].object_id@ == "network_energy"@,
        metric_table()[13].object_id@ == "total_energy"@,
{
}

/// Users see every metric under its own name.
pub proof fn law_metrics_are_shown_under_their_names(k: int)
    requires
        0 <= k < metric_table().len(),
    ensures
        metric_table()[k].object_id@ == "cpu_usage"@ ==> metric_table()[k].name@ == "CPU Usage"@,
        metric_table()[k].object_id@ == "cpu_energy"@ ==> metric_table()[k].name@ == "CPU Energy"@,
        metric_table()[k].object_id@ == "gpu_usage"@ ==> metric_table()[k].name@ == "GPU Usage"@,
        metric_table()[k].object_id@ == "gpu_vram_usage"@ ==> metric_table()[k].name@ == "GPU VRAM Usage"@,
        metric_table()[k].object_id@ == "gpu_energy"@ ==> metric_table()[k].name@ == "GPU Energy"@,
        metric_table()[k].object_id@ == "ram_usage"@ ==> metric_table()[k].name@ == "RAM Usage"@,
        metric_table()[k].object_id@ == "ram_energy"@ ==> metric_table()[k].name@ == "RAM Energy"@,
        metric_table()[k].object_id@ == "disk_read"@ ==> metric_table()[k].name@ == "Disk Read"@,
        metric_table()[k].object_id@ == "disk_write"@ ==> metric_table()[k].name@ == "Disk Write"@,
        metric_table()[k].object_id@ == "disk_energy"@ ==> metric_table()[k].name@ == "Disk Energy"@,
        metric_table()[k].object_id@ == "network_download"@ ==> metric_table()[k].name@ == "Network Download"@,
        metric_table()[k].object_id@ == "network_upload"@ ==> metric_table()[k].name@ == "Network Upload"@,
        metric_table()[k].object_id@ == "network_energy"@ ==> metric_table()[k].name@ == "Network Energy"@,
        metric_table()[k].object_id@ == "total_energy"@ ==> metric_table()[k].name@ == "Total Energy"@,
{
    reveal_strlit("cpu_usage");
    reveal_strlit("cpu_energy");
    reveal_strlit("gpu_usage");
    reveal_strlit("gpu_vram_usage");
    reveal_strlit("gpu_energy");
    reveal_strlit("ram_usage");
    reveal_strlit("ram_energy");
    reveal_strlit("disk_read");
    reveal_strlit("disk_write");
    reveal_strlit("disk_energy");
    reveal_strlit("network_download");
    reveal_strlit("network_upload");
    reveal_strlit("network_energy");
    reveal_strlit("total_energy");
    lemma_object_marks(k);
    assert(object_marks()[k] == object_mark(metric_table()[k].object_id@));
}

/// Every metric but those of energy reads its own field, and is shown with its own
/// icon.
pub proof fn law_metrics_read_their_own_field(k: int)
    requires
        0 <= k < metric_table().len(),
    ensures
        metric_table()[k].object_id@ == "cpu_usage"@ ==> metric_table()[k].value_template@
            == "{{ value_json.CPU.usage_percent | round(1) }}"@ && str_of(metric_table()[k].icon) == Some("mdi:cpu-64-bit"@),
        metric_table()[k].object_id@ == "gpu_usage"@ ==> metric_table()[k].value_template@
            == "{{ value_json.GPU.usage_percent | round(1) }}"@ && str_of(metric_table()[k].icon) == Some("mdi:expansion-card"@),
        metric_table()[k].object_id@ == "gpu_vram_usage"@ ==> metric_table()[k].value_template@
            == "{{ value_json.GPU.vram_usage_percent | round(1) }}"@ && str_of(metric_table()[k].icon) == Some("mdi:expansion-card"@),
        metric_table()[k].object_id@ == "ram_usage"@ ==> metric_table()[k].value_template@
            == "{{ value_json.Ram.usage_percent | round(1) }}"@ && str_of(metric_table()[k].icon) == Some("mdi:memory"@),
        metric_table()[k].object_id@ == "disk_read"@ ==> metric_table()[k].value_template@
            == "{{ value_json.Disk.read_bytes }}"@ && str_of(metric_table()[k].icon) == Some("mdi:harddisk"@),
        metric_table()[k].object_id@ == "disk_write"@ ==> metric_table()[k].value_template@
            == "{{ value_json.Disk.written_bytes }}"@ && str_of(metric_table()[k].icon) == Some("mdi:harddisk"@),
        metric_table()[k].object_id@ == "network_download"@ ==> metric_table()[k].value_template@
            == "{{ value_json.Network.downloaded_bytes }}"@ && str_of(metric_table()[k].icon) == Some("mdi:download"@),
        metric_table()[k].object_id@ == "network_upload"@ ==> metric_table()[k].value_template@
            == "{{ value_json.Network.uploaded_bytes }}"@ && str_of(metric_table()[k].icon) == Some("mdi:upload"@),
{
    reveal_strlit("cpu_usage");
    reveal_strlit("cpu_energy");
    reveal_strlit("gpu_usage");
    reveal_strlit("gpu_vram_usage");
    reveal_strlit("gpu_energy");
    reveal_strlit("ram_usage");
    reveal_strlit("ram_energy");
    reveal_strlit("disk_read");
    reveal_strlit("disk_write");
    reveal_strlit("disk_energy");
    reveal_strlit("network_download");
    reveal_strlit("network_upload");
    reveal_strlit("network_energy");
    reveal_strlit("total_energy");
    let a = metric_table()[k].object_id@;
    lemma_object_marks(k);
    assert(object_marks()[k] == object_mark(a));
}

/// What a metric measures shows in its id: energy in microjoules, usage in percent,
/// and everything else an amount of data in bytes. Only energy is a running total;
/// the rest is shown as it is measured. Energy has the icon of a lightning bolt.
pub proof fn law_metrics_have_the_unit_of_what_they_measure(k: int)
    requires
        0 <= k < metric_table().len(),
    ensures
        ({
            let m = metric_table()[k];
            let n = m.object_id@.len() as int;
            let energy = n >= 7 && m.object_id@.skip(n - 7) == "_energy"@;
            let usage = n >= 6 && m.object_id@.skip(n - 6) == "_usage"@;
            &&& energy ==> {
                &&& str_of(m.unit) == Some("µJ"@)
                &&& str_of(m.device_class) == Some("energy"@)
                &&& str_of(m.state_class) == Some("total_increasing"@)
                &&& m.value_template@ == "{{ value_json.total_energy_uj }}"@
                &&& str_of(m.icon) == Some("mdi:lightning-bolt"@)
            }
            &&& usage ==> {
                &&& str_of(m.unit) == Some("%"@)
                &&& m.device_class is None
                &&& str_of(m.state_class) == Some("measurement"@)
            }
            &&& !energy && !usage ==> {
                &&& str_of(m.unit) == Some("B"@)
                &&& str_of(m.device_class) == Some("data_size"@)
                &&& str_of(m.state_class) == Some("measurement"@)
            }
        }),
{
    reveal_strlit("cpu_usage");
    reveal_strlit("cpu_energy");
    reveal_strlit("gpu_usage");
    reveal_strlit("gpu_vram_usage");
    reveal_strlit("gpu_energy");
    reveal_strlit("ram_usage");
    reveal_strlit("ram_energy");
    reveal_strlit("disk_read");
    reveal_strlit("disk_write");
    reveal_strlit("disk_energy");
    reveal_strlit("network_download");
    reveal_strlit("network_upload");
    reveal_strlit("network_energy");
    reveal_strlit("total_energy");
    reveal_strlit("_energy");
    reveal_strlit("_usage");
    let a = metric_table()[k].object_id@;
    let n = a.len() as int;
    if a[n - 1] == 'y' {
        assert(a.skip(n - 7) =~= "_energy"@);
        assert(a.skip(n - 6)[5] == a[n - 1]);
    } else if a[n - 1] == 'e' && a[n - 2] == 'g' {
        assert(a.skip(n - 6) =~= "_usage"@);
        assert(a.skip(n - 7)[6] == a[n - 1]);
    } else {
        assert(a.skip(n - 7)[6] == a[n - 1]);
        assert(a.skip(n - 6)[5] == a[n - 1]);
        assert(a.skip(n - 6)[4] == a[n - 2]);
    }
}

} // verus!
