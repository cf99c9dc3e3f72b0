//! Sensors, what they report, and the events that reports are gathered in.

use crate::energy::EnergyUj;
use vstd::prelude::*;

verus! {

/// An IEEE 754 double, carried by its bit pattern: it is handed on, never
/// computed with.
#[derive(Clone, Copy, Debug, PartialEq, Eq, Structural)]
pub struct Float64 {
    pub bits: u64,
}

/// An IEEE 754 single, carried by its bit pattern.
#[derive(Clone, Copy, Debug, PartialEq, Eq, Structural)]
pub struct Float32 {
    pub bits: u32,
}

/// What a CPU sensor reports. The processor may also meter its graphics unit
/// (`pp1_energy`, a part of `total_energy`) and the memory (`dram_energy`).
#[derive(Clone, Copy, Debug)]
pub struct CPUData {
    pub total_energy: Option<EnergyUj>,
    pub pp1_energy: Option<EnergyUj>,
    pub dram_energy: Option<EnergyUj>,
    pub usage_percent: Option<Float64>,
}

/// What a GPU sensor reports.
#[derive(Debug)]
pub struct GPUData {
    pub total_energy: Option<EnergyUj>,
    pub usage_percent: Option<Float64>,
    pub vram_usage_percent: Option<Float64>,
    pub name: Option<String>,
}

/// What a memory sensor reports.
#[derive(Clone, Copy, Debug)]
pub struct RamData {
    pub total_energy: Option<EnergyUj>,
    pub usage_percent: Option<Float64>,
}

/// What a disk sensor reports.
#[derive(Clone, Copy, Debug)]
pub struct DiskData {
    pub total_energy: Option<EnergyUj>,
    pub read_bytes: u64,
    pub written_bytes: u64,
}

/// What a network sensor reports.
#[derive(Clone, Copy, Debug)]
pub struct NetworkData {
    pub total_energy: Option<EnergyUj>,
    pub downloaded_bytes: u64,
    pub uploaded_bytes: u64,
}

/// A process, by its identifier, and the energy that was attributed to it.
#[derive(Clone, Copy, Debug, PartialEq, Eq, Structural)]
pub struct ProcessData {
    pub pid: u32,
    pub energy: Option<EnergyUj>,
}

/// The energy of a whole event.
#[derive(Clone, Copy, Debug, PartialEq, Eq, Structural)]
pub struct TotalData {
    pub total_energy: EnergyUj,
}

/// One entry of an event as it was measured.
#[derive(Debug)]
pub enum SensorData {
    CPU(CPUData),
    GPU(GPUData),
    Ram(RamData),
    Disk(DiskData),
    Network(NetworkData),
    Process(Vec<ProcessData>),
}

/// One entry of an event that has been accounted for.
#[derive(Debug)]
pub enum ComputedSensorData {
    CPU(CPUData),
    GPU(GPUData),
    Ram(RamData),
    Disk(DiskData),
    Network(NetworkData),
    Total(TotalData),
    Process(Vec<ProcessData>),
}

/// Entries with the time, in nanoseconds since the Unix epoch.
#[derive(Debug)]
pub struct Event<T> {
    pub time: u128,
    pub data: Vec<T>,
}

impl Clone for GPUData {
    fn clone(&self) -> (r: GPUData)
        ensures
            r == *self,
    {
        let name = match &self.name {
            Some(n) => Some(n.clone()),
            None => None,
        };
        GPUData {
            total_energy: self.total_energy,
            usage_percent: self.usage_percent,
            vram_usage_percent: self.vram_usage_percent,
            name,
        }
    }
}

/// The energy that an entry reports for its component. The processes share
/// energy that the components report already, so their list reports none.
pub open spec fn entry_energy(d: SensorData) -> Option<EnergyUj> {
    match d {
        SensorData::CPU(c) => c.total_energy,
        SensorData::GPU(g) => g.total_energy,
        SensorData::Ram(r) => r.total_energy,
        SensorData::Disk(k) => k.total_energy,
        SensorData::Network(n) => n.total_energy,
        SensorData::Process(_) => None,
    }
}

/// The energy that an accounted entry reports.
pub open spec fn computed_energy(d: ComputedSensorData) -> Option<EnergyUj> {
    match d {
        ComputedSensorData::CPU(c) => c.total_energy,
        ComputedSensorData::GPU(g) => g.total_energy,
        ComputedSensorData::Ram(r) => r.total_energy,
        ComputedSensorData::Disk(k) => k.total_energy,
        ComputedSensorData::Network(n) => n.total_energy,
        ComputedSensorData::Total(t) => Some(t.total_energy),
        ComputedSensorData::Process(_) => None,
    }
}

/// The same entry, as it stands among accounted ones.
pub open spec fn as_computed(d: SensorData) -> ComputedSensorData {
    match d {
        SensorData::CPU(c) => ComputedSensorData::CPU(c),
        SensorData::GPU(g) => ComputedSensorData::GPU(g),
        SensorData::Ram(r) => ComputedSensorData::Ram(r),
        SensorData::Disk(k) => ComputedSensorData::Disk(k),
        SensorData::Network(n) => ComputedSensorData::Network(n),
        SensorData::Process(v) => ComputedSensorData::Process(v),
    }
}

/// The name of the component that an entry is about, as users see it.
pub open spec fn shown_name(d: ComputedSensorData) -> Seq<char> {
    match d {
        ComputedSensorData::CPU(_) => "CPU"@,
        ComputedSensorData::GPU(_) => "GPU"@,
        ComputedSensorData::Ram(_) => "RAM"@,
        ComputedSensorData::Disk(_) => "Disk"@,
        ComputedSensorData::Network(_) => "Network"@,
        ComputedSensorData::Total(_) => "Total"@,
        ComputedSensorData::Process(_) => "Process"@,
    }
}

/// The name of the component that an entry is about, in lower case.
pub open spec fn component_name(d: ComputedSensorData) -> Seq<char> {
    match d {
        ComputedSensorData::CPU(_) => "cpu"@,
        ComputedSensorData::GPU(_) => "gpu"@,
        ComputedSensorData::Ram(_) => "ram"@,
        ComputedSensorData::Disk(_) => "disk"@,
        ComputedSensorData::Network(_) => "network"@,
        ComputedSensorData::Total(_) => "total"@,
        ComputedSensorData::Process(_) => "process"@,
    }
}

impl SensorData {
    pub fn total_energy(&self) -> (r: Option<EnergyUj>)
        ensures
            r == entry_energy(*self),
    {
        match self {
            SensorData::CPU(c) => c.total_energy,
            SensorData::GPU(g) => g.total_energy,
            SensorData::Ram(r) => r.total_energy,
            SensorData::Disk(k) => k.total_energy,
            SensorData::Network(n) => n.total_energy,
            SensorData::Process(_) => None,
        }
    }
}

impl ComputedSensorData {
    pub fn total_energy(&self) -> (r: Option<EnergyUj>)
        ensures
            r == computed_energy(*self),
    {
        match self {
            ComputedSensorData::CPU(c) => c.total_energy,
            ComputedSensorData::GPU(g) => g.total_energy,
            ComputedSensorData::Ram(r) => r.total_energy,
            ComputedSensorData::Disk(k) => k.total_energy,
            ComputedSensorData::Network(n) => n.total_energy,
            ComputedSensorData::Total(t) => Some(t.total_energy),
            ComputedSensorData::Process(_) => None,
        }
    }

    /// The name of the component, as users see it.
    pub fn sensor_type(&self) -> (r: &'static str)
        ensures
            r@ == shown_name(*self),
            r.is_ascii(),
            r@.map_values(|c: char| crate::text::ascii_lower(c)) == component_name(*self),
    {
        proof {
            reveal_strlit("CPU");
            reveal_strlit("GPU");
            reveal_strlit("RAM");
            reveal_strlit("Disk");
            reveal_strlit("Network");
            reveal_strlit("Total");
            reveal_strlit("Process");
            reveal_strlit("cpu");
            reveal_strlit("gpu");
            reveal_strlit("ram");
            reveal_strlit("disk");
            reveal_strlit("network");
            reveal_strlit("total");
            reveal_strlit("process");
        }
        match self {
            ComputedSensorData::CPU(_) => "CPU",
            ComputedSensorData::GPU(_) => "GPU",
            ComputedSensorData::Ram(_) => "RAM",
            ComputedSensorData::Disk(_) => "Disk",
            ComputedSensorData::Network(_) => "Network",
            ComputedSensorData::Total(_) => "Total",
            ComputedSensorData::Process(_) => "Process",
        }
    }
}

/// Why a sensor gave no answer.
#[derive(Debug)]
pub enum SensorError {
    NotSupported,
    ReadError(String),
}

/// Common interface for hardware sensors.
pub trait Sensor {
    /// Static hardware specs (model, capacity, and so on).
    type Specs;

    /// Reads energy consumption since last call, usage, and throughput data.
    fn read_full_data(&self) -> (r: Result<SensorData, SensorError>);

    /// Returns static hardware specs.
    fn read_initial_info(&self) -> (r: Result<Self::Specs, SensorError>)
        default_ensures
            r == Err::<Self::Specs, SensorError>(SensorError::NotSupported),
    {
        Err(SensorError::NotSupported)
    }

    /// Returns the name of the device.
    fn read_name(&self) -> (r: Result<String, SensorError>)
        default_ensures
            r == Err::<String, SensorError>(SensorError::NotSupported),
    {
        Err(SensorError::NotSupported)
    }
}

/// A GPU: its name, whether it is part of the processor, and the device that
/// reads it.
pub struct GPUSensor<S> {
    pub name: String,
    pub integrated: bool,
    pub device: S,
}

impl<S> GPUSensor<S> {
    pub fn name(&self) -> (r: String)
        ensures
            r == self.name,
    {
        self.name.clone()
    }

    pub fn is_integrated(&self) -> (r: bool)
        ensures
            r == self.integrated,
    {
        self.integrated
    }
}

/// Variant wrapper for all supported sensor types.
pub enum SensorType<S> {
    CPU(S),
    GPU(GPUSensor<S>),
    RAM(S),
    Disk(S),
    Network(S),
}

impl<S> SensorType<S> {
    /// The device behind the sensor.
    pub open spec fn device(self) -> S {
        match self {
            SensorType::CPU(s) => s,
            SensorType::GPU(g) => g.device,
            SensorType::RAM(s) => s,
            SensorType::Disk(s) => s,
            SensorType::Network(s) => s,
        }
    }
}

impl<S: Sensor> Sensor for SensorType<S> {
    type Specs = S::Specs;

    /// What the device reports.
    fn read_full_data(&self) -> (r: Result<SensorData, SensorError>)
        ensures
            call_ensures(S::read_full_data, (&self.device(),), r),
    {
        match self {
            SensorType::CPU(sensor) => sensor.read_full_data(),
            SensorType::GPU(sensor) => sensor.device.read_full_data(),
            SensorType::RAM(sensor) => sensor.read_full_data(),
            SensorType::Disk(sensor) => sensor.read_full_data(),
            SensorType::Network(sensor) => sensor.read_full_data(),
        }
    }

    /// What the device answers. A network sensor has no specs to give.
    fn read_initial_info(&self) -> (r: Result<S::Specs, SensorError>)
        ensures
            self is Network ==> r == Err::<S::Specs, SensorError>(SensorError::NotSupported),
            self !is Network ==> call_ensures(S::read_initial_info, (&self.device(),), r),
    {
        match self {
            SensorType::CPU(sensor) => sensor.read_initial_info(),
            SensorType::GPU(sensor) => sensor.device.read_initial_info(),
            SensorType::RAM(sensor) => sensor.read_initial_info(),
            SensorType::Disk(sensor) => sensor.read_initial_info(),
            SensorType::Network(_) => Err(SensorError::NotSupported),
        }
    }

    /// What the device answers. Memory has no name.
    fn read_name(&self) -> (r: Result<String, SensorError>)
        ensures
            self is RAM ==> r == Err::<String, SensorError>(SensorError::NotSupported),
            self !is RAM ==> call_ensures(S::read_name, (&self.device(),), r),
    {
        match self {
            SensorType::CPU(sensor) => sensor.read_name(),
            SensorType::GPU(sensor) => sensor.device.read_name(),
            SensorType::Disk(sensor) => sensor.read_name(),
            SensorType::Network(sensor) => sensor.read_name(),
            SensorType::RAM(_) => Err(SensorError::NotSupported),
        }
    }
}

/// A measured entry reports the energy of its own data; a list of processes
/// reports none.
pub proof fn law_measured_entries_report_their_energy(d: SensorData, r: Option<EnergyUj>)
    requires
        call_ensures(SensorData::total_energy, (&d,), r),
    ensures
        d matches SensorData::CPU(c) ==> r == c.total_energy,
        d matches SensorData::GPU(g) ==> r == g.total_energy,
        d matches SensorData::Ram(m) ==> r == m.total_energy,
        d matches SensorData::Disk(k) ==> r == k.total_energy,
        d matches SensorData::Network(n) ==> r == n.total_energy,
        d is Process ==> r is None,
        entry_energy(d) == r,
{
}

/// An accounted entry reports the energy of its own data; a total always reports
/// some, and a list of processes none.
pub proof fn law_accounted_entries_report_their_energy(d: ComputedSensorData, r: Option<EnergyUj>)
    requires
        call_ensures(ComputedSensorData::total_energy, (&d,), r),
    ensures
        d matches ComputedSensorData::CPU(c) ==> r == c.total_energy,
        d matches ComputedSensorData::GPU(g) ==> r == g.total_energy,
        d matches ComputedSensorData::Ram(m) ==> r == m.total_energy,
        d matches ComputedSensorData::Disk(k) ==> r == k.total_energy,
        d matches ComputedSensorData::Network(n) ==> r == n.total_energy,
        d matches ComputedSensorData::Total(t) ==> r == Some(t.total_energy),
        d is Process ==> r is None,
        computed_energy(d) == r,
{
}

/// Every entry goes by the name of its own kind, in capitals where users see it
/// and in lower case on topics and in totals.
pub proof fn law_entries_go_by_their_own_kind(d: ComputedSensorData, shown: &'static str)
    requires
        call_ensures(ComputedSensorData::sensor_type, (&d,), shown),
    ensures
        d is CPU ==> shown@ == "CPU"@ && component_name(d) == "cpu"@,
        d is GPU ==> shown@ == "GPU"@ && component_name(d) == "gpu"@,
        d is Ram ==> shown@ == "RAM"@ && component_name(d) == "ram"@,
        d is Disk ==> shown@ == "Disk"@ && component_name(d) == "disk"@,
        d is Network ==> shown@ == "Network"@ && component_name(d) == "network"@,
        d is Total ==> shown@ == "Total"@ && component_name(d) == "total"@,
        d is Process ==> shown@ == "Process"@ && component_name(d) == "process"@,
{
}

/// Entries share a name exactly if they are of one kind.
pub proof fn law_names_tell_kinds_apart(a: ComputedSensorData, b: ComputedSensorData)
    ensures
        component_name(a) == component_name(b) <==> {
            ||| a is CPU && b is CPU
            ||| a is GPU && b is GPU
            ||| a is Ram && b is Ram
            ||| a is Disk && b is Disk
            ||| a is Network && b is Network
            ||| a is Total && b is Total
            ||| a is Process && b is Process
        },
{
    reveal_strlit("cpu");
    reveal_strlit("gpu");
    reveal_strlit("ram");
    reveal_strlit("disk");
    reveal_strlit("network");
    reveal_strlit("total");
    reveal_strlit("process");
    let x = component_name(a);
    let y = component_name(b);
    assert(x[0] == y[0] && x[2] == y[2] && x.len() == y.len() || x != y);
}

} // verus!
