//! How a node reports to its broker.

use crate::computed::DEFAULT_PROCESS_CAP;
use vstd::prelude::*;

verus! {

/// Which processes are published.
#[derive(Clone, Copy, Debug, PartialEq, Eq, Structural)]
pub enum ProcessPublishMode {
    Disabled,
    Capped(usize),
}

impl Default for ProcessPublishMode {
    fn default() -> (r: Self)
        ensures
            r == ProcessPublishMode::Capped(10),
    {
        ProcessPublishMode::Capped(10)
    }
}

/// The unit in which energy is published. In any unit but watt-hours the
/// readings go out as they were measured.
#[derive(Clone, Copy, Debug, PartialEq, Eq, Structural)]
pub enum ConsumptionUnit {
    WattHour,
    AsMeasured,
}

/// The address of a broker: the text of its IP address, and its port.
#[derive(Debug)]
pub struct BrokerAddr {
    pub host: String,
    pub port: u16,
}

impl Clone for BrokerAddr {
    fn clone(&self) -> (r: BrokerAddr)
        ensures
            r == *self,
    {
        BrokerAddr { host: self.host.clone(), port: self.port }
    }
}

/// The settings of a connection.
#[derive(Debug)]
pub struct MqttConfig {
    pub id: String,
    pub addr: BrokerAddr,
    pub unit: Option<ConsumptionUnit>,
    pub process_mode: ProcessPublishMode,
    pub home_assistant: bool,
    pub user: Option<String>,
    pub pass: Option<String>,
    pub tls: bool,
}

impl Clone for MqttConfig {
    fn clone(&self) -> (r: MqttConfig)
        ensures
            r == *self,
    {
        MqttConfig {
            id: self.id.clone(),
            addr: self.addr.clone(),
            unit: self.unit,
            process_mode: self.process_mode,
            home_assistant: self.home_assistant,
            user: clone_text(&self.user),
            pass: clone_text(&self.pass),
            tls: self.tls,
        }
    }
}

/// A copy of a text that may be missing.
pub(crate) fn clone_text(s: &Option<String>) -> (r: Option<String>)
    ensures
        r == *s,
{
    match s {
        Some(t) => Some(t.clone()),
        None => None,
    }
}

impl MqttConfig {
    /// The settings that nobody has changed yet.
    pub open spec fn default_for(id: String, addr: BrokerAddr) -> MqttConfig {
        MqttConfig {
            id,
            addr,
            unit: None,
            process_mode: ProcessPublishMode::Capped(10),
            home_assistant: false,
            user: None,
            pass: None,
            tls: false,
        }
    }

    pub fn new(id: String, addr: BrokerAddr) -> (r: MqttConfig)
        ensures
            r == MqttConfig::default_for(id, addr),
    {
        MqttConfig {
            id,
            addr,
            unit: None,
            process_mode: ProcessPublishMode::Capped(10),
            home_assistant: false,
            user: None,
            pass: None,
            tls: false,
        }
    }

    /// The settings of a node of which only the broker is known.
    pub fn for_broker(addr: BrokerAddr) -> (r: MqttConfig)
        ensures
            r.id@ == "wattseal_collector"@,
            r == MqttConfig::default_for(r.id, addr),
    {
        MqttConfig::new("wattseal_collector".to_owned(), addr)
    }
}

/// How many processes an event lists: as many as are published, or the usual
/// number where nothing is published at all.
pub open spec fn process_cap_for(mode: Option<ProcessPublishMode>) -> usize {
    match mode {
        Some(ProcessPublishMode::Disabled) => 0,
        Some(ProcessPublishMode::Capped(n)) => n,
        None => DEFAULT_PROCESS_CAP,
    }
}

/// See [`process_cap_for`].
pub fn process_cap(mode: Option<ProcessPublishMode>) -> (r: Option<usize>)
    ensures
        r == Some(process_cap_for(mode)),
{
    match mode {
        Some(ProcessPublishMode::Disabled) => Some(0),
        Some(ProcessPublishMode::Capped(n)) => Some(n),
        None => Some(DEFAULT_PROCESS_CAP),
    }
}

/// A new configuration is that of the given node at the given broker, and plain
/// in all else: ten processes, readings as they were measured, no Home
/// Assistant, no credentials, no encryption.
pub proof fn law_settings_start_plain(id: String, addr: BrokerAddr, r: MqttConfig)
    requires
        call_ensures(MqttConfig::new, (id, addr), r) || call_ensures(MqttConfig::for_broker, (addr,), r)
            && id@ == "wattseal_collector"@,
    ensures
        r.id@ == id@,
        r.addr == addr,
        r.unit is None,
        r.process_mode == ProcessPublishMode::Capped(10),
        !r.home_assistant,
        r.user is None,
        r.pass is None,
        !r.tls,
{
}

/// An event lists as many processes as are published: none where that is
/// disabled, and ten where nothing is published at all.
pub proof fn law_processes_are_listed_as_published(mode: Option<ProcessPublishMode>, r: Option<usize>)
    requires
        call_ensures(process_cap, (mode,), r),
    ensures
        r is Some,
        mode matches Some(ProcessPublishMode::Disabled) ==> r == Some(0usize),
        mode matches Some(ProcessPublishMode::Capped(n)) ==> r == Some(n),
        mode is None ==> r == Some(10usize),
        r == Some(process_cap_for(mode)),
{
}

} // verus!
