//! The connection to a broker: how it is opened, and what is said on it when
//! it comes up.

use crate::config::{clone_text, MqttConfig};
use crate::discovery::{
    build_ha_discovery_configs, device_of, metric_table, sensor_config, HaDevice, HaDeviceView, HaSensorConfig,
    OFFLINE, ONLINE,
};
use crate::hardware::HardwareInfo;
use crate::publisher::QoS;
use crate::text::{concat3, hex4, hex4_text, hex_value, lemma_hex4_value, utf8};
use crate::topics::{availability_topic, discovery_topic, status_topic};
use vstd::prelude::*;
use vstd::utf8::*;

verus! {

/// Seconds between two signs of life.
pub const KEEP_ALIVE_SECS: u64 = 5;

/// Seconds to wait after a connection has failed.
pub const RETRY_SECS: u64 = 5;

/// How many requests may wait for the connection.
pub const REQUEST_CAPACITY: usize = 10;

/// A message to a topic.
#[derive(Debug)]
pub struct Message {
    pub topic: String,
    pub qos: QoS,
    pub retain: bool,
    pub payload: Vec<u8>,
}

impl Message {
    /// The message says that a node is in the given state: retained, so that
    /// whoever comes later hears it too.
    pub open spec fn announces(self, node_id: Seq<char>, state: Seq<char>) -> bool {
        &&& self.topic@ == availability_topic(node_id)
        &&& self.qos == QoS::AtLeastOnce
        &&& self.retain
        &&& self.payload@ == encode_utf8(state)
    }
}

fn status_message(node_id: &str, state: &str) -> (r: Message)
    ensures
        r.announces(node_id@, state@),
{
    Message {
        topic: status_topic(node_id),
        qos: QoS::AtLeastOnce,
        retain: true,
        payload: utf8(state),
    }
}

/// How a connection is opened.
#[derive(Debug)]
pub struct ConnectOptions {
    pub client_id: String,
    pub host: String,
    pub port: u16,
    pub keep_alive_secs: u64,
    pub credentials: Option<(String, String)>,
    pub tls: bool,
    pub last_will: Message,
    pub request_capacity: usize,
}

/// The credentials count only if both are there.
pub open spec fn credentials_of(config: MqttConfig) -> Option<(String, String)> {
    match (config.user, config.pass) {
        (Some(u), Some(p)) => Some((u, p)),
        _ => None,
    }
}

impl ConnectOptions {
    /// The options are those of a configuration, at the given nanosecond. The
    /// last four hexadecimal digits of the time tell two clients of one node
    /// apart.
    pub open spec fn opens(self, config: MqttConfig, nanos: u128) -> bool {
        &&& self.client_id@ == config.id@ + "_"@ + hex4((nanos % 65536) as nat)
        &&& self.host == config.addr.host
        &&& self.port == config.addr.port
        &&& self.keep_alive_secs == 5
        &&& self.credentials == credentials_of(config)
        &&& self.tls == config.tls
        &&& self.last_will.announces(config.id@, OFFLINE@)
        &&& self.request_capacity == 10
    }
}

/// How the connection of a configuration is opened at a time, in nanoseconds
/// since the Unix epoch.
pub fn connect_options(config: &MqttConfig, nanos: u128) -> (r: ConnectOptions)
    ensures
        r.opens(*config, nanos),
{
    let suffix: u16 = (nanos % 65536) as u16;
    let digits = hex4_text(suffix);
    let credentials = match (clone_text(&config.user), clone_text(&config.pass)) {
        (Some(u), Some(p)) => Some((u, p)),
        _ => None,
    };
    ConnectOptions {
        client_id: concat3(config.id.as_str(), "_", digits.as_str()),
        host: config.addr.host.clone(),
        port: config.addr.port,
        keep_alive_secs: KEEP_ALIVE_SECS,
        credentials,
        tls: config.tls,
        last_will: status_message(config.id.as_str(), OFFLINE),
        request_capacity: REQUEST_CAPACITY,
    }
}

/// What happens on a connection.
#[derive(Debug)]
pub enum ConnectionEvent {
    /// The broker has accepted the connection.
    Accepted,
    /// The connection has failed.
    Failed,
    /// Anything else.
    Other,
}

/// What is to be done about it.
#[derive(Debug)]
pub enum ConnectionAction {
    /// Publish a message.
    Publish(Message),
    /// Publish an announcement, in JSON, to a topic.
    Announce { topic: String, qos: QoS, retain: bool, config: HaSensorConfig },
    /// Wait for some seconds before the connection is tried again.
    Wait(u64),
}

/// A connection as its node sees it.
#[derive(Debug)]
pub struct Connection {
    pub node_id: String,
    pub home_assistant: bool,
    pub hardware: Option<HardwareInfo>,
    pub connected: bool,
}

/// Whether a connection is up after an event.
pub open spec fn connected_after(connected: bool, event: ConnectionEvent) -> bool {
    match event {
        ConnectionEvent::Accepted => true,
        ConnectionEvent::Failed => false,
        ConnectionEvent::Other => connected,
    }
}

/// Whether an event is the moment at which a node comes up.
pub open spec fn comes_up(connected: bool, event: ConnectionEvent) -> bool {
    !connected && event is Accepted
}

impl Connection {
    /// The texts of the device that is announced.
    pub open spec fn device(self) -> HaDeviceView {
        match self.hardware {
            Some(h) => device_of(
                self.node_id@,
                Some(h.system.hostname@),
                Some(h.system.os@),
                Some(h.cpu.name@),
            ),
            None => device_of(self.node_id@, None, None, None),
        }
    }

    /// The action is the announcement of metric `k`, retained.
    pub open spec fn announces(self, action: ConnectionAction, k: int) -> bool {
        action matches ConnectionAction::Announce { topic, qos, retain, config } && {
            &&& topic@ == discovery_topic(self.node_id@, metric_table()[k].object_id@)
            &&& qos == QoS::AtLeastOnce
            &&& retain
            &&& config@ == sensor_config(self.node_id@, self.device(), metric_table()[k])
        }
    }

    /// What is to be done about an event. A node that comes up says so, and
    /// tells Home Assistant of its metrics if that is wanted; after a failure
    /// it waits.
    pub open spec fn answers(self, event: ConnectionEvent, actions: Seq<ConnectionAction>) -> bool {
        if comes_up(self.connected, event) {
            &&& actions.len() == 1 + (if self.home_assistant { metric_table().len() as int } else { 0 })
            &&& actions[0] matches ConnectionAction::Publish(m)
            &&& m.announces(self.node_id@, ONLINE@)
            &&& forall|k: int|
                0 <= k < actions.len() - 1 ==> self.announces(#[trigger] actions[k + 1], k)
        } else if event is Failed {
            actions == seq![ConnectionAction::Wait(5)]
        } else {
            actions.len() == 0
        }
    }

    pub fn new(config: &MqttConfig, hardware: Option<HardwareInfo>) -> (r: Connection)
        ensures
            r.node_id == config.id,
            r.home_assistant == config.home_assistant,
            r.hardware == hardware,
            !r.connected,
    {
        Connection {
            node_id: config.id.clone(),
            home_assistant: config.home_assistant,
            hardware,
            connected: false,
        }
    }

    fn announced_device(&self) -> (r: HaDevice)
        ensures
            r@ == self.device(),
    {
        match &self.hardware {
            Some(h) => HaDevice::new(
                self.node_id.as_str(),
                Some(h.system.hostname.as_str()),
                Some(h.system.os.as_str()),
                Some(h.cpu.name.as_str()),
            ),
            None => HaDevice::new(self.node_id.as_str(), None, None, None),
        }
    }

    /// Takes note of an event, and says what is to be done.
    pub fn on_event(&mut self, event: ConnectionEvent) -> (r: Vec<ConnectionAction>)
        ensures
            final(self).connected == connected_after(old(self).connected, event),
            final(self).node_id == old(self).node_id,
            final(self).home_assistant == old(self).home_assistant,
            final(self).hardware == old(self).hardware,
            old(self).answers(event, r@),
    {
        let mut actions: Vec<ConnectionAction> = Vec::new();
        match event {
            ConnectionEvent::Accepted => {
                if !self.connected {
                    self.connected = true;
                    actions.push(
                        ConnectionAction::Publish(status_message(self.node_id.as_str(), ONLINE)),
                    );
                    if self.home_assistant {
                        let device = self.announced_device();
                        let configs = build_ha_discovery_configs(self.node_id.as_str(), &device);
                        let ghost all = configs@;
                        let ghost node = *old(self);
                        for pair in it: configs
                            invariant
                                it.seq() == all,
                                all.len() == metric_table().len(),
                                forall|k: int|
                                    #![trigger all[k]]
                                    0 <= k < all.len() ==> {
                                        &&& all[k].0@ == discovery_topic(
                                            node.node_id@,
                                            metric_table()[k].object_id@,
                                        )
                                        &&& all[k].1@ == sensor_config(
                                            node.node_id@,
                                            node.device(),
                                            metric_table()[k],
                                        )
                                    },
                                actions@.len() == it.index() + 1,
                                actions@[0] matches ConnectionAction::Publish(m) && m.announces(
                                    node.node_id@,
                                    ONLINE@,
                                ),
                                forall|k: int|
                                    0 <= k < actions@.len() - 1 ==> node.announces(
                                        #[trigger] actions@[k + 1],
                                        k,
                                    ),
                        {
                            let (topic, config) = pair;
                            let ghost before = actions@;
                            actions.push(
                                ConnectionAction::Announce {
                                    topic,
                                    qos: QoS::AtLeastOnce,
                                    retain: true,
                                    config,
                                },
                            );
                            assert forall|k: int| 0 <= k < actions@.len() - 1 implies node.announces(
                                #[trigger] actions@[k + 1],
                                k,
                            ) by {
                                if k < before.len() - 1 {
                                    assert(actions@[k + 1] == before[k + 1]);
                                } else {
                                    assert(all[k] == pair);
                                }
                            }
                        }
                    }
                }
            },
            ConnectionEvent::Failed => {
                self.connected = false;
                actions.push(ConnectionAction::Wait(RETRY_SECS));
                assert(actions@ =~= seq![ConnectionAction::Wait(5)]);
            },
            ConnectionEvent::Other => {},
        }
        actions
    }
}

/// Whether a connection is up after a series of events.
pub open spec fn connected_through(connected: bool, events: Seq<ConnectionEvent>) -> bool
    decreases events.len(),
{
    if events.len() == 0 {
        connected
    } else {
        connected_after(connected_through(connected, events.drop_last()), events.last())
    }
}

/// A node that has come up does not come up again before the connection has
/// failed, however often the broker accepts it.
pub proof fn law_birth_is_announced_once(connected: bool, events: Seq<ConnectionEvent>, i: int, j: int)
    requires
        0 <= i < j < events.len(),
        comes_up(connected_through(connected, events.take(i)), events[i]),
        comes_up(connected_through(connected, events.take(j)), events[j]),
    ensures
        exists|k: int| i < k < j && events[k] is Failed,
{
    if forall|k: int| i < k < j ==> !(events[k] is Failed) {
        lemma_stays_up(connected, events, i, j);
    }
}

proof fn lemma_stays_up(connected: bool, events: Seq<ConnectionEvent>, i: int, j: int)
    requires
        0 <= i < j <= events.len(),
        events[i] is Accepted,
        forall|k: int| i < k < j ==> !(events[k] is Failed),
    ensures
        connected_through(connected, events.take(j)),
    decreases j,
{
    assert(events.take(j).drop_last() == events.take(j - 1));
    assert(events.take(j).last() == events[j - 1]);
    if j > i + 1 {
        lemma_stays_up(connected, events, i, j - 1);
    }
}

/// Once a connection has failed, the next time that the broker accepts it the
/// node comes up again.
pub proof fn law_node_comes_up_again_after_a_failure(connected: bool)
    ensures
        comes_up(connected_after(connected, ConnectionEvent::Failed), ConnectionEvent::Accepted),
{
}

/// Home Assistant waits for exactly what a node says of its state: for the
/// birth message, and for the last will, on the topic of both.
pub proof fn law_home_assistant_hears_the_state(
    options: ConnectOptions,
    config: MqttConfig,
    nanos: u128,
    birth: Message,
    device: HaDeviceView,
    k: int,
)
    requires
        options.opens(config, nanos),
        birth.announces(config.id@, ONLINE@),
        0 <= k < metric_table().len(),
    ensures
        ({
            let announced = sensor_config(config.id@, device, metric_table()[k]);
            &&& announced.availability_topic == Some(birth.topic@)
            &&& announced.availability_topic == Some(options.last_will.topic@)
            &&& birth.payload@ == encode_utf8(announced.payload_available->0)
            &&& options.last_will.payload@ == encode_utf8(announced.payload_not_available->0)
        }),
{
}

/// A connection is opened as it is configured. Its client goes by the node and
/// four hexadecimal digits that read as the last 16 bits of the time; it shows
/// credentials exactly if both the user and the password are set; and its last
/// will is that the node is offline, retained on the node's status topic.
pub proof fn law_connections_open_as_configured(config: MqttConfig, nanos: u128, r: ConnectOptions)
    requires
        call_ensures(connect_options, (&config, nanos), r),
    ensures
        ({
            let n = config.id@.len() as int;
            &&& r.client_id@.len() == n + 5
            &&& r.client_id@.take(n) == config.id@
            &&& r.client_id@[n] == '_'
            &&& hex_value(r.client_id@[n + 1]) * 4096 + hex_value(r.client_id@[n + 2]) * 256 + hex_value(
                r.client_id@[n + 3],
            ) * 16 + hex_value(r.client_id@[n + 4]) == nanos % 65536
        }),
        r.host == config.addr.host,
        r.port == config.addr.port,
        r.keep_alive_secs == 5,
        r.credentials is Some <==> config.user is Some && config.pass is Some,
        r.credentials matches Some(c) ==> Some(c.0) == config.user && Some(c.1) == config.pass,
        r.tls == config.tls,
        r.request_capacity == 10,
        r.last_will.topic@ == config.id@ + "/status"@,
        r.last_will.qos == QoS::AtLeastOnce,
        r.last_will.retain,
        r.last_will.payload@ == encode_utf8("offline"@),
{
    reveal_strlit("_");
    let n = config.id@.len() as int;
    let low = (nanos % 65536) as u16;
    lemma_hex4_value(low);
    assert(r.client_id@.take(n) =~= config.id@);
}

/// A node that comes up says that it is online, retained on its status topic, and
/// then announces every metric, retained on the topic of that metric, if Home
/// Assistant is wanted. After a failure it only waits, for five seconds. Anything
/// else, and being accepted once more, is answered by nothing.
pub proof fn law_a_node_says_that_it_has_come_up(
    node: Connection,
    event: ConnectionEvent,
    actions: Seq<ConnectionAction>,
    k: int,
)
    requires
        node.answers(event, actions),
    ensures
        event is Accepted && !node.connected ==> {
            &&& actions.len() == (if node.home_assistant {
                15int
            } else {
                1int
            })
            &&& actions[0] matches ConnectionAction::Publish(m) && {
                &&& m.topic@ == node.node_id@ + "/status"@
                &&& m.qos == QoS::AtLeastOnce
                &&& m.retain
                &&& m.payload@ == encode_utf8("online"@)
            }
            &&& 0 < k < actions.len() ==> (actions[k] matches ConnectionAction::Announce {
                topic,
                qos,
                retain,
                config,
            } && {
                &&& topic@ == "homeassistant/sensor/"@ + node.node_id@ + "/"@ + metric_table()[k
                    - 1].object_id@ + "/config"@
                &&& qos == QoS::AtLeastOnce
                &&& retain
                &&& config.unique_id@ == "wattseal_"@ + node.node_id@ + "_"@ + metric_table()[k
                    - 1].object_id@
                &&& config.device@ == node.device()
            })
        },
        event is Failed ==> actions.len() == 1 && actions[0] == ConnectionAction::Wait(5),
        event is Accepted && node.connected ==> actions.len() == 0,
        event is Other ==> actions.len() == 0,
{
    if event is Accepted && !node.connected && 0 < k < actions.len() {
        assert(node.announces(actions[(k - 1) + 1], k - 1));
    }
}

/// A connection is up once it is accepted and down once it has failed; nothing
/// else changes that.
pub proof fn law_a_connection_is_up_from_acceptance_to_failure(connected: bool, event: ConnectionEvent)
    ensures
        event is Accepted ==> connected_after(connected, event),
        event is Failed ==> !connected_after(connected, event),
        event is Other ==> connected_after(connected, event) == connected,
        comes_up(connected, event) <==> !connected && event is Accepted,
{
}

/// The device that a node announces goes by the host name of its hardware, or by
/// the node itself where that is empty or nothing is known of the hardware; its
/// model is the system and the processor.
pub proof fn law_the_announced_device_is_the_node(node: Connection)
    ensures
        node.device().identifiers.len() == 1,
        node.device().identifiers[0] == "wattseal_"@ + node.node_id@,
        node.hardware matches Some(h) ==> {
            &&& node.device().model == h.system.os@ + " / "@ + h.cpu.name@
            &&& h.system.hostname@.len() > 0 ==> node.device().name == h.system.hostname@
            &&& h.system.hostname@.len() == 0 ==> node.device().name == node.node_id@
        },
        node.hardware is None ==> {
            &&& node.device().model == "System"@ + " / "@ + "CPU"@
            &&& node.device().name == node.node_id@
        },
{
}

/// A connection starts down, for the node that is configured.
pub proof fn law_connections_start_down(
    config: MqttConfig,
    hardware: Option<HardwareInfo>,
    r: Connection,
)
    requires
        call_ensures(Connection::new, (&config, hardware), r),
    ensures
        !r.connected,
        r.node_id == config.id,
        r.home_assistant == config.home_assistant,
        r.hardware == hardware,
{
}

/// Taking note of an event: the connection is up once accepted and down once
/// failed, the node stays the same, and only a node that was down and is accepted
/// says that it is online.
pub proof fn law_events_are_answered(
    node: &mut Connection,
    event: ConnectionEvent,
    r: Vec<ConnectionAction>,
)
    requires
        call_ensures(Connection::on_event, (node, event), r),
    ensures
        final(node).node_id == old(node).node_id,
        final(node).home_assistant == old(node).home_assistant,
        final(node).hardware == old(node).hardware,
        event is Accepted ==> final(node).connected,
        event is Failed ==> !final(node).connected,
        event is Other ==> final(node).connected == old(node).connected,
        r@.len() > 0 && r@[0] is Publish <==> !old(node).connected && event is Accepted,
        r@.len() > 0 && r@[0] is Wait <==> event is Failed,
        event is Failed ==> r@.len() == 1 && r@[0] == ConnectionAction::Wait(5),
        event is Accepted && !old(node).connected ==> r@.len() == (if old(node).home_assistant {
            15int
        } else {
            1int
        }),
{
}

} // verus!
