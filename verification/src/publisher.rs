//! Publishing to an MQTT broker.

use crate::discovery::OFFLINE;
use crate::envelope::{envelope_head, framed, null_json, Envelope};
use crate::text::{decimal, signed_decimal, utf8};
use crate::topics::{availability_topic, status_topic};
use vstd::prelude::*;
use vstd::utf8::*;

verus! {

/// The error of `serde_json`, carried through.
#[verifier::external_type_specification]
#[verifier::external_body]
pub struct ExJsonError(serde_json::Error);

/// How hard a message is delivered.
#[derive(Clone, Copy, Debug, PartialEq, Eq, Structural)]
pub enum QoS {
    AtMostOnce,
    AtLeastOnce,
    ExactlyOnce,
}

/// Why a message was not published.
#[derive(Debug)]
pub enum MQTTError {
    SerializationError(serde_json::Error),
    PublishError,
}

impl From<serde_json::Error> for MQTTError {
    fn from(e: serde_json::Error) -> (r: MQTTError) {
        MQTTError::SerializationError(e)
    }
}

impl vstd::std_specs::convert::FromSpecImpl<serde_json::Error> for MQTTError {
    open spec fn obeys_from_spec() -> bool {
        true
    }

    open spec fn from_spec(e: serde_json::Error) -> MQTTError {
        MQTTError::SerializationError(e)
    }
}

/// Makes an error with the given message, by `serde::ser::Error::custom` of
/// `serde_json::Error`. The error cannot be looked into, so nothing is claimed
/// of it.
#[verifier::external_body]
fn serialization_error(message: &str) -> (r: serde_json::Error) {
    serde::ser::Error::custom(message)
}

/// The connection that messages leave through.
pub trait MQTTClient {
    /// Non-blocking publish of `payload` to the MQTT topic
    fn try_publish_bytes(&self, topic: &str, qos: QoS, retain: bool, payload: Vec<u8>) -> (r: Result<
        (),
        MQTTError,
    >);
}

/// The client was given this message, and answered `r`.
pub open spec fn handed_over<T: MQTTClient>(
    client: T,
    topic: Seq<char>,
    qos: QoS,
    retain: bool,
    payload: Seq<u8>,
    r: Result<(), MQTTError>,
) -> bool {
    exists|t: &str, p: Vec<u8>|
        t@ == topic && p@ == payload && #[trigger] call_ensures(
            T::try_publish_bytes,
            (&client, t, qos, retain, p),
            r,
        )
}

/// Publishes through a client.
pub struct MQTTPublisher<T: MQTTClient> {
    client: T,
}

impl<T: MQTTClient> MQTTPublisher<T> {
    /// The client that messages leave through.
    pub closed spec fn client(&self) -> T {
        self.client
    }

    /// Create a new MQTT publisher from a client implementation
    pub fn new(client: T) -> (r: MQTTPublisher<T>)
        ensures
            r.client() == client,
    {
        MQTTPublisher { client }
    }

    /// Hands a message to the client. How often the client is called is left
    /// unsaid: a call leaves no trace in a client that is only borrowed.
    fn send(&self, topic: &str, retain: bool, payload: Vec<u8>) -> (r: Result<(), MQTTError>)
        ensures
            handed_over(self.client(), topic@, QoS::AtLeastOnce, retain, payload@, r),
    {
        let ghost p = payload;
        let r = self.client.try_publish_bytes(topic, QoS::AtLeastOnce, retain, payload);
        assert(call_ensures(
            T::try_publish_bytes,
            (&self.client(), topic, QoS::AtLeastOnce, retain, p),
            r,
        ));
        r
    }

    /// Non-blocking publish to `topic` of what serialization gave: the bytes,
    /// or the error that kept them from being made
    pub fn publish(&self, topic: &str, payload: Result<Vec<u8>, serde_json::Error>) -> (r: Result<
        (),
        MQTTError,
    >)
        ensures
            match payload {
                Ok(p) => handed_over(self.client(), topic@, QoS::AtLeastOnce, false, p@, r),
                Err(e) => r == Err::<(), MQTTError>(MQTTError::SerializationError(e)),
            },
    {
        match payload {
            Ok(p) => self.send(topic, false, p),
            Err(e) => Err(MQTTError::from(e)),
        }
    }

    /// Retained non-blocking publish to `topic` of what serialization gave
    pub fn publish_retained(&self, topic: &str, payload: Result<Vec<u8>, serde_json::Error>) -> (r:
        Result<(), MQTTError>)
        ensures
            match payload {
                Ok(p) => handed_over(self.client(), topic@, QoS::AtLeastOnce, true, p@, r),
                Err(e) => r == Err::<(), MQTTError>(MQTTError::SerializationError(e)),
            },
    {
        match payload {
            Ok(p) => self.send(topic, true, p),
            Err(e) => Err(MQTTError::from(e)),
        }
    }

    /// Publish a reading wrapped in a timestamped [`Envelope`]. `data` is the
    /// members of the reading as one JSON object, in compact form, or `null`
    /// for a reading that has none, or the error that kept them from being
    /// made. Anything else is a serialization error too, and nothing is
    /// published.
    pub fn publish_envelope(
        &self,
        topic: &str,
        data: Result<Vec<u8>, serde_json::Error>,
        timestamp_ms: i64,
        total_energy_uj: Option<u64>,
    ) -> (r: Result<(), MQTTError>)
        ensures
            envelope_sent(self.client(), topic@, data, timestamp_ms, total_energy_uj, r),
    {
        match data {
            Ok(bytes) => {
                let envelope = Envelope { timestamp_ms, total_energy_uj, data: &bytes };
                match envelope.to_json() {
                    Some(payload) => self.send(topic, false, payload),
                    None => Err(
                        MQTTError::from(serialization_error("can only flatten structs and maps")),
                    ),
                }
            },
            Err(e) => Err(MQTTError::from(e)),
        }
    }

    /// Signal graceful offline status
    pub fn publish_offline(&self, node_id: &str) -> (r: Result<(), MQTTError>)
        ensures
            handed_over(
                self.client(),
                availability_topic(node_id@),
                QoS::AtLeastOnce,
                true,
                encode_utf8(OFFLINE@),
                r,
            ),
    {
        let topic = status_topic(node_id);
        self.send(topic.as_str(), true, utf8(OFFLINE))
    }
}

/// The reading left in its envelope, or the error that kept it.
pub open spec fn envelope_sent<T: MQTTClient>(
    client: T,
    topic: Seq<char>,
    data: Result<Vec<u8>, serde_json::Error>,
    timestamp_ms: i64,
    total_energy_uj: Option<u64>,
    r: Result<(), MQTTError>,
) -> bool {
    match data {
        Ok(bytes) => match framed(timestamp_ms, total_energy_uj, bytes@) {
            Some(payload) => handed_over(client, topic, QoS::AtLeastOnce, false, payload, r),
            None => r matches Err(MQTTError::SerializationError(_)),
        },
        Err(e) => r == Err::<(), MQTTError>(MQTTError::SerializationError(e)),
    }
}

/// What is published reaches the client on the topic that was named, delivered at
/// least once, with the bytes that serialization gave, and is retained only where
/// that is asked for. The answer is the client's. Where serialization failed, its
/// error comes back instead.
pub proof fn law_messages_reach_the_client<T: MQTTClient>(
    publisher: MQTTPublisher<T>,
    topic: &str,
    payload: Result<Vec<u8>, serde_json::Error>,
    plain: Result<(), MQTTError>,
    retained: Result<(), MQTTError>,
)
    requires
        call_ensures(MQTTPublisher::<T>::publish, (&publisher, topic, payload), plain),
        call_ensures(MQTTPublisher::<T>::publish_retained, (&publisher, topic, payload), retained),
    ensures
        payload matches Ok(bytes) ==> {
            &&& exists|t: &str, p: Vec<u8>|
                t@ == topic@ && p@ == bytes@ && #[trigger] call_ensures(
                    T::try_publish_bytes,
                    (&publisher.client(), t, QoS::AtLeastOnce, false, p),
                    plain,
                )
            &&& exists|t: &str, p: Vec<u8>|
                t@ == topic@ && p@ == bytes@ && #[trigger] call_ensures(
                    T::try_publish_bytes,
                    (&publisher.client(), t, QoS::AtLeastOnce, true, p),
                    retained,
                )
        },
        payload matches Err(e) ==> {
            &&& plain matches Err(MQTTError::SerializationError(f)) && f == e
            &&& retained matches Err(MQTTError::SerializationError(f)) && f == e
        },
{
}

/// A node that goes says `offline`, retained on its status topic.
pub proof fn law_a_node_that_goes_says_so<T: MQTTClient>(
    publisher: MQTTPublisher<T>,
    node_id: &str,
    r: Result<(), MQTTError>,
)
    requires
        call_ensures(MQTTPublisher::<T>::publish_offline, (&publisher, node_id), r),
    ensures
        exists|t: &str, p: Vec<u8>|
            t@ == node_id@ + "/status"@ && p@ == encode_utf8("offline"@) && #[trigger] call_ensures(
                T::try_publish_bytes,
                (&publisher.client(), t, QoS::AtLeastOnce, true, p),
                r,
            ),
{
}

/// A reading leaves in an envelope, not retained: an object that starts with the
/// time, then the total if there is one, and holds the members as they stood, if
/// there are any. What is neither an object nor `null` is a serialization error.
pub proof fn law_readings_leave_in_an_envelope<T: MQTTClient>(
    publisher: MQTTPublisher<T>,
    topic: &str,
    data: Result<Vec<u8>, serde_json::Error>,
    timestamp_ms: i64,
    total_energy_uj: Option<u64>,
    r: Result<(), MQTTError>,
)
    requires
        call_ensures(
            MQTTPublisher::<T>::publish_envelope,
            (&publisher, topic, data, timestamp_ms, total_energy_uj),
            r,
        ),
    ensures
        data matches Err(e) ==> (r matches Err(MQTTError::SerializationError(f)) && f == e),
        data matches Ok(bytes) ==> {
            let n = bytes@.len() as int;
            let time = "{\"timestamp_ms\":"@ + signed_decimal(timestamp_ms as int);
            let head = match total_energy_uj {
                Some(total) => time + ",\"total_energy_uj\":"@ + decimal(total as nat),
                None => time,
            };
            let object = n >= 2 && bytes@[0] == 0x7b && bytes@[n - 1] == 0x7d;
            let null = bytes@ == seq![0x6eu8, 0x75u8, 0x6cu8, 0x6cu8];
            let payload = if object && n > 2 {
                encode_utf8(head) + seq![0x2cu8] + bytes@.subrange(1, n - 1) + seq![0x7du8]
            } else {
                encode_utf8(head) + seq![0x7du8]
            };
            &&& object || null ==> exists|t: &str, p: Vec<u8>|
                {
                    &&& t@ == topic@
                    &&& p@ == payload
                    &&& #[trigger] call_ensures(
                        T::try_publish_bytes,
                        (&publisher.client(), t, QoS::AtLeastOnce, false, p),
                        r,
                    )
                }
            &&& !object && !null ==> r matches Err(MQTTError::SerializationError(_))
        },
{
    if let Ok(bytes) = data {
        let n = bytes@.len() as int;
        let object = n >= 2 && bytes@[0] == 0x7b && bytes@[n - 1] == 0x7d;
        if object || bytes@ == null_json() {
            let head = encode_utf8(envelope_head(timestamp_ms, total_energy_uj));
            assert(object ==> bytes@[0] != null_json()[0]);
            let whole = framed(timestamp_ms, total_energy_uj, bytes@)->0;
            if object && n > 2 {
                assert(whole =~= head + seq![0x2cu8] + bytes@.subrange(1, n - 1) + seq![0x7du8]);
            } else {
                assert(head + Seq::<u8>::empty() == head);
                assert(whole =~= head + seq![0x7du8]);
            }
        }
    }
}

} // verus!
