//! The MQTT topics.

use crate::text::{concat2, concat3, lowercase, to_lowercase};
use vstd::prelude::*;
use vstd::string::*;

verus! {

/// `<id>/sensor_data/<name>`
pub open spec fn sensor_data_topic(id: Seq<char>, name: Seq<char>) -> Seq<char> {
    id + "/sensor_data/"@ + name
}

/// `<id>/hardware_info`
pub open spec fn hardware_topic(id: Seq<char>) -> Seq<char> {
    id + "/hardware_info"@
}

/// `<id>/status`
pub open spec fn availability_topic(id: Seq<char>) -> Seq<char> {
    id + "/status"@
}

/// `homeassistant/sensor/<id>/<object>/config`
pub open spec fn discovery_topic(id: Seq<char>, object: Seq<char>) -> Seq<char> {
    "homeassistant/sensor/"@ + id + "/"@ + object + "/config"@
}

/// The topic on which a node publishes the readings of one sensor type.
///
/// The type's name is put in lower case; of an ASCII name that is plain.
pub fn sensor_type_to_topic(id: &str, sensor_type: &str) -> (r: String)
    ensures
        r@ == sensor_data_topic(id@, lowercase(sensor_type@)),
        sensor_type.is_ascii() ==> r@ == sensor_data_topic(
            id@,
            sensor_type@.map_values(|c: char| crate::text::ascii_lower(c)),
        ),
{
    let name = to_lowercase(sensor_type);
    concat3(id, "/sensor_data/", name.as_str())
}

/// The topic of a node's hardware description.
pub fn hardware_info_topic(id: &str) -> (r: String)
    ensures
        r@ == hardware_topic(id@),
{
    concat2(id, "/hardware_info")
}

/// The topic on which a node is announced online or offline.
pub fn status_topic(id: &str) -> (r: String)
    ensures
        r@ == availability_topic(id@),
{
    concat2(id, "/status")
}

/// The topic of a Home Assistant discovery message.
pub fn ha_discovery_topic(base_id: &str, object_id: &str) -> (r: String)
    ensures
        r@ == discovery_topic(base_id@, object_id@),
{
    let mut r = concat3("homeassistant/sensor/", base_id, "/");
    r.append(object_id);
    r.append("/config");
    r
}

/// Two objects of one node never share a discovery topic.
pub proof fn law_discovery_topic_is_injective(id: Seq<char>, a: Seq<char>, b: Seq<char>)
    requires
        discovery_topic(id, a) == discovery_topic(id, b),
    ensures
        a == b,
{
    let head = "homeassistant/sensor/"@ + id + "/"@;
    let tail = "/config"@;
    let ta = head + a + tail;
    let tb = head + b + tail;
    assert(ta == tb);
    assert(a.len() == b.len());
    assert forall|i: int| 0 <= i < a.len() implies a[i] == b[i] by {
        assert(ta[head.len() + i] == a[i]);
        assert(tb[head.len() + i] == b[i]);
    }
    assert(a =~= b);
}

/// Where a mark parts two texts, they are the same text only with the same
/// parts, unless the longer last part holds the mark and ends in the other.
pub(crate) proof fn lemma_parted(x: Seq<char>, a: Seq<char>, y: Seq<char>, b: Seq<char>, mark: char)
    requires
        x.push(mark) + a == y.push(mark) + b,
        a.len() >= b.len(),
        a.len() > b.len() ==> !(a[a.len() - b.len() - 1] == mark && a.skip(a.len() - b.len()) == b),
    ensures
        x == y,
        a == b,
{
    let t = x.push(mark) + a;
    let u = y.push(mark) + b;
    let d = a.len() - b.len();
    assert(t.len() == x.len() + 1 + a.len());
    assert(u.len() == y.len() + 1 + b.len());
    assert(t.len() == u.len());
    assert(y.len() == x.len() + d);
    assert(a.skip(d) =~= b) by {
        assert forall|i: int| 0 <= i < b.len() implies a.skip(d)[i] == b[i] by {
            assert(t[x.len() + 1 + d + i] == a[d + i]);
            assert(u[y.len() + 1 + i] == b[i]);
        }
    }
    if d > 0 {
        assert(t[y.len() as int] == a[d - 1]);
        assert(u[y.len() as int] == mark);
    }
    assert(a.skip(0) == a);
    assert(x =~= y) by {
        assert forall|i: int| 0 <= i < x.len() implies x[i] == y[i] by {
            assert(t[i] == x[i]);
            assert(u[i] == y[i]);
        }
    }
}

/// Two nodes never share a discovery topic, whatever their objects, as long as
/// no object's name holds a slash.
pub proof fn law_discovery_topics_tell_nodes_apart(
    id: Seq<char>,
    a: Seq<char>,
    other: Seq<char>,
    b: Seq<char>,
)
    requires
        !a.contains('/'),
        !b.contains('/'),
        discovery_topic(id, a) == discovery_topic(other, b),
    ensures
        id == other,
        a == b,
    decreases b.len(),
{
    reveal_strlit("/");
    if a.len() < b.len() {
        law_discovery_topics_tell_nodes_apart(other, b, id, a);
    } else {
        let head = "homeassistant/sensor/"@;
        let tail = "/config"@;
        let t = discovery_topic(id, a);
        let u = discovery_topic(other, b);
        let n = t.len() - tail.len();
        assert(t.subrange(head.len() as int, n) =~= id.push('/') + a);
        assert(u.subrange(head.len() as int, n) =~= other.push('/') + b);
        if a.len() > b.len() {
            assert(a.contains(a[a.len() - b.len() - 1]));
        }
        lemma_parted(id, a, other, b, '/');
    }
}

/// Two nodes never share a status topic.
pub proof fn law_status_topic_is_injective(a: Seq<char>, b: Seq<char>)
    requires
        availability_topic(a) == availability_topic(b),
    ensures
        a == b,
{
    let ta = availability_topic(a);
    let tb = availability_topic(b);
    assert(ta.len() == a.len() + "/status"@.len());
    assert(tb.len() == b.len() + "/status"@.len());
    assert forall|i: int| 0 <= i < a.len() implies a[i] == b[i] by {
        assert(ta[i] == a[i]);
        assert(tb[i] == b[i]);
    }
    assert(a =~= b);
}

/// Every topic starts with the node that it is about, but for those of Home
/// Assistant, and is spelled out in full.
pub proof fn law_topics_are_spelled_out(
    id: &str,
    sensor_type: &str,
    object: &str,
    readings: String,
    hardware: String,
    status: String,
    discovery: String,
)
    requires
        call_ensures(sensor_type_to_topic, (id, sensor_type), readings),
        call_ensures(hardware_info_topic, (id,), hardware),
        call_ensures(status_topic, (id,), status),
        call_ensures(ha_discovery_topic, (id, object), discovery),
    ensures
        readings@ == id@ + "/sensor_data/"@ + lowercase(sensor_type@),
        hardware@ == id@ + "/hardware_info"@,
        status@ == id@ + "/status"@,
        discovery@ == "homeassistant/sensor/"@ + id@ + "/"@ + object@ + "/config"@,
        sensor_data_topic(id@, object@) == id@ + "/sensor_data/"@ + object@,
        hardware_topic(id@) == id@ + "/hardware_info"@,
        availability_topic(id@) == id@ + "/status"@,
        discovery_topic(id@, object@) == discovery@,
{
}

/// The topic of an ASCII sensor type holds it letter by letter, capitals in
/// lower case.
pub proof fn law_topics_are_in_lower_case(id: &str, sensor_type: &str, r: String, i: int)
    requires
        call_ensures(sensor_type_to_topic, (id, sensor_type), r),
        sensor_type.is_ascii(),
        0 <= i < sensor_type@.len(),
    ensures
        ({
            let head = id@ + "/sensor_data/"@;
            let c = sensor_type@[i];
            &&& r@.len() == head.len() + sensor_type@.len()
            &&& r@.take(head.len() as int) == head
            &&& 'A' <= c <= 'Z' ==> r@[head.len() + i] as int == c as int + 32
            &&& !('A' <= c <= 'Z') ==> r@[head.len() + i] == c
        }),
{
    let head = id@ + "/sensor_data/"@;
    assert(r@.take(head.len() as int) =~= head);
}

} // verus!
