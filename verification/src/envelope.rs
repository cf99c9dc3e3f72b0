//! The envelope in which a reading travels: a JSON object with the time, the
//! running total if there is one, and the members of the reading itself.

use crate::text::{concat2, decimal, decimal_text, signed_decimal, signed_decimal_text, utf8};
use vstd::prelude::*;
use vstd::string::*;
use vstd::utf8::*;

verus! {

/// A reading with its time. `data` is the members of the reading as one JSON
/// object, in compact form, or `null` for a reading that has none: a unit or a
/// missing value.
#[derive(Debug)]
pub struct Envelope<'a> {
    pub timestamp_ms: i64,
    pub total_energy_uj: Option<u64>,
    pub data: &'a Vec<u8>,
}

/// The bytes of `null`.
pub open spec fn null_json() -> Seq<u8> {
    seq![0x6eu8, 0x75u8, 0x6cu8, 0x6cu8]
}

/// The envelope up to the members of the reading.
pub open spec fn envelope_head(timestamp_ms: i64, total_energy_uj: Option<u64>) -> Seq<char> {
    let time = "{\"timestamp_ms\":"@ + signed_decimal(timestamp_ms as int);
    match total_energy_uj {
        Some(total) => time + ",\"total_energy_uj\":"@ + decimal(total as nat),
        None => time,
    }
}

/// The members of a JSON object, without its braces; `null` has none, and
/// anything else cannot be taken apart into members.
pub open spec fn members(data: Seq<u8>) -> Option<Seq<u8>> {
    if data == null_json() {
        Some(Seq::empty())
    } else if data.len() >= 2 && data[0] == 0x7b && data[data.len() - 1] == 0x7d {
        Some(data.subrange(1, data.len() - 1))
    } else {
        None
    }
}

/// Members behind others: with a comma before them, if there are any.
pub open spec fn following(members: Seq<u8>) -> Seq<u8> {
    if members.len() == 0 {
        Seq::empty()
    } else {
        seq![0x2cu8] + members
    }
}

/// The bytes of an envelope.
pub open spec fn framed(
    timestamp_ms: i64,
    total_energy_uj: Option<u64>,
    data: Seq<u8>,
) -> Option<Seq<u8>> {
    match members(data) {
        Some(m) => Some(
            encode_utf8(envelope_head(timestamp_ms, total_energy_uj)) + following(m) + seq![0x7du8],
        ),
        None => None,
    }
}

fn is_null(data: &Vec<u8>) -> (r: bool)
    ensures
        r == (data@ == null_json()),
{
    let r = data.len() == 4 && data[0] == 0x6e && data[1] == 0x75 && data[2] == 0x6c && data[3] == 0x6c;
    assert(r ==> data@ =~= null_json());
    r
}

impl<'a> Envelope<'a> {
    /// The envelope in JSON, or nothing if `data` is neither an object nor
    /// `null`.
    pub fn to_json(&self) -> (r: Option<Vec<u8>>)
        ensures
            match framed(self.timestamp_ms, self.total_energy_uj, self.data@) {
                Some(bytes) => r matches Some(v) && v@ == bytes,
                None => r is None,
            },
    {
        let n: usize = self.data.len();
        let null = is_null(self.data);
        if !null && (n < 2 || self.data[0] != 0x7b || self.data[n - 1] != 0x7d) {
            return None;
        }
        let time = signed_decimal_text(self.timestamp_ms);
        let mut head = concat2("{\"timestamp_ms\":", time.as_str());
        if let Some(total) = self.total_energy_uj {
            head.append(",\"total_energy_uj\":");
            let digits = decimal_text(total);
            head.append(digits.as_str());
        }
        let mut bytes = utf8(head.as_str());
        let ghost start = bytes@;
        if !null && n > 2 {
            bytes.push(0x2c);
            let mut i: usize = 1;
            while i < n - 1
                invariant
                    n == self.data@.len(),
                    1 <= i <= n - 1,
                    bytes@ == start + (seq![0x2cu8] + self.data@.subrange(1, i as int)),
                decreases n - i,
            {
                bytes.push(self.data[i]);
                i += 1;
                assert(bytes@ =~= start + (seq![0x2cu8] + self.data@.subrange(1, i as int)));
            }
        }
        let ghost whole = framed(self.timestamp_ms, self.total_energy_uj, self.data@);
        bytes.push(0x7d);
        assert(bytes@ =~= whole->0);
        Some(bytes)
    }
}

/// A reading in an envelope gives an object: the time and the total
/// come first, and then every member of the reading as it stood.
pub proof fn law_envelope_keeps_the_members(
    timestamp_ms: i64,
    total_energy_uj: Option<u64>,
    data: Seq<u8>,
)
    requires
        members(data) is Some,
    ensures
        framed(timestamp_ms, total_energy_uj, data) is Some,
        members(framed(timestamp_ms, total_energy_uj, data)->0) == Some(
            encode_utf8(envelope_head(timestamp_ms, total_energy_uj)).skip(1) + following(
                members(data)->0,
            ),
        ),
{
    let head = envelope_head(timestamp_ms, total_energy_uj);
    let bytes = framed(timestamp_ms, total_energy_uj, data)->0;
    lemma_head_starts_an_object(timestamp_ms, total_energy_uj);
    let start = encode_utf8(head);
    assert(bytes[0] == 0x7b);
    assert(bytes[bytes.len() - 1] == 0x7d);
    assert(bytes.subrange(1, bytes.len() - 1) =~= start.skip(1) + following(members(data)->0));
}

proof fn lemma_head_starts_an_object(timestamp_ms: i64, total_energy_uj: Option<u64>)
    ensures
        encode_utf8(envelope_head(timestamp_ms, total_energy_uj)).len() >= 2,
        encode_utf8(envelope_head(timestamp_ms, total_energy_uj))[0] == 0x7b,
{
    reveal_strlit("{\"timestamp_ms\":");
    reveal_strlit(",\"total_energy_uj\":");
    let head = envelope_head(timestamp_ms, total_energy_uj);
    lemma_decimal_is_ascii(timestamp_ms as int);
    if let Some(total) = total_energy_uj {
        lemma_decimal_is_ascii(total as int);
    }
    assert(is_ascii_chars(head));
    is_ascii_chars_encode_utf8(head);
    assert(head[0] == '{');
}

proof fn lemma_decimal_is_ascii(n: int)
    ensures
        is_ascii_chars(signed_decimal(n)),
        n >= 0 ==> is_ascii_chars(decimal(n as nat)),
{
    lemma_digits_are_ascii(if n < 0 { (-n) as nat } else { n as nat });
}

proof fn lemma_digits_are_ascii(n: nat)
    ensures
        is_ascii_chars(decimal(n)),
    decreases n,
{
    if n >= 10 {
        lemma_digits_are_ascii(n / 10);
    }
}

/// A reading without members gives an envelope of the time and the total alone,
/// whether it comes as `null` or as an empty object.
pub proof fn law_nothing_is_added_for_no_members(timestamp_ms: i64, total_energy_uj: Option<u64>)
    ensures
        framed(timestamp_ms, total_energy_uj, null_json()) == Some(
            encode_utf8(envelope_head(timestamp_ms, total_energy_uj)) + seq![0x7du8],
        ),
        framed(timestamp_ms, total_energy_uj, seq![0x7bu8, 0x7du8]) == framed(
            timestamp_ms,
            total_energy_uj,
            null_json(),
        ),
{
    let head = encode_utf8(envelope_head(timestamp_ms, total_energy_uj));
    let braces = seq![0x7bu8, 0x7du8];
    assert(head + Seq::<u8>::empty() == head);
    assert(braces.len() != null_json().len());
    assert(braces.subrange(1, 1) == Seq::<u8>::empty());
}

/// The bytes of an envelope. Those of an object have an opening brace, the time
/// under its key, the total under its key if there is one, a comma and the
/// members as they stood if there are any, and a closing brace. Those of `null`
/// are the same without members, and nothing else has an envelope.
pub proof fn law_an_envelope_is_the_head_and_the_members(
    timestamp_ms: i64,
    total_energy_uj: Option<u64>,
    data: Vec<u8>,
    r: Option<Vec<u8>>,
)
    requires
        call_ensures(Envelope::to_json, (&(Envelope { timestamp_ms, total_energy_uj, data: &data }),), r),
    ensures
        ({
            let n = data@.len() as int;
            let object = n >= 2 && data@[0] == 0x7b && data@[n - 1] == 0x7d;
            let null = data@ == seq![0x6eu8, 0x75u8, 0x6cu8, 0x6cu8];
            let time = "{\"timestamp_ms\":"@ + signed_decimal(timestamp_ms as int);
            let head = encode_utf8(
                match total_energy_uj {
                    Some(total) => time + ",\"total_energy_uj\":"@ + decimal(total as nat),
                    None => time,
                },
            );
            &&& r is Some <==> object || null
            &&& object && n > 2 ==> r->0@ == head + seq![0x2cu8] + data@.subrange(1, n - 1) + seq![0x7du8]
            &&& object && n == 2 || null ==> r->0@ == head + seq![0x7du8]
        }),
{
    let n = data@.len() as int;
    let object = n >= 2 && data@[0] == 0x7b && data@[n - 1] == 0x7d;
    let null = data@ == null_json();
    let head = encode_utf8(envelope_head(timestamp_ms, total_energy_uj));
    if object && n > 2 {
        assert(data@[0] != null_json()[0]);
        assert(r->0@ =~= head + seq![0x2cu8] + data@.subrange(1, n - 1) + seq![0x7du8]);
    } else if object || null {
        assert(object ==> data@[0] != null_json()[0]);
        assert(head + Seq::<u8>::empty() == head);
    }
}

} // verus!
