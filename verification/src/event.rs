//! Data events of the SSE stream.
//!
//! A completed line is significant only when, after stripping surrounding
//! whitespace, it starts with the `data: ` field prefix; the rest of the
//! line is the event payload. A payload is kept only when it parses as
//! JSON; its `type` and `id` string fields feed the deduplicator. Lines
//! that fail either step are protocol noise and are dropped silently.

use vstd::prelude::*;
use crate::ascii::{ascii_seq, dec_rep, has_prefix, lit, opt_bytes, push_all, sub_vec, trim, trim_bytes};

verus! {

/// What the JSON payload gives the deduplicator, when the payload is
/// valid JSON: the `type` field (empty when absent or not a string) and
/// the `id` field (absent when missing or not a string). `None` when the
/// payload is not valid JSON.
pub uninterp spec fn event_fields_of(payload: Seq<u8>) -> Option<(Seq<u8>, Option<Seq<u8>>)>;

/// The plain-value view of an extracted field pair.
pub open spec fn fields_view(r: Option<(Vec<u8>, Option<Vec<u8>>)>) -> Option<
    (Seq<u8>, Option<Seq<u8>>),
> {
    match r {
        None => None,
        Some(p) => Some((p.0@, opt_bytes(p.1))),
    }
}

/// Relies on serde_json — `from_slice::<Value>`, `Value::get` and
/// `Value::as_str` — for whether the payload is valid JSON and what its
/// `type` and `id` string fields hold; all three are functions of the
/// payload bytes alone.
#[verifier::external_body]
fn parse_event_fields(payload: &Vec<u8>) -> (r: Option<(Vec<u8>, Option<Vec<u8>>)>)
    ensures
        fields_view(r) == event_fields_of(payload@),
{
    let v: serde_json::Value = match serde_json::from_slice(payload.as_slice()) {
        Ok(v) => v,
        Err(_) => return None,
    };
    let kind = v.get("type").and_then(|t| t.as_str()).unwrap_or("").as_bytes().to_vec();
    let id = v.get("id").and_then(|t| t.as_str()).map(|s| s.as_bytes().to_vec());
    Some((kind, id))
}

/// The SSE field prefix that marks a data payload line.
pub open spec fn data_prefix() -> Seq<u8> {
    ascii_seq("data: "@)
}

/// The payload of a line: the bytes after `data: ` on the trimmed line,
/// or nothing when the line does not carry that prefix.
pub open spec fn line_payload(line: Seq<u8>) -> Option<Seq<u8>> {
    let t = trim_bytes(line);
    if data_prefix().is_prefix_of(t) {
        Some(t.skip(data_prefix().len() as int))
    } else {
        None
    }
}

/// Strips whitespace and the `data: ` prefix from a completed line.
pub fn extract_payload(line: &Vec<u8>) -> (r: Option<Vec<u8>>)
    ensures
        match r {
            Some(p) => line_payload(line@) == Some(p@),
            None => line_payload(line@) is None,
        },
{
    let t = trim(line);
    proof {
        reveal_strlit("data: ");
    }
    let p = lit("data: ");
    if has_prefix(&t, &p) {
        Some(sub_vec(&t, p.len(), t.len()))
    } else {
        None
    }
}

/// One parsed data event, as the specifications see it.
pub struct EventModel {
    /// The JSON text of the event, as it stood on the line.
    pub payload: Seq<u8>,
    /// The event's `type` tag; empty when the JSON carries none.
    pub kind: Seq<u8>,
    /// The event's explicit `id`, when the JSON carries one.
    pub explicit: Option<Seq<u8>>,
}

/// One parsed data event.
pub struct Event {
    /// The JSON text of the event, as it stood on the line.
    pub payload: Vec<u8>,
    /// The event's `type` tag; empty when the JSON carries none.
    pub kind: Vec<u8>,
    /// The event's explicit `id`, when the JSON carries one.
    pub explicit: Option<Vec<u8>>,
}

impl View for Event {
    type V = EventModel;

    open spec fn view(&self) -> EventModel {
        EventModel { payload: self.payload@, kind: self.kind@, explicit: opt_bytes(self.explicit) }
    }
}

/// The data event a completed line carries, if any: the line must bear
/// the `data: ` prefix and its payload must parse as JSON.
pub open spec fn event_of_line(line: Seq<u8>) -> Option<EventModel> {
    match line_payload(line) {
        None => None,
        Some(p) => match event_fields_of(p) {
            None => None,
            Some(f) => Some(EventModel { payload: p, kind: f.0, explicit: f.1 }),
        },
    }
}

/// Parses one completed line into its data event, dropping noise.
pub fn parse_line(line: &Vec<u8>) -> (r: Option<Event>)
    ensures
        match r {
            Some(e) => event_of_line(line@) == Some(e@),
            None => event_of_line(line@) is None,
        },
{
    match extract_payload(line) {
        None => None,
        Some(payload) => match parse_event_fields(&payload) {
            None => None,
            Some(f) => {
                let e = Event { payload, kind: f.0, explicit: f.1 };
                proof {
                    assert(line_payload(line@) == Some(e@.payload));
                    assert(event_fields_of(e@.payload) == Some((e@.kind, e@.explicit)));
                    assert(event_of_line(line@) == Some(e@));
                }
                Some(e)
            },
        },
    }
}

/// The dedup identity of an event: its explicit id when the upstream sent
/// one, else `<prefix><kind>-<session id>-<ordinal>`, which cannot repeat
/// within a session because the ordinal grows with every parsed event.
pub open spec fn spec_identity(
    prefix: Seq<u8>,
    sid: Seq<u8>,
    kind: Seq<u8>,
    explicit: Option<Seq<u8>>,
    ordinal: nat,
) -> Seq<u8> {
    match explicit {
        Some(id) => id,
        None => prefix + kind + ascii_seq("-"@) + sid + ascii_seq("-"@) + dec_rep(ordinal),
    }
}

/// Copies a byte vector.
pub fn clone_bytes(v: &Vec<u8>) -> (r: Vec<u8>)
    ensures
        r@ == v@,
{
    let r = v.clone();
    proof {
        assert(r@ =~= v@);
    }
    r
}

/// Builds the dedup identity of an event.
pub fn identity_for(
    prefix: &Vec<u8>,
    sid: &Vec<u8>,
    kind: &Vec<u8>,
    explicit: &Option<Vec<u8>>,
    ordinal: u64,
) -> (v: Vec<u8>)
    ensures
        v@ == spec_identity(prefix@, sid@, kind@, opt_bytes(*explicit), ordinal as nat),
{
    match explicit {
        Some(id) => clone_bytes(id),
        None => {
            proof {
                reveal_strlit("-");
            }
            let dash = lit("-");
            let mut v = clone_bytes(prefix);
            push_all(&mut v, kind);
            push_all(&mut v, &dash);
            push_all(&mut v, sid);
            push_all(&mut v, &dash);
            let digits = crate::ascii::u64_to_dec(ordinal);
            push_all(&mut v, &digits);
            v
        },
    }
}

} // verus!
