//! The operation dispatcher.
//!
//! Two public operations — navigate and modal prompt — are structurally
//! identical apart from the endpoint path, the UI event-name prefix and
//! the synthesized-identity prefix. The dispatcher builds the request
//! body, and turns the HTTP response into UI emissions: a non-success
//! status fails at once with the body as the error message and is never
//! parsed as a stream; a success status is relayed through the frame
//! parser and deduplicator. Either way the terminal done emission comes
//! last, so the UI can always leave its in-progress state; success or
//! failure is reported only by the returned result.

use vstd::prelude::*;
use crate::ascii::{ascii_seq, lit, opt_bytes, push_all, seq_views};
use crate::event::clone_bytes;
use crate::relay::{payloads_of, relay_outputs, RelaySession};

verus! {

/// The two dispatcher operations.
#[derive(Clone, Copy, PartialEq, Eq, Structural)]
pub enum Operation {
    /// Drives the roadmap from a prompt.
    Navigate,
    /// Answers a modal prompt.
    ModalPrompt,
}

/// The endpoint path of an operation.
pub open spec fn path_spec(op: Operation) -> Seq<u8> {
    match op {
        Operation::Navigate => ascii_seq("/api/execute-navigate"@),
        Operation::ModalPrompt => ascii_seq("/api/execute-modal-prompt"@),
    }
}

/// The endpoint path of an operation, as bytes.
pub fn operation_path(op: Operation) -> (v: Vec<u8>)
    ensures
        v@ == path_spec(op),
{
    match op {
        Operation::Navigate => {
            proof {
                reveal_strlit("/api/execute-navigate");
            }
            lit("/api/execute-navigate")
        },
        Operation::ModalPrompt => {
            proof {
                reveal_strlit("/api/execute-modal-prompt");
            }
            lit("/api/execute-modal-prompt")
        },
    }
}

/// The full URL of an operation: the local service on its well-known
/// port, then the endpoint path.
pub open spec fn url_spec(op: Operation) -> Seq<u8> {
    ascii_seq("http://127.0.0.1:"@) + crate::ascii::dec_rep(crate::config::SERVICE_PORT as nat)
        + path_spec(op)
}

/// The full URL of an operation, as bytes.
pub fn operation_url(op: Operation) -> (v: Vec<u8>)
    ensures
        v@ == url_spec(op),
{
    proof {
        reveal_strlit("http://127.0.0.1:");
    }
    let mut v = lit("http://127.0.0.1:");
    let port = crate::ascii::u64_to_dec(crate::config::SERVICE_PORT as u64);
    push_all(&mut v, &port);
    let path = operation_path(op);
    push_all(&mut v, &path);
    v
}

/// The UI event name an operation's data events are emitted under.
pub open spec fn event_name_spec(op: Operation) -> Seq<u8> {
    match op {
        Operation::Navigate => ascii_seq("execute-navigate-event"@),
        Operation::ModalPrompt => ascii_seq("execute-modal-prompt-event"@),
    }
}

/// The UI event name of an operation's terminal done signal.
pub open spec fn done_name_spec(op: Operation) -> Seq<u8> {
    match op {
        Operation::Navigate => ascii_seq("execute-navigate-done"@),
        Operation::ModalPrompt => ascii_seq("execute-modal-prompt-done"@),
    }
}

/// The synthesized-identity prefix of an operation.
pub open spec fn id_prefix_spec(op: Operation) -> Seq<u8> {
    match op {
        Operation::Navigate => Seq::<u8>::empty(),
        Operation::ModalPrompt => ascii_seq("modal-"@),
    }
}

/// The UI event name of an operation's data events, as bytes.
pub fn event_name(op: Operation) -> (v: Vec<u8>)
    ensures
        v@ == event_name_spec(op),
{
    match op {
        Operation::Navigate => {
            proof {
                reveal_strlit("execute-navigate-event");
            }
            lit("execute-navigate-event")
        },
        Operation::ModalPrompt => {
            proof {
                reveal_strlit("execute-modal-prompt-event");
            }
            lit("execute-modal-prompt-event")
        },
    }
}

/// The UI event name of an operation's done signal, as bytes.
pub fn done_name(op: Operation) -> (v: Vec<u8>)
    ensures
        v@ == done_name_spec(op),
{
    match op {
        Operation::Navigate => {
            proof {
                reveal_strlit("execute-navigate-done");
            }
            lit("execute-navigate-done")
        },
        Operation::ModalPrompt => {
            proof {
                reveal_strlit("execute-modal-prompt-done");
            }
            lit("execute-modal-prompt-done")
        },
    }
}

/// The synthesized-identity prefix of an operation, as bytes.
pub fn id_prefix(op: Operation) -> (v: Vec<u8>)
    ensures
        v@ == id_prefix_spec(op),
{
    match op {
        Operation::Navigate => {
            let v = Vec::new();
            proof {
                assert(v@ =~= Seq::<u8>::empty());
            }
            v
        },
        Operation::ModalPrompt => {
            proof {
                reveal_strlit("modal-");
            }
            lit("modal-")
        },
    }
}

/// One named event handed to the UI event sink.
pub struct Emission {
    /// The UI event name.
    pub name: Vec<u8>,
    /// The event payload: JSON text.
    pub payload: Vec<u8>,
}

/// A UI emission, as the specifications see it.
pub struct EmissionModel {
    /// The UI event name.
    pub name: Seq<u8>,
    /// The event payload: JSON text.
    pub payload: Seq<u8>,
}

impl View for Emission {
    type V = EmissionModel;

    open spec fn view(&self) -> EmissionModel {
        EmissionModel { name: self.name@, payload: self.payload@ }
    }
}

/// The views of a sequence of emissions.
pub open spec fn emissions_view(v: Seq<Emission>) -> Seq<EmissionModel> {
    Seq::new(v.len(), |i: int| v[i]@)
}

/// Whether an HTTP status reports success.
pub open spec fn status_success(status: u16) -> bool {
    200 <= status < 300
}

/// The user-facing message of a non-success response: the response body
/// behind a fixed prefix.
pub open spec fn protocol_error_spec(body: Seq<u8>) -> Seq<u8> {
    ascii_seq("Execute failed: "@) + body
}

/// The user-facing message of a transport failure: the transport's own
/// message behind a prefix naming the operation.
pub open spec fn transport_error_spec(op: Operation, detail: Seq<u8>) -> Seq<u8> {
    match op {
        Operation::Navigate => ascii_seq("Failed to execute navigate: "@) + detail,
        Operation::ModalPrompt => ascii_seq("Failed to execute modal prompt: "@) + detail,
    }
}

/// Maps a transport failure to its user-facing message.
pub fn transport_error(op: Operation, detail: &Vec<u8>) -> (v: Vec<u8>)
    ensures
        v@ == transport_error_spec(op, detail@),
{
    let mut v = match op {
        Operation::Navigate => {
            proof {
                reveal_strlit("Failed to execute navigate: ");
            }
            lit("Failed to execute navigate: ")
        },
        Operation::ModalPrompt => {
            proof {
                reveal_strlit("Failed to execute modal prompt: ");
            }
            lit("Failed to execute modal prompt: ")
        },
    };
    push_all(&mut v, detail);
    v
}

/// The terminal done emission of an operation: an empty JSON object.
pub open spec fn done_emission_spec(op: Operation) -> EmissionModel {
    EmissionModel { name: done_name_spec(op), payload: ascii_seq("{}"@) }
}

/// The session id the relay folds with: the caller's, or empty.
pub open spec fn sid_or_empty(sid: Option<Seq<u8>>) -> Seq<u8> {
    match sid {
        Some(s) => s,
        None => Seq::empty(),
    }
}

/// The emissions of a successful response: each accepted event of the
/// body under the operation's event name, in arrival order, then done.
pub open spec fn success_emissions_spec(op: Operation, sid: Option<Seq<u8>>, body: Seq<u8>) -> Seq<
    EmissionModel,
> {
    payloads_of(relay_outputs(id_prefix_spec(op), sid_or_empty(sid), body)).map_values(
        |p: Seq<u8>| EmissionModel { name: event_name_spec(op), payload: p },
    ) + seq![done_emission_spec(op)]
}

/// What a dispatcher operation emits and returns, given the response:
/// a non-success status emits only done and fails with the body as the
/// message, never touching the stream; a success status relays the body
/// and succeeds, with done last.
pub open spec fn dispatch_model(op: Operation, sid: Option<Seq<u8>>, status: u16, body: Seq<u8>) -> (
    Seq<EmissionModel>,
    Result<(), Seq<u8>>,
) {
    if status_success(status) {
        (success_emissions_spec(op, sid, body), Ok(()))
    } else {
        (seq![done_emission_spec(op)], Err(protocol_error_spec(body)))
    }
}

/// Law: whatever the response — success, protocol error, any body — the
/// dispatcher's last emission is always the operation's done signal, so
/// the UI can leave its in-progress state; whether the call succeeded is
/// reported only by the returned result.
pub proof fn lemma_done_always_fires_last(
    op: Operation,
    sid: Option<Seq<u8>>,
    status: u16,
    body: Seq<u8>,
)
    ensures
        dispatch_model(op, sid, status, body).0.len() >= 1,
        dispatch_model(op, sid, status, body).0.last() == done_emission_spec(op),
{
    if status_success(status) {
        let events = payloads_of(relay_outputs(id_prefix_spec(op), sid_or_empty(sid), body))
            .map_values(|p: Seq<u8>| EmissionModel { name: event_name_spec(op), payload: p });
        assert((events + seq![done_emission_spec(op)]).last() == done_emission_spec(op));
    }
}

/// The done emission, as a value.
fn make_done(op: Operation) -> (e: Emission)
    ensures
        e@ == done_emission_spec(op),
{
    proof {
        reveal_strlit("{}");
    }
    Emission { name: done_name(op), payload: lit("{}") }
}

/// Drives one operation's response: checks the status, relays the body
/// chunks through the frame parser and deduplicator, and produces the
/// UI emissions in order, done last, with the operation's result.
pub fn dispatch_response(
    op: Operation,
    session_id: &Option<Vec<u8>>,
    status: u16,
    chunks: &Vec<Vec<u8>>,
) -> (r: (Vec<Emission>, Result<(), Vec<u8>>))
    requires
        seq_views(chunks@).flatten().len() < u64::MAX,
    ensures
        emissions_view(r.0@) == dispatch_model(
            op,
            opt_bytes(*session_id),
            status,
            seq_views(chunks@).flatten(),
        ).0,
        match r.1 {
            Ok(u) => dispatch_model(op, opt_bytes(*session_id), status, seq_views(chunks@).flatten()).1
                == Ok::<(), Seq<u8>>(u),
            Err(m) => dispatch_model(
                op,
                opt_bytes(*session_id),
                status,
                seq_views(chunks@).flatten(),
            ).1 == Err::<(), Seq<u8>>(m@),
        },
{
    let ghost body = seq_views(chunks@).flatten();
    if !(200 <= status && status < 300) {
        // protocol error: the body is the message, the stream is never
        // parsed, and only the done signal reaches the UI
        proof {
            reveal_strlit("Execute failed: ");
        }
        let mut msg = lit("Execute failed: ");
        let mut i: usize = 0;
        while i < chunks.len()
            invariant
                i <= chunks@.len(),
                msg@ == ascii_seq("Execute failed: "@) + seq_views(chunks@).take(i as int).flatten(),
            decreases chunks@.len() - i,
        {
            proof {
                seq_views(chunks@).take(i as int).lemma_flatten_push(chunks@[i as int]@);
                assert(seq_views(chunks@).take(i + 1) =~= seq_views(chunks@).take(i as int).push(
                    chunks@[i as int]@,
                ));
            }
            push_all(&mut msg, &chunks[i]);
            i = i + 1;
        }
        proof {
            assert(seq_views(chunks@).take(chunks@.len() as int) =~= seq_views(chunks@));
        }
        let done = make_done(op);
        let mut out: Vec<Emission> = Vec::new();
        out.push(done);
        proof {
            assert(emissions_view(out@) =~= seq![done_emission_spec(op)]);
        }
        return (out, Err(msg));
    }
    let prefix = id_prefix(op);
    let sid = match session_id {
        Some(s) => clone_bytes(s),
        None => Vec::new(),
    };
    proof {
        assert(sid@ == sid_or_empty(opt_bytes(*session_id)));
    }
    let ghost p = prefix@;
    let ghost q = sid@;
    let name = event_name(op);
    let mut session = RelaySession::new(prefix, sid);
    let mut out: Vec<Emission> = Vec::new();
    let mut i: usize = 0;
    while i < chunks.len()
        invariant
            i <= chunks@.len(),
            session.wf(),
            session.prefix@ == p,
            session.sid@ == q,
            name@ == event_name_spec(op),
            session.hist() == seq_views(chunks@).take(i as int).flatten(),
            seq_views(chunks@).flatten().len() < u64::MAX,
            emissions_view(out@) == payloads_of(relay_outputs(p, q, session.hist())).map_values(
                |pl: Seq<u8>| EmissionModel { name: event_name_spec(op), payload: pl },
            ),
        decreases chunks@.len() - i,
    {
        proof {
            seq_views(chunks@).take(i as int).lemma_flatten_push(chunks@[i as int]@);
            assert(seq_views(chunks@).take(i + 1) =~= seq_views(chunks@).take(i as int).push(
                chunks@[i as int]@,
            ));
            // the bytes fed so far are a prefix of the whole body
            assert(seq_views(chunks@) =~= seq_views(chunks@).take(i + 1) + seq_views(
                chunks@,
            ).skip(i + 1));
            lemma_flatten_len_concat(seq_views(chunks@).take(i + 1), seq_views(chunks@).skip(i + 1));
        }
        let ghost h_pre = session.hist();
        let accepted = session.push_chunk(&chunks[i]);
        let mut j: usize = 0;
        let ghost acc_views = seq_views(accepted@);
        while j < accepted.len()
            invariant
                j <= accepted@.len(),
                acc_views == seq_views(accepted@),
                name@ == event_name_spec(op),
                emissions_view(out@) == payloads_of(relay_outputs(p, q, h_pre)).map_values(
                    |pl: Seq<u8>| EmissionModel { name: event_name_spec(op), payload: pl },
                ) + acc_views.take(j as int).map_values(
                    |pl: Seq<u8>| EmissionModel { name: event_name_spec(op), payload: pl },
                ),
            decreases accepted@.len() - j,
        {
            let e = Emission { name: clone_bytes(&name), payload: clone_bytes(&accepted[j]) };
            let ghost before = emissions_view(out@);
            out.push(e);
            proof {
                assert(acc_views.take(j + 1) =~= acc_views.take(j as int).push(
                    acc_views[j as int],
                ));
                assert(emissions_view(out@) =~= before.push(e@));
                assert(emissions_view(out@) =~= payloads_of(relay_outputs(p, q, h_pre)).map_values(
                    |pl: Seq<u8>| EmissionModel { name: event_name_spec(op), payload: pl },
                ) + acc_views.take(j + 1).map_values(
                    |pl: Seq<u8>| EmissionModel { name: event_name_spec(op), payload: pl },
                ));
            }
            j = j + 1;
        }
        proof {
            assert(acc_views.take(accepted@.len() as int) =~= acc_views);
            assert(emissions_view(out@) =~= payloads_of(
                relay_outputs(p, q, session.hist()),
            ).map_values(|pl: Seq<u8>| EmissionModel { name: event_name_spec(op), payload: pl }))
                by {
                assert(payloads_of(relay_outputs(p, q, h_pre)) + acc_views == payloads_of(
                    relay_outputs(p, q, session.hist()),
                ));
            }
        }
        i = i + 1;
    }
    proof {
        assert(seq_views(chunks@).take(chunks@.len() as int) =~= seq_views(chunks@));
    }
    let done = make_done(op);
    let ghost before_done = emissions_view(out@);
    out.push(done);
    proof {
        assert(emissions_view(out@) =~= before_done.push(done_emission_spec(op)));
        assert(emissions_view(out@) =~= success_emissions_spec(op, opt_bytes(*session_id), body));
    }
    (out, Ok(()))
}

/// The flattened length of concatenated chunk lists adds up.
proof fn lemma_flatten_len_concat(a: Seq<Seq<u8>>, b: Seq<Seq<u8>>)
    ensures
        (a + b).flatten().len() == a.flatten().len() + b.flatten().len(),
    decreases b.len(),
{
    if b.len() == 0 {
        assert(a + b =~= a);
        assert(b.flatten().len() == 0);
    } else {
        lemma_flatten_len_concat(a, b.drop_last());
        a.lemma_flatten_push(b.last());
        (a + b.drop_last()).lemma_flatten_push(b.last());
        assert((a + b.drop_last()).push(b.last()) =~= a + b);
        b.drop_last().lemma_flatten_push(b.last());
        assert(b.drop_last().push(b.last()) =~= b);
    }
}

} // verus!
