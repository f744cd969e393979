//! The streaming relay: dedup fold over the parsed events of a body.
//!
//! The specification views a response body as the sequence of data events
//! its completed lines carry, then folds the deduplicator over that
//! sequence: each event gets an identity — its explicit upstream id, or
//! one synthesized from its kind, the session id and the event's ordinal
//! position — and is accepted exactly when that identity has not been
//! seen before in the session. The ordinal counts every parsed event,
//! accepted or not.

use vstd::prelude::*;
use crate::ascii::seq_views;
use crate::event::{spec_identity, event_of_line, EventModel};
use crate::sse::complete_lines;

verus! {

/// The deduplicator's state during a session: the identities seen, and
/// how many events have been parsed.
pub struct DedupSt {
    /// Identities observed so far, accepted or not.
    pub seen: Set<Seq<u8>>,
    /// Ordinal of the next parsed event.
    pub ordinal: nat,
}

/// The state a fresh session starts from.
pub open spec fn init_st() -> DedupSt {
    DedupSt { seen: Set::empty(), ordinal: 0 }
}

/// One accepted event: the identity it was accepted under, and its
/// payload.
pub struct Accepted {
    /// The dedup identity the event was accepted under.
    pub id: Seq<u8>,
    /// The JSON text of the event.
    pub payload: Seq<u8>,
}

/// The data events the completed lines carry, in order, noise dropped.
pub open spec fn events_of_lines(lines: Seq<Seq<u8>>) -> Seq<EventModel>
    decreases lines.len(),
{
    if lines.len() == 0 {
        Seq::empty()
    } else {
        let r = events_of_lines(lines.drop_last());
        match event_of_line(lines.last()) {
            Some(e) => r.push(e),
            None => r,
        }
    }
}

/// The data events of a byte stream: those of its completed lines.
pub open spec fn stream_events(bytes: Seq<u8>) -> Seq<EventModel> {
    events_of_lines(complete_lines(bytes))
}

/// The identity the fold assigns to event `e` in state `st`.
pub open spec fn step_id(prefix: Seq<u8>, sid: Seq<u8>, st: DedupSt, e: EventModel) -> Seq<u8> {
    spec_identity(prefix, sid, e.kind, e.explicit, st.ordinal)
}

/// The state after one event with identity `id`: the identity is
/// remembered whether or not it was fresh, and the ordinal advances.
pub open spec fn step_st(st: DedupSt, id: Seq<u8>) -> DedupSt {
    DedupSt { seen: st.seen.insert(id), ordinal: st.ordinal + 1 }
}

/// Folds the deduplicator over `es` from state `st`: the final state,
/// and the accepted events in order.
pub open spec fn relay_fold(prefix: Seq<u8>, sid: Seq<u8>, st: DedupSt, es: Seq<EventModel>) -> (
    DedupSt,
    Seq<Accepted>,
)
    decreases es.len(),
{
    if es.len() == 0 {
        (st, Seq::empty())
    } else {
        let r = relay_fold(prefix, sid, st, es.drop_last());
        let e = es.last();
        let id = step_id(prefix, sid, r.0, e);
        if r.0.seen.contains(id) {
            (step_st(r.0, id), r.1)
        } else {
            (step_st(r.0, id), r.1.push(Accepted { id, payload: e.payload }))
        }
    }
}

/// The accepted events of a whole byte stream, for a fresh session.
pub open spec fn relay_outputs(prefix: Seq<u8>, sid: Seq<u8>, bytes: Seq<u8>) -> Seq<Accepted> {
    relay_fold(prefix, sid, init_st(), stream_events(bytes)).1
}

/// The payloads of a sequence of accepted events.
pub open spec fn payloads_of(acc: Seq<Accepted>) -> Seq<Seq<u8>> {
    acc.map_values(|a: Accepted| a.payload)
}

/// A body has no more data events than completed lines.
pub proof fn lemma_events_len(lines: Seq<Seq<u8>>)
    ensures
        events_of_lines(lines).len() <= lines.len(),
    decreases lines.len(),
{
    if lines.len() > 0 {
        lemma_events_len(lines.drop_last());
    }
}

/// A body completes no more lines than it has bytes.
pub proof fn lemma_lines_len(bytes: Seq<u8>)
    ensures
        complete_lines(bytes).len() <= bytes.len(),
{
    crate::sse::lemma_scan_from_count((Seq::empty(), Seq::empty()), bytes);
}

/// The data events of concatenated line sequences are the concatenated
/// data events.
pub proof fn lemma_events_append(l1: Seq<Seq<u8>>, l2: Seq<Seq<u8>>)
    ensures
        events_of_lines(l1 + l2) == events_of_lines(l1) + events_of_lines(l2),
    decreases l2.len(),
{
    if l2.len() == 0 {
        assert(l1 + l2 =~= l1);
        assert(events_of_lines(l1) + events_of_lines(l2) =~= events_of_lines(l1));
    } else {
        lemma_events_append(l1, l2.drop_last());
        assert((l1 + l2).drop_last() =~= l1 + l2.drop_last());
        assert((l1 + l2).last() == l2.last());
        match event_of_line(l2.last()) {
            Some(e) => {
                assert(events_of_lines(l1) + events_of_lines(l2) =~= events_of_lines(l1)
                    + events_of_lines(l2.drop_last()) + seq![e]);
                assert(events_of_lines(l1 + l2) =~= events_of_lines(l1) + events_of_lines(
                    l2.drop_last(),
                ) + seq![e]);
            },
            None => {},
        }
    }
}

/// The fold parses every event: the final ordinal advances by one per
/// event.
pub proof fn lemma_fold_ordinal(prefix: Seq<u8>, sid: Seq<u8>, st: DedupSt, es: Seq<EventModel>)
    ensures
        relay_fold(prefix, sid, st, es).0.ordinal == st.ordinal + es.len(),
    decreases es.len(),
{
    if es.len() > 0 {
        lemma_fold_ordinal(prefix, sid, st, es.drop_last());
    }
}

/// The identity the fold assigns to each event of `es` when the fold
/// starts at ordinal `ord0`: event `k` is parsed at ordinal `ord0 + k`.
pub open spec fn ids_of(prefix: Seq<u8>, sid: Seq<u8>, ord0: nat, es: Seq<EventModel>) -> Seq<
    Seq<u8>,
> {
    Seq::new(es.len(), |k: int| spec_identity(prefix, sid, es[k].kind, es[k].explicit, (ord0 + k) as nat))
}

/// How many accepted events carry identity `id`.
pub open spec fn id_count(acc: Seq<Accepted>, id: Seq<u8>) -> nat
    decreases acc.len(),
{
    if acc.len() == 0 {
        0
    } else {
        id_count(acc.drop_last(), id) + if acc.last().id == id {
            1nat
        } else {
            0nat
        }
    }
}

/// After the fold, the seen set holds exactly what was seen before plus
/// the identity of every parsed event, accepted or not; and every
/// accepted event's identity is among the parsed identities and was not
/// seen when the session started.
pub proof fn lemma_fold_seen(prefix: Seq<u8>, sid: Seq<u8>, st: DedupSt, es: Seq<EventModel>)
    ensures
        relay_fold(prefix, sid, st, es).0.seen == st.seen.union(
            ids_of(prefix, sid, st.ordinal, es).to_set(),
        ),
    decreases es.len(),
{
    let ids = ids_of(prefix, sid, st.ordinal, es);
    if es.len() == 0 {
        assert(ids.to_set() =~= Set::<Seq<u8>>::empty());
        assert(st.seen.union(ids.to_set()) =~= st.seen);
    } else {
        lemma_fold_seen(prefix, sid, st, es.drop_last());
        let r = relay_fold(prefix, sid, st, es.drop_last());
        lemma_fold_ordinal(prefix, sid, st, es.drop_last());
        let e = es.last();
        let id = step_id(prefix, sid, r.0, e);
        let subids = ids_of(prefix, sid, st.ordinal, es.drop_last());
        assert(ids =~= subids.push(id));
        assert(subids.push(id).to_set() =~= subids.to_set().insert(id)) by {
            assert forall|x: Seq<u8>| subids.push(id).to_set().contains(x) <==> subids.to_set()
                .insert(id).contains(x) by {
                if subids.push(id).contains(x) {
                    let k = choose|k: int| 0 <= k < subids.push(id).len() && subids.push(id)[k]
                        == x;
                    if k < subids.len() {
                        assert(subids[k] == x);
                    }
                }
                if subids.contains(x) {
                    let k = choose|k: int| 0 <= k < subids.len() && subids[k] == x;
                    assert(subids.push(id)[k] == x);
                }
                if x == id {
                    assert(subids.push(id)[subids.len() as int] == x);
                }
            }
        }
        assert(relay_fold(prefix, sid, st, es).0.seen =~= st.seen.union(ids.to_set()));
    }
}

/// Every accepted identity was fresh when it was accepted: the accepted
/// identities are pairwise distinct, none was seen when the session
/// started, and all are in the final seen set.
pub proof fn lemma_fold_accepts(prefix: Seq<u8>, sid: Seq<u8>, st: DedupSt, es: Seq<EventModel>)
    ensures
        forall|i: int|
            0 <= i < relay_fold(prefix, sid, st, es).1.len() ==> relay_fold(
                prefix,
                sid,
                st,
                es,
            ).0.seen.contains(#[trigger] relay_fold(prefix, sid, st, es).1[i].id),
        forall|i: int|
            0 <= i < relay_fold(prefix, sid, st, es).1.len() ==> !st.seen.contains(
                #[trigger] relay_fold(prefix, sid, st, es).1[i].id,
            ),
        forall|i: int, j: int|
            0 <= i < j < relay_fold(prefix, sid, st, es).1.len() ==> #[trigger] relay_fold(
                prefix,
                sid,
                st,
                es,
            ).1[i].id != #[trigger] relay_fold(prefix, sid, st, es).1[j].id,
        st.seen.subset_of(relay_fold(prefix, sid, st, es).0.seen),
    decreases es.len(),
{
    if es.len() > 0 {
        lemma_fold_accepts(prefix, sid, st, es.drop_last());
        let r = relay_fold(prefix, sid, st, es.drop_last());
        let whole = relay_fold(prefix, sid, st, es);
        let e = es.last();
        let id = step_id(prefix, sid, r.0, e);
        if !r.0.seen.contains(id) {
            assert(whole.1 == r.1.push(Accepted { id, payload: e.payload }));
            assert forall|i: int| 0 <= i < whole.1.len() implies whole.0.seen.contains(
                #[trigger] whole.1[i].id,
            ) by {
                if i < r.1.len() {
                    assert(whole.1[i] == r.1[i]);
                }
            }
            assert forall|i: int, j: int| 0 <= i < j < whole.1.len() implies #[trigger] whole.1[i].id
                != #[trigger] whole.1[j].id by {
                if j < r.1.len() {
                    assert(whole.1[i] == r.1[i] && whole.1[j] == r.1[j]);
                } else {
                    assert(whole.1[i] == r.1[i]);
                    assert(r.0.seen.contains(r.1[i].id));
                    assert(whole.1[j].id == id);
                }
            }
        }
    }
}

/// Law: an identity parsed during a session that was never seen before
/// it is accepted exactly once across the session — the first event that
/// carries it is accepted, and every retransmission of it is dropped.
pub proof fn lemma_accepted_exactly_once(
    prefix: Seq<u8>,
    sid: Seq<u8>,
    st: DedupSt,
    es: Seq<EventModel>,
    id: Seq<u8>,
)
    requires
        !st.seen.contains(id),
        ids_of(prefix, sid, st.ordinal, es).contains(id),
    ensures
        id_count(relay_fold(prefix, sid, st, es).1, id) == 1,
    decreases es.len(),
{
    let ids = ids_of(prefix, sid, st.ordinal, es);
    let subids = ids_of(prefix, sid, st.ordinal, es.drop_last());
    let r = relay_fold(prefix, sid, st, es.drop_last());
    let whole = relay_fold(prefix, sid, st, es);
    let e = es.last();
    lemma_fold_ordinal(prefix, sid, st, es.drop_last());
    let stepid = step_id(prefix, sid, r.0, e);
    assert(es.len() > 0);
    assert(ids =~= subids.push(stepid));
    lemma_fold_seen(prefix, sid, st, es.drop_last());
    lemma_fold_accepts(prefix, sid, st, es.drop_last());
    if subids.contains(id) {
        // the identity already occurred earlier: exactly one accepted
        // entry carries it, and the last event cannot add another,
        // because the identity is already in the seen set.
        lemma_accepted_exactly_once(prefix, sid, st, es.drop_last(), id);
        assert(r.0.seen.contains(id)) by {
            assert(subids.to_set().contains(id));
        }
        if stepid == id {
            assert(whole.1 == r.1);
        } else {
            if !r.0.seen.contains(stepid) {
                assert(whole.1 == r.1.push(Accepted { id: stepid, payload: e.payload }));
                assert(whole.1.drop_last() =~= r.1);
            }
        }
    } else {
        // the last event is the first to carry the identity: it is fresh
        // there, so it is accepted, and nothing before it carries it.
        assert(stepid == id) by {
            if stepid != id {
                let k = choose|k: int| 0 <= k < ids.len() && ids[k] == id;
                assert(subids[k] == id);
            }
        }
        assert(!r.0.seen.contains(id)) by {
            assert(!subids.to_set().contains(id));
        }
        assert(whole.1 == r.1.push(Accepted { id, payload: e.payload }));
        assert(whole.1.drop_last() =~= r.1);
        // no accepted entry of the prefix fold carries the identity
        lemma_count_zero_when_absent(r.1, id);
    }
}

/// An identity outside the final seen set is carried by no accepted
/// entry.
proof fn lemma_count_zero_when_absent(acc: Seq<Accepted>, id: Seq<u8>)
    requires
        forall|i: int| 0 <= i < acc.len() ==> #[trigger] acc[i].id != id,
    ensures
        id_count(acc, id) == 0,
    decreases acc.len(),
{
    if acc.len() > 0 {
        assert(acc.last().id != id);
        lemma_count_zero_when_absent(acc.drop_last(), id);
    }
}

/// One in-flight streaming session: the scanner that reassembles lines
/// from arbitrarily chunked reads, the set of identities seen, and the
/// ordinal of the next parsed event.
pub struct RelaySession {
    /// Synthesized-identity prefix of the operation driving this session.
    pub prefix: Vec<u8>,
    /// Session id bytes; empty when the caller continues no session.
    pub sid: Vec<u8>,
    /// Reassembles completed lines from chunked reads.
    pub scanner: crate::sse::LineScanner,
    /// The identities observed so far.
    pub dedup: crate::dedup::Dedup,
    /// Ordinal of the next parsed event.
    pub counter: u64,
}

impl RelaySession {
    /// Every body byte fed to this session so far.
    pub open spec fn hist(self) -> Seq<u8> {
        self.scanner.hist@
    }

    /// The session's state is exactly the dedup fold over the events of
    /// the bytes fed so far.
    pub open spec fn wf(self) -> bool {
        &&& self.scanner.wf()
        &&& self.dedup@ == relay_fold(
            self.prefix@,
            self.sid@,
            init_st(),
            stream_events(self.hist()),
        ).0.seen
        &&& self.counter as nat == relay_fold(
            self.prefix@,
            self.sid@,
            init_st(),
            stream_events(self.hist()),
        ).0.ordinal
    }

    /// A fresh session for one operation.
    pub fn new(prefix: Vec<u8>, sid: Vec<u8>) -> (s: Self)
        ensures
            s.wf(),
            s.hist() == Seq::<u8>::empty(),
            s.prefix == prefix,
            s.sid == sid,
    {
        let s = RelaySession {
            prefix,
            sid,
            scanner: crate::sse::LineScanner::new(),
            dedup: crate::dedup::Dedup::new(),
            counter: 0,
        };
        proof {
            assert(complete_lines(Seq::<u8>::empty()) =~= Seq::<Seq<u8>>::empty());
        }
        s
    }

    /// Feeds one chunk of the response body; returns the payloads of the
    /// events this chunk completed and the deduplicator accepted, in
    /// arrival order. What comes out depends only on the bytes fed, never
    /// on where the chunk boundaries fell.
    pub fn push_chunk(&mut self, chunk: &Vec<u8>) -> (out: Vec<Vec<u8>>)
        requires
            old(self).wf(),
            old(self).hist().len() + chunk@.len() < u64::MAX,
        ensures
            final(self).wf(),
            final(self).prefix@ == old(self).prefix@,
            final(self).sid@ == old(self).sid@,
            final(self).hist() == old(self).hist() + chunk@,
            payloads_of(relay_outputs(old(self).prefix@, old(self).sid@, old(self).hist()))
                + seq_views(out@) == payloads_of(
                relay_outputs(old(self).prefix@, old(self).sid@, final(self).hist()),
            ),
    {
        let ghost p = self.prefix@;
        let ghost q = self.sid@;
        let ghost h0 = self.scanner.hist@;
        let ghost e0 = stream_events(h0);
        let lines = self.scanner.push_chunk(chunk);
        let ghost h1 = self.scanner.hist@;
        let ghost lv = seq_views(lines@);
        proof {
            // the new events are those of the newly completed lines
            lemma_events_append(complete_lines(h0), lv);
            assert(stream_events(h1) == e0 + events_of_lines(lv));
            // every prefix of the whole event sequence fits in the counter
            lemma_lines_len(h1);
            lemma_events_len(complete_lines(h1));
        }
        let mut out: Vec<Vec<u8>> = Vec::new();
        let mut j: usize = 0;
        while j < lines.len()
            invariant
                j <= lines@.len(),
                lv == seq_views(lines@),
                self.prefix@ == p,
                self.sid@ == q,
                self.scanner.hist@ == h1,
                self.scanner.wf(),
                stream_events(h1) == e0 + events_of_lines(lv),
                stream_events(h1).len() <= h1.len(),
                h1.len() < u64::MAX,
                self.dedup@ == relay_fold(p, q, init_st(), e0 + events_of_lines(lv.take(j as int))).0.seen,
                self.counter as nat == relay_fold(
                    p,
                    q,
                    init_st(),
                    e0 + events_of_lines(lv.take(j as int)),
                ).0.ordinal,
                payloads_of(relay_fold(p, q, init_st(), e0).1) + seq_views(out@) == payloads_of(
                    relay_fold(p, q, init_st(), e0 + events_of_lines(lv.take(j as int))).1,
                ),
            decreases lines@.len() - j,
        {
            let ghost cur = e0 + events_of_lines(lv.take(j as int));
            proof {
                assert(lv.take(j + 1) =~= lv.take(j as int).push(lv[j as int]));
                assert(lv.take(j + 1).drop_last() =~= lv.take(j as int));
                // one unfolding of events_of_lines at the new line
                assert(events_of_lines(lv.take(j + 1)) == match event_of_line(lv[j as int]) {
                    Some(e) => events_of_lines(lv.take(j as int)).push(e),
                    None => events_of_lines(lv.take(j as int)),
                });
            }
            let line = &lines[j];
            match crate::event::parse_line(line) {
                None => {
                    proof {
                        assert(e0 + events_of_lines(lv.take(j + 1)) =~= cur);
                    }
                },
                Some(ev) => {
                    let ghost cur2 = e0 + events_of_lines(lv.take(j + 1));
                    proof {
                        assert(cur2 =~= cur.push(ev@));
                        assert(cur2.drop_last() =~= cur);
                        // the counter stays within bounds: the events so
                        // far are a prefix of the whole stream's events
                        assert(lv =~= lv.take(j + 1) + lv.skip(j + 1));
                        lemma_events_append(lv.take(j + 1), lv.skip(j + 1));
                        lemma_fold_ordinal(p, q, init_st(), cur);
                        lemma_fold_ordinal(p, q, init_st(), cur2);
                    }
                    let id = crate::event::identity_for(
                        &self.prefix,
                        &self.sid,
                        &ev.kind,
                        &ev.explicit,
                        self.counter,
                    );
                    let fresh = self.dedup.observe(&id);
                    self.counter = self.counter + 1;
                    let ghost a = Accepted { id: id@, payload: ev@.payload };
                    if fresh {
                        let ghost before = seq_views(out@);
                        out.push(ev.payload);
                        proof {
                            assert(seq_views(out@) =~= before.push(a.payload));
                            assert(relay_fold(p, q, init_st(), cur2).1 == relay_fold(
                                p,
                                q,
                                init_st(),
                                cur,
                            ).1.push(a));
                            assert(payloads_of(relay_fold(p, q, init_st(), cur2).1) =~= payloads_of(
                                relay_fold(p, q, init_st(), cur).1,
                            ).push(a.payload));
                            assert(payloads_of(relay_fold(p, q, init_st(), e0).1) + seq_views(out@)
                                =~= payloads_of(relay_fold(p, q, init_st(), cur2).1));
                        }
                    } else {
                        proof {
                            assert(relay_fold(p, q, init_st(), cur2).1 == relay_fold(
                                p,
                                q,
                                init_st(),
                                cur,
                            ).1);
                        }
                    }
                },
            }
            j = j + 1;
        }
        proof {
            assert(lv.take(lines@.len() as int) =~= lv);
        }
        out
    }
}

/// Law: chunk-boundary independence. Two chunkings of the same logical
/// body — the identical bytes cut at different boundaries — yield the
/// identical parsed events and the identical accepted events: everything
/// the relay produces is a function of the concatenated bytes alone, as
/// `RelaySession::push_chunk` also states of the running session.
pub proof fn lemma_rechunk_independence(
    prefix: Seq<u8>,
    sid: Seq<u8>,
    chunks1: Seq<Seq<u8>>,
    chunks2: Seq<Seq<u8>>,
)
    requires
        chunks1.flatten() == chunks2.flatten(),
    ensures
        stream_events(chunks1.flatten()) == stream_events(chunks2.flatten()),
        relay_outputs(prefix, sid, chunks1.flatten()) == relay_outputs(
            prefix,
            sid,
            chunks2.flatten(),
        ),
{
}

/// Law: a retransmitted event with an unchanged explicit identity is
/// accepted exactly once across the session. Two events of the stream
/// carry the same explicit id; the accepted events carry that identity
/// exactly once.
pub proof fn lemma_retransmission_accepted_once(
    prefix: Seq<u8>,
    sid: Seq<u8>,
    es: Seq<EventModel>,
    k1: int,
    k2: int,
    id: Seq<u8>,
)
    requires
        0 <= k1 < k2 < es.len(),
        es[k1].explicit == Some(id),
        es[k2].explicit == Some(id),
    ensures
        id_count(relay_fold(prefix, sid, init_st(), es).1, id) == 1,
{
    let ids = ids_of(prefix, sid, 0, es);
    assert(ids[k1] == id);
    assert(ids.contains(id));
    lemma_accepted_exactly_once(prefix, sid, init_st(), es, id);
}

} // verus!
