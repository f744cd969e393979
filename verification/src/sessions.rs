//! The session-listing view filter.
//!
//! The backend lists every session it knows. The UI shows only the
//! sessions of this application: those whose directory is the
//! application's state directory, that have no parent (subagent runs
//! carry one), whose title does not hold the subagent marker, and whose
//! title does not start with the modal-prompt marker. This is a view
//! filter, not a storage operation.

use vstd::prelude::*;
use crate::ascii::{ascii_seq, bytes_eq, contains_bytes, contains_seq, has_prefix, lit, opt_bytes};
use crate::event::clone_bytes;

verus! {

/// One session as the backend lists it, reduced to what the filter
/// reads.
pub struct SessionRecord {
    /// The working directory the session belongs to.
    pub directory: Vec<u8>,
    /// The parent session, present on subagent runs.
    pub parent_id: Option<Vec<u8>>,
    /// The session title.
    pub title: Vec<u8>,
}

/// A session, as the specifications see it.
pub struct SessionModel {
    /// The working directory the session belongs to.
    pub directory: Seq<u8>,
    /// The parent session, present on subagent runs.
    pub parent_id: Option<Seq<u8>>,
    /// The session title.
    pub title: Seq<u8>,
}

impl View for SessionRecord {
    type V = SessionModel;

    open spec fn view(&self) -> SessionModel {
        SessionModel {
            directory: self.directory@,
            parent_id: opt_bytes(self.parent_id),
            title: self.title@,
        }
    }
}

/// The views of a sequence of session records.
pub open spec fn session_views(v: Seq<SessionRecord>) -> Seq<SessionModel> {
    Seq::new(v.len(), |i: int| v[i]@)
}

/// The subagent marker a title may hold anywhere.
pub open spec fn subagent_marker() -> Seq<u8> {
    ascii_seq("@subagent"@)
}

/// The marker prefix of modal-prompt sessions.
pub open spec fn modal_marker() -> Seq<u8> {
    ascii_seq("modal-prompt:"@)
}

/// Whether the filter shows a session: right directory, no parent, no
/// subagent marker, not a modal-prompt session.
pub open spec fn session_visible(s: SessionModel, project_dir: Seq<u8>) -> bool {
    &&& s.directory == project_dir
    &&& s.parent_id is None
    &&& !contains_seq(s.title, subagent_marker())
    &&& !modal_marker().is_prefix_of(s.title)
}

/// Copies one session record.
fn clone_record(s: &SessionRecord) -> (r: SessionRecord)
    ensures
        r@ == s@,
{
    SessionRecord {
        directory: clone_bytes(&s.directory),
        parent_id: match &s.parent_id {
            Some(p) => Some(clone_bytes(p)),
            None => None,
        },
        title: clone_bytes(&s.title),
    }
}

/// Filters the listed sessions down to this application's own: those in
/// `project_dir`, without a parent, without the subagent marker, and
/// not modal-prompt sessions — keeping their order.
pub fn get_sessions(sessions: &Vec<SessionRecord>, project_dir: &Vec<u8>) -> (out: Vec<
    SessionRecord,
>)
    ensures
        session_views(out@) == session_views(sessions@).filter(
            |s: SessionModel| session_visible(s, project_dir@),
        ),
{
    proof {
        reveal_strlit("@subagent");
        reveal_strlit("modal-prompt:");
    }
    let marker = lit("@subagent");
    let modal = lit("modal-prompt:");
    let ghost pred = |s: SessionModel| session_visible(s, project_dir@);
    let mut out: Vec<SessionRecord> = Vec::new();
    let mut i: usize = 0;
    proof {
        assert(session_views(sessions@).take(0) =~= Seq::<SessionModel>::empty());
        reveal_with_fuel(Seq::<SessionModel>::filter, 1);
        assert(session_views(out@) =~= session_views(sessions@).take(0).filter(pred));
    }
    while i < sessions.len()
        invariant
            i <= sessions@.len(),
            marker@ == subagent_marker(),
            modal@ == modal_marker(),
            pred == (|s: SessionModel| session_visible(s, project_dir@)),
            session_views(out@) == session_views(sessions@).take(i as int).filter(pred),
        decreases sessions@.len() - i,
    {
        let s = &sessions[i];
        let ghost pre = session_views(sessions@).take(i as int);
        proof {
            assert(session_views(sessions@).take(i + 1) =~= pre.push(s@));
            assert(pre.push(s@).drop_last() =~= pre);
            reveal_with_fuel(Seq::<SessionModel>::filter, 1);
            assert(pre.push(s@).filter(pred) == if pred(s@) {
                pre.filter(pred).push(s@)
            } else {
                pre.filter(pred)
            });
        }
        let keep = bytes_eq(&s.directory, project_dir) && (match &s.parent_id {
            None => true,
            Some(_) => false,
        }) && !contains_bytes(&s.title, &marker) && !has_prefix(&s.title, &modal);
        if keep {
            let ghost before = session_views(out@);
            let copy = clone_record(s);
            out.push(copy);
            proof {
                assert(session_views(out@) =~= before.push(s@));
            }
        }
        i = i + 1;
    }
    proof {
        assert(session_views(sessions@).take(sessions@.len() as int) =~= session_views(sessions@));
    }
    out
}

} // verus!
