//! The properties the design promises, stated and proved.
//!
//! The record is modeled as `RecordModel`; a whole history of score
//! submissions is `run_upserts`. The lemmas here say what holds of every
//! such history: reads are idempotent, identities stay unique and carry
//! their most recent score, an update keeps every entry in place, a new
//! identity lands at the end, and the counter and owner never move.

use vstd::prelude::*;

use crate::state::{
    first_index_of, has_entry, lemma_first_index_of, lemma_upsert_preserves_uniqueness, score_of,
    unique_identities, upsert_seq,
};
use crate::store::{RecordStore, StoreError};

verus! {

/// A record as mathematics: the counter, the owner, and the leaderboard.
pub ghost struct RecordModel {
    pub count: Seq<char>,
    pub owner: Seq<char>,
    pub scores: Seq<(Seq<char>, u16)>,
}

/// One score submission applied to a record: the upsert rule on the
/// leaderboard; the counter and the owner untouched.
pub open spec fn step_upsert(m: RecordModel, id: Seq<char>, score: u16) -> RecordModel {
    RecordModel { scores: upsert_seq(m.scores, id, score), ..m }
}

/// A whole sequence of score submissions, applied in order.
pub open spec fn run_upserts(m: RecordModel, calls: Seq<(Seq<char>, u16)>) -> RecordModel
    decreases calls.len(),
{
    if calls.len() == 0 {
        m
    } else {
        step_upsert(run_upserts(m, calls.drop_last()), calls.last().0, calls.last().1)
    }
}

/// The score carried by the most recent submission for `id`, if any.
pub open spec fn last_submitted(calls: Seq<(Seq<char>, u16)>, id: Seq<char>) -> Option<u16>
    decreases calls.len(),
{
    if calls.len() == 0 {
        None
    } else if calls.last().0 == id {
        Some(calls.last().1)
    } else {
        last_submitted(calls.drop_last(), id)
    }
}

/// An entry that carries `id` while nothing before it does is the first.
pub proof fn lemma_first_index_unique(s: Seq<(Seq<char>, u16)>, id: Seq<char>, k: int)
    requires
        0 <= k < s.len(),
        s[k].0 == id,
        forall|j: int| 0 <= j < k ==> s[j].0 != id,
    ensures
        has_entry(s, id),
        first_index_of(s, id) == k,
{
    assert(has_entry(s, id));
    lemma_first_index_of(s, id);
}

/// What one upsert leaves stored for each identity: the submitted score for
/// the submitter, the prior score for everyone else.
pub proof fn lemma_upsert_score_of(
    s: Seq<(Seq<char>, u16)>,
    id: Seq<char>,
    score: u16,
    id2: Seq<char>,
)
    ensures
        score_of(upsert_seq(s, id, score), id2) == (if id2 == id {
            Some(score)
        } else {
            score_of(s, id2)
        }),
{
    let t = upsert_seq(s, id, score);
    if has_entry(s, id) {
        lemma_first_index_of(s, id);
        let f = first_index_of(s, id);
        if id2 == id {
            lemma_first_index_unique(t, id, f);
        } else {
            if has_entry(s, id2) {
                lemma_first_index_of(s, id2);
                let f2 = first_index_of(s, id2);
                lemma_first_index_unique(t, id2, f2);
            } else {
                assert(!has_entry(t, id2));
            }
        }
    } else {
        if id2 == id {
            lemma_first_index_unique(t, id, s.len() as int);
        } else {
            if has_entry(s, id2) {
                lemma_first_index_of(s, id2);
                let f2 = first_index_of(s, id2);
                lemma_first_index_unique(t, id2, f2);
            } else {
                assert(!has_entry(t, id2));
            }
        }
    }
}

/// Upsert uniqueness: after any sequence of submissions on a well-formed
/// record, the leaderboard still holds at most one entry per identity, and
/// each identity's stored score is the one from its most recent submission
/// (or its prior score, if it never submitted).
pub proof fn lemma_upsert_sequence(m: RecordModel, calls: Seq<(Seq<char>, u16)>, id: Seq<char>)
    requires
        unique_identities(m.scores),
    ensures
        unique_identities(run_upserts(m, calls).scores),
        score_of(run_upserts(m, calls).scores, id) == (match last_submitted(calls, id) {
            Some(sc) => Some(sc),
            None => score_of(m.scores, id),
        }),
    decreases calls.len(),
{
    if calls.len() > 0 {
        lemma_upsert_sequence(m, calls.drop_last(), id);
        let prev = run_upserts(m, calls.drop_last());
        lemma_upsert_preserves_uniqueness(prev.scores, calls.last().0, calls.last().1);
        lemma_upsert_score_of(prev.scores, calls.last().0, calls.last().1, id);
    }
}

/// Order preservation on update: upserting an identity already on the
/// leaderboard changes no entry's position or identity, and no entry at all
/// but the submitter's.
pub proof fn lemma_upsert_preserves_order(s: Seq<(Seq<char>, u16)>, id: Seq<char>, score: u16)
    requires
        has_entry(s, id),
    ensures
        upsert_seq(s, id, score).len() == s.len(),
        forall|j: int| 0 <= j < s.len() ==> upsert_seq(s, id, score)[j].0 == s[j].0,
        forall|j: int| 0 <= j < s.len() && s[j].0 != id ==> upsert_seq(s, id, score)[j] == s[j],
{
    lemma_first_index_of(s, id);
}

/// Append-on-new: a never-seen identity is appended at the end, never
/// inserted elsewhere.
pub proof fn lemma_upsert_appends_new(s: Seq<(Seq<char>, u16)>, id: Seq<char>, score: u16)
    requires
        !has_entry(s, id),
    ensures
        upsert_seq(s, id, score) == s.push((id, score)),
{
}

/// Owner immutability: no number of score submissions moves the owner, nor
/// the counter.
pub proof fn lemma_owner_immutable(m: RecordModel, calls: Seq<(Seq<char>, u16)>)
    ensures
        run_upserts(m, calls).owner == m.owner,
        run_upserts(m, calls).count == m.count,
    decreases calls.len(),
{
    if calls.len() > 0 {
        lemma_owner_immutable(m, calls.drop_last());
    }
}

/// Idempotent read: two counter reads against one store state agree, and so
/// do two leaderboard reads — each read's result is a function of the store
/// alone.
pub proof fn lemma_reads_idempotent(
    store: RecordStore,
    c1: Result<Seq<char>, StoreError>,
    c2: Result<Seq<char>, StoreError>,
    s1: Result<Seq<(Seq<char>, u16)>, StoreError>,
    s2: Result<Seq<(Seq<char>, u16)>, StoreError>,
)
    requires
        c1 == store.spec_count(),
        c2 == store.spec_count(),
        s1 == store.spec_scores(),
        s2 == store.spec_scores(),
    ensures
        c1 == c2,
        s1 == s2,
{
}

} // verus!
