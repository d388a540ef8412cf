//! The persisted state record and the score upsert algorithm.
//!
//! `State` is the sole persisted aggregate: a display counter set once at
//! creation, the creator's identity, and an ordered leaderboard of
//! `(identity, score)` pairs holding at most one entry per identity.
//! `upsert_score` is the create-or-update rule keyed by identity: an existing
//! entry's score is replaced in place, a new identity is appended at the end.

use vstd::prelude::*;

verus! {

/// The leaderboard as mathematics: each entry is an identity (a sequence of
/// characters) paired with its score.
pub open spec fn entries_of(v: Vec<(String, u16)>) -> Seq<(Seq<char>, u16)> {
    v.deep_view()
}

/// No two entries share an identity.
pub open spec fn unique_identities(s: Seq<(Seq<char>, u16)>) -> bool {
    forall|i: int, j: int| 0 <= i < j < s.len() ==> s[i].0 != s[j].0
}

/// Some entry carries the identity `id`.
pub open spec fn has_entry(s: Seq<(Seq<char>, u16)>, id: Seq<char>) -> bool {
    exists|i: int| 0 <= i < s.len() && s[i].0 == id
}

/// The position of the first entry carrying `id`.
pub open spec fn first_index_of(s: Seq<(Seq<char>, u16)>, id: Seq<char>) -> int
    recommends
        has_entry(s, id),
    decreases s.len(),
{
    if s.len() == 0 {
        0
    } else if s[0].0 == id {
        0
    } else {
        1 + first_index_of(s.skip(1), id)
    }
}

/// The score stored for `id`, if any entry carries it.
pub open spec fn score_of(s: Seq<(Seq<char>, u16)>, id: Seq<char>) -> Option<u16> {
    if has_entry(s, id) {
        Some(s[first_index_of(s, id)].1)
    } else {
        None
    }
}

/// The upsert rule: replace the score of the first entry carrying `id`,
/// keeping its position, or append a fresh entry at the end.
pub open spec fn upsert_seq(s: Seq<(Seq<char>, u16)>, id: Seq<char>, score: u16) -> Seq<
    (Seq<char>, u16),
> {
    if has_entry(s, id) {
        s.update(first_index_of(s, id), (id, score))
    } else {
        s.push((id, score))
    }
}

/// The first index of a carried identity is an index, carries the identity,
/// and no earlier entry does.
pub proof fn lemma_first_index_of(s: Seq<(Seq<char>, u16)>, id: Seq<char>)
    requires
        has_entry(s, id),
    ensures
        0 <= first_index_of(s, id) < s.len(),
        s[first_index_of(s, id)].0 == id,
        forall|j: int| 0 <= j < first_index_of(s, id) ==> s[j].0 != id,
    decreases s.len(),
{
    if s.len() > 0 && s[0].0 != id {
        assert(has_entry(s.skip(1), id)) by {
            let w = choose|i: int| 0 <= i < s.len() && s[i].0 == id;
            assert(s.skip(1)[w - 1] == s[w]);
        }
        lemma_first_index_of(s.skip(1), id);
        assert forall|j: int| 0 <= j < first_index_of(s, id) implies s[j].0 != id by {
            if j > 0 {
                assert(s.skip(1)[j - 1] == s[j]);
            }
        }
    }
}

/// The upsert rule keeps distinct identities distinct: it never introduces a
/// duplicate entry.
pub proof fn lemma_upsert_preserves_uniqueness(
    s: Seq<(Seq<char>, u16)>,
    id: Seq<char>,
    score: u16,
)
    ensures
        unique_identities(s) ==> unique_identities(upsert_seq(s, id, score)),
{
    if unique_identities(s) {
        let t = upsert_seq(s, id, score);
        if has_entry(s, id) {
            lemma_first_index_of(s, id);
            let f = first_index_of(s, id);
            assert forall|i: int, j: int| 0 <= i < j < t.len() implies t[i].0 != t[j].0 by {
                assert(s[f].0 == id);
                assert(i != f ==> t[i] == s[i]);
                assert(j != f ==> t[j] == s[j]);
            }
        } else {
            assert forall|i: int, j: int| 0 <= i < j < t.len() implies t[i].0 != t[j].0 by {
                if j == s.len() {
                    assert(t[i] == s[i]);
                }
            }
        }
    }
}

/// The single persisted record: a counter value fixed at creation, the
/// creator's identity, and the leaderboard.
pub struct State {
    pub count: String,
    pub owner: String,
    pub scores: Vec<(String, u16)>,
}

impl State {
    /// The record's invariant: leaderboard identities are pairwise distinct.
    pub open spec fn wf(self) -> bool {
        unique_identities(entries_of(self.scores))
    }

    /// The position of the first leaderboard entry carrying `sender`'s
    /// identity, if one does.
    fn find_entry(&self, sender: &String) -> (r: Option<usize>)
        ensures
            match r {
                Some(i) => has_entry(entries_of(self.scores), sender@) && i == first_index_of(
                    entries_of(self.scores),
                    sender@,
                ),
                None => !has_entry(entries_of(self.scores), sender@),
            },
    {
        let ghost entries = entries_of(self.scores);
        let n = self.scores.len();
        let mut i: usize = 0;
        while i < n
            invariant
                n == self.scores.len(),
                i <= n,
                forall|j: int| 0 <= j < i ==> entries[j].0 != sender@,
                entries == entries_of(self.scores),
            decreases n - i,
        {
            if self.scores[i].0 == *sender {
                proof {
                    assert(entries[i as int].0 == sender@);
                    lemma_first_index_of(entries, sender@);
                }
                return Some(i);
            }
            i = i + 1;
        }
        None
    }

    /// The upsert rule, executed: replace the score of `sender`'s entry in
    /// place if one exists, else append `(sender, score)` at the end. The
    /// counter, the owner, and every other entry are untouched, and distinct
    /// identities stay distinct.
    pub fn upsert_score(&mut self, sender: String, score: u16)
        ensures
            final(self).count@ == old(self).count@,
            final(self).owner@ == old(self).owner@,
            entries_of(final(self).scores) == upsert_seq(
                entries_of(old(self).scores),
                sender@,
                score,
            ),
            old(self).wf() ==> final(self).wf(),
    {
        let ghost entries = entries_of(old(self).scores);
        let ghost sid = sender@;
        match self.find_entry(&sender) {
            Some(i) => {
                proof {
                    lemma_first_index_of(entries, sid);
                }
                self.scores[i].1 = score;
                proof {
                    assert(entries_of(self.scores) =~= entries.update(i as int, (sid, score)));
                }
            },
            None => {
                self.scores.push((sender, score));
                proof {
                    assert(entries_of(self.scores) =~= entries.push((sid, score)));
                }
            },
        }
        proof {
            lemma_upsert_preserves_uniqueness(entries, sid, score);
        }
    }

    /// Build a fresh record: the given counter and owner, an empty
    /// leaderboard.
    pub fn new(count: String, owner: String) -> (s: State)
        ensures
            s.count@ == count@,
            s.owner@ == owner@,
            entries_of(s.scores) == Seq::<(Seq<char>, u16)>::empty(),
            s.wf(),
    {
        let s = State { count, owner, scores: Vec::new() };
        proof {
            assert(entries_of(s.scores) =~= Seq::<(Seq<char>, u16)>::empty());
        }
        s
    }
}

} // verus!
