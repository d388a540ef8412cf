//! The record store: the four operations a request router calls, over the
//! record's Absent/Present lifecycle.
//!
//! A `RecordStore` stands for the one fixed storage slot the record lives
//! in: `None` before initialization, `Some` record afterwards. `instantiate`
//! writes a fresh record (overwriting any prior one), `try_upsert_score`
//! mutates the leaderboard under the upsert rule, and the two queries return
//! the stored fields verbatim. Every operation that needs an existing record
//! fails with `NotFound`, leaving the slot untouched, when none exists.

use vstd::prelude::*;

use crate::state::{entries_of, upsert_seq, State};
use crate::text::dec_rep;

verus! {

/// How an operation fails: the record is absent where one is required, or
/// the durable backend reported an I/O fault. An in-memory store never
/// raises `Storage`; a host adapter maps its backend's faults to it.
#[derive(Clone, Copy, Debug, PartialEq, Eq, Structural)]
pub enum StoreError {
    NotFound,
    Storage,
}

/// A confirmation event for the router to surface: which operation ran and
/// with what payload.
pub enum Event {
    Instantiated { owner: String, count: String },
    Upserted { player: String, score: u16 },
}

impl Event {
    /// The event confirms an initialization by `owner` with counter `count`.
    pub open spec fn is_instantiated_for(self, owner: Seq<char>, count: Seq<char>) -> bool {
        match self {
            Event::Instantiated { owner: o, count: c } => o@ == owner && c@ == count,
            _ => false,
        }
    }

    /// The event confirms a score submission of `score` by `player`.
    pub open spec fn is_upserted_for(self, player: Seq<char>, score: u16) -> bool {
        match self {
            Event::Upserted { player: p, score: s } => p@ == player && s == score,
            _ => false,
        }
    }

    /// The event as key-value text attributes, scores rendered in decimal.
    pub open spec fn spec_attributes(self) -> Seq<(Seq<char>, Seq<char>)> {
        match self {
            Event::Instantiated { owner, count } => seq![
                ("method"@, "instantiate"@),
                ("owner"@, owner@),
                ("count"@, count@),
                ("scores"@, ""@),
            ],
            Event::Upserted { player, score } => seq![
                ("method"@, "upsert"@),
                ("player"@, player@),
                ("score"@, dec_rep(score as nat)),
            ],
        }
    }

    /// Render the event's attributes.
    pub fn attributes(&self) -> (r: Vec<(String, String)>)
        ensures
            r.deep_view() == self.spec_attributes(),
    {
        let mut r: Vec<(String, String)> = Vec::new();
        match self {
            Event::Instantiated { owner, count } => {
                r.push((String::from_str("method"), String::from_str("instantiate")));
                r.push((String::from_str("owner"), owner.clone()));
                r.push((String::from_str("count"), count.clone()));
                r.push((String::from_str("scores"), String::from_str("")));
            },
            Event::Upserted { player, score } => {
                r.push((String::from_str("method"), String::from_str("upsert")));
                r.push((String::from_str("player"), player.clone()));
                r.push((String::from_str("score"), crate::text::u16_to_string(*score)));
            },
        }
        proof {
            assert(r.deep_view() =~= self.spec_attributes());
        }
        r
    }
}

/// The counter, as a query returns it.
pub struct CountResponse {
    pub count: String,
}

/// The leaderboard, as a query returns it: the stored entries verbatim, in
/// stored order.
pub struct ScoreResponse {
    pub scores: Vec<(String, u16)>,
}

/// A query result reduced to its mathematical content.
pub open spec fn count_result_view(r: Result<CountResponse, StoreError>) -> Result<
    Seq<char>,
    StoreError,
> {
    match r {
        Ok(c) => Ok(c.count@),
        Err(e) => Err(e),
    }
}

/// A leaderboard query result reduced to its mathematical content.
pub open spec fn scores_result_view(r: Result<ScoreResponse, StoreError>) -> Result<
    Seq<(Seq<char>, u16)>,
    StoreError,
> {
    match r {
        Ok(s) => Ok(entries_of(s.scores)),
        Err(e) => Err(e),
    }
}

/// The one storage slot the record lives in.
pub struct RecordStore {
    pub record: Option<State>,
}

impl RecordStore {
    /// A record has been written.
    pub open spec fn present(self) -> bool {
        self.record is Some
    }

    /// The stored record.
    pub open spec fn state(self) -> State
        recommends
            self.present(),
    {
        self.record->Some_0
    }

    /// The store's invariant: whatever record is present satisfies its own.
    pub open spec fn wf(self) -> bool {
        self.present() ==> self.state().wf()
    }

    /// What a counter query returns, as a function of the store.
    pub open spec fn spec_count(self) -> Result<Seq<char>, StoreError> {
        if self.present() {
            Ok(self.state().count@)
        } else {
            Err(StoreError::NotFound)
        }
    }

    /// What a leaderboard query returns, as a function of the store.
    pub open spec fn spec_scores(self) -> Result<Seq<(Seq<char>, u16)>, StoreError> {
        if self.present() {
            Ok(entries_of(self.state().scores))
        } else {
            Err(StoreError::NotFound)
        }
    }

    /// An empty slot: no record has been written yet.
    pub fn new() -> (s: RecordStore)
        ensures
            !s.present(),
            s.wf(),
    {
        RecordStore { record: None }
    }

    /// Create the record: the given counter and owner, an empty leaderboard.
    /// A record already present is silently overwritten.
    pub fn instantiate(&mut self, count: String, caller: String) -> (r: Result<Event, StoreError>)
        ensures
            final(self).present(),
            final(self).wf(),
            final(self).state().count@ == count@,
            final(self).state().owner@ == caller@,
            entries_of(final(self).state().scores) == Seq::<(Seq<char>, u16)>::empty(),
            (r matches Ok(e) && e.is_instantiated_for(caller@, count@)),
    {
        let ev = Event::Instantiated { owner: caller.clone(), count: count.clone() };
        self.record = Some(State::new(count, caller));
        Ok(ev)
    }

    /// Submit a score: update `caller`'s entry in place or append a new one,
    /// leaving the counter, the owner, and every other entry untouched.
    /// Fails with `NotFound`, changing nothing, when no record exists yet.
    pub fn try_upsert_score(&mut self, caller: String, score: u16) -> (r: Result<
        Event,
        StoreError,
    >)
        ensures
            final(self).present() == old(self).present(),
            old(self).present() ==> final(self).state().count@ == old(self).state().count@,
            old(self).present() ==> final(self).state().owner@ == old(self).state().owner@,
            old(self).present() ==> entries_of(final(self).state().scores) == upsert_seq(
                entries_of(old(self).state().scores),
                caller@,
                score,
            ),
            old(self).wf() ==> final(self).wf(),
            old(self).present() ==> (r matches Ok(e) && e.is_upserted_for(caller@, score)),
            !old(self).present() ==> *final(self) == *old(self) && (r matches Err(e) && e
                == StoreError::NotFound),
    {
        match &mut self.record {
            Some(st) => {
                st.upsert_score(caller.clone(), score);
                Ok(Event::Upserted { player: caller, score })
            },
            None => Err(StoreError::NotFound),
        }
    }

    /// Read the counter back, exactly as stored. Fails with `NotFound` when
    /// no record exists yet.
    pub fn query_count(&self) -> (r: Result<CountResponse, StoreError>)
        ensures
            count_result_view(r) == self.spec_count(),
    {
        match &self.record {
            Some(st) => Ok(CountResponse { count: st.count.clone() }),
            None => Err(StoreError::NotFound),
        }
    }

    /// Read the leaderboard back, entry for entry and in stored order.
    /// Fails with `NotFound` when no record exists yet.
    pub fn query_scores(&self) -> (r: Result<ScoreResponse, StoreError>)
        ensures
            scores_result_view(r) == self.spec_scores(),
    {
        match &self.record {
            Some(st) => {
                let ghost entries = entries_of(st.scores);
                let n = st.scores.len();
                let mut out: Vec<(String, u16)> = Vec::new();
                let mut i: usize = 0;
                while i < n
                    invariant
                        n == st.scores.len(),
                        i <= n,
                        entries == entries_of(st.scores),
                        entries_of(out) =~= entries.take(i as int),
                    decreases n - i,
                {
                    let id = st.scores[i].0.clone();
                    let sc = st.scores[i].1;
                    out.push((id, sc));
                    proof {
                        assert(entries[i as int] == (st.scores@[i as int].0@, st.scores@[i as int].1));
                        assert(entries_of(out) =~= entries.take(i as int).push(entries[i as int]));
                        assert(entries_of(out) =~= entries.take(i + 1));
                    }
                    i = i + 1;
                }
                proof {
                    assert(entries_of(out) =~= entries);
                }
                Ok(ScoreResponse { scores: out })
            },
            None => Err(StoreError::NotFound),
        }
    }
}

} // verus!
