//! Persistent application state: the conversion queue and the conversion history.
use vstd::prelude::*;
use std::path::PathBuf;
use crate::queue::{ConversionQueue, Timestamp};
use crate::text::{lowercase, to_lowercase, has_substring, contains};

verus! {

/// The most history entries kept.
pub const HISTORY_LIMIT: usize = 1000;

/// Everything that persists between runs.
#[derive(Debug, Clone)]
pub struct AppState {
    pub queue: ConversionQueue,
    pub history: Vec<HistoryEntry>,
    pub version: u32,
}

/// One finished conversion. Paths are kept as their text.
#[derive(Debug, Clone)]
pub struct HistoryEntry {
    pub input_path: String,
    pub output_path: String,
    pub source_format: String,
    pub target_format: String,
    pub success: bool,
    pub bytes_written: Option<u64>,
    pub duration_ms: Option<u64>,
    pub timestamp: Timestamp,
    pub error: Option<String>,
}

/// The entry mentions `q` (already lower-cased) in one of its paths or formats,
/// ignoring case.
pub open spec fn entry_matches(e: HistoryEntry, q: Seq<char>) -> bool {
    has_substring(lowercase(e.input_path@), q) || has_substring(lowercase(e.output_path@), q) || has_substring(
        lowercase(e.source_format@),
        q,
    ) || has_substring(lowercase(e.target_format@), q)
}

/// The last `HISTORY_LIMIT` entries of `h`.
pub open spec fn most_recent(h: Seq<HistoryEntry>) -> Seq<HistoryEntry> {
    if h.len() > HISTORY_LIMIT {
        h.subrange(h.len() - HISTORY_LIMIT, h.len() as int)
    } else {
        h
    }
}

pub open spec fn entries_view(v: Seq<&HistoryEntry>) -> Seq<HistoryEntry> {
    v.map_values(|e: &HistoryEntry| *e)
}

/// Persistent state manager for the conversion queue and history. Reading and
/// writing the state file is left to the caller; the manager keeps its path.
pub struct StateManager {
    state_path: PathBuf,
    state: AppState,
}

impl StateManager {
    /// The current state.
    pub closed spec fn current(&self) -> AppState {
        self.state
    }

    /// Where the state is saved.
    pub closed spec fn path(&self) -> PathBuf {
        self.state_path
    }

    /// A manager for the state file at `state_path`, starting from the state loaded
    /// from it, or, where there was none, from an empty queue and history (version 1).
    pub fn new(state_path: PathBuf, loaded: Option<AppState>) -> (r: Self)
        ensures
            r.path() == state_path,
            loaded is Some ==> r.current() == loaded.unwrap(),
            loaded is None ==> r.current().queue.items@.len() == 0 && r.current().history@.len() == 0
                && r.current().version == 1,
    {
        let state = match loaded {
            Some(s) => s,
            None => AppState { queue: ConversionQueue::default(), history: Vec::new(), version: 1 },
        };
        StateManager { state_path, state }
    }

    /// Get a reference to the current app state.
    pub fn state(&self) -> (r: &AppState)
        ensures
            *r == self.current(),
    {
        &self.state
    }

    /// Get a mutable reference to the current app state.
    pub fn state_mut(&mut self) -> (r: &mut AppState)
        ensures
            *r == old(self).current(),
            final(self).current() == *final(r),
            final(self).path() == old(self).path(),
    {
        &mut self.state
    }

    /// Where the state is saved.
    pub fn state_path(&self) -> (r: &PathBuf)
        ensures
            *r == self.path(),
    {
        &self.state_path
    }

    /// Add an entry to the conversion history, keeping only the last
    /// `HISTORY_LIMIT` entries.
    pub fn add_history(&mut self, entry: HistoryEntry)
        ensures
            final(self).current().history@ == most_recent(old(self).current().history@.push(entry)),
            final(self).current().queue == old(self).current().queue,
            final(self).current().version == old(self).current().version,
            final(self).path() == old(self).path(),
    {
        self.state.history.push(entry);
        let n = self.state.history.len();
        if n > HISTORY_LIMIT {
            let ghost h = self.state.history@;
            let tail = self.state.history.split_off(n - HISTORY_LIMIT);
            self.state.history = tail;
            assert(self.state.history@ =~= h.subrange(h.len() - HISTORY_LIMIT, h.len() as int));
        }
    }

    /// The history entries that mention `query`, ignoring case, in one of their
    /// paths or formats; in history order.
    pub fn search_history(&self, query: &str) -> (r: Vec<&HistoryEntry>)
        ensures
            entries_view(r@) == self.current().history@.filter(|e: HistoryEntry| entry_matches(e, lowercase(query@))),
    {
        let q = to_lowercase(query);
        let ghost h = self.state.history@;
        let mut r: Vec<&HistoryEntry> = Vec::new();
        let mut i: usize = 0;
        proof {
            reveal_with_fuel(Seq::filter, 1);
            assert(h.take(0) =~= Seq::<HistoryEntry>::empty());
            assert(entries_view(r@) =~= Seq::<HistoryEntry>::empty());
        }
        while i < self.state.history.len()
            invariant
                i <= h.len(),
                h == self.state.history@,
                q@ == lowercase(query@),
                entries_view(r@) == h.take(i as int).filter(|e: HistoryEntry| entry_matches(e, q@)),
            decreases h.len() - i,
        {
            let e = &self.state.history[i];
            let a = to_lowercase(e.input_path.as_str());
            let b = to_lowercase(e.output_path.as_str());
            let c = to_lowercase(e.source_format.as_str());
            let d = to_lowercase(e.target_format.as_str());
            let hit = contains(a.as_str(), q.as_str()) || contains(b.as_str(), q.as_str()) || contains(
                c.as_str(),
                q.as_str(),
            ) || contains(d.as_str(), q.as_str());
            let ghost before = entries_view(r@);
            proof {
                assert(h.take(i + 1) =~= h.take(i as int).push(*e));
                h.take(i as int).lemma_filter_push(*e, |x: HistoryEntry| entry_matches(x, q@));
            }
            if hit {
                r.push(e);
                proof {
                    assert(entries_view(r@) =~= before.push(*e));
                }
            }
            i = i + 1;
        }
        proof {
            assert(h.take(h.len() as int) =~= h);
        }
        r
    }

    /// Clear all history.
    pub fn clear_history(&mut self)
        ensures
            final(self).current().history@.len() == 0,
            final(self).current().queue == old(self).current().queue,
            final(self).current().version == old(self).current().version,
            final(self).path() == old(self).path(),
    {
        self.state.history.clear();
    }
}

} // verus!
