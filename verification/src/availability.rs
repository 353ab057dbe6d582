//! Availability: whether the requested audio mode exists for a show,
//! how far it reaches, and the write ordering of the availability
//! cache.
//!
//! The provider's search and episode listing are mode-independent;
//! only an episode's languages row says whether a dub exists. The
//! languages fetches stay with the caller: the functions here decide
//! which row to ask next and what the answers mean.

use vstd::prelude::*;
use crate::error::{AniError, is_provider_block_spec};
use crate::text::{push_str, str_eq, to_owned_string};

verus! {

// ---------------------------------------------------------------------
// One row's answer
// ---------------------------------------------------------------------

/// What one languages fetch says about the requested mode.
#[derive(Debug, Clone, PartialEq, Eq)]
pub enum RowVerdict {
    /// The row answered: it carries the mode, or it does not.
    Has(bool),
    /// An answered not-found: a stale episode id the provider no longer
    /// serves. A verdict about the row, not about the mode.
    Dead,
    /// Weather: the fetch learned nothing.
    Weather(AniError),
}

/// The verdict of one languages fetch.
pub open spec fn row_verdict_spec(answer: Result<bool, AniError>) -> RowVerdict {
    match answer {
        Ok(has) => RowVerdict::Has(has),
        Err(e) => if e is Upstream && !is_provider_block_spec(e) {
            RowVerdict::Dead
        } else {
            RowVerdict::Weather(e)
        },
    }
}

/// Read one languages fetch: an answered non-block status is a dead
/// row; a block or a transport failure is weather.
pub fn row_verdict(answer: Result<bool, AniError>) -> (r: RowVerdict)
    ensures
        r == row_verdict_spec(answer),
{
    match answer {
        Ok(has) => RowVerdict::Has(has),
        Err(e) => {
            let dead = match &e {
                AniError::Upstream { .. } => !e.is_provider_block(),
                _ => false,
            };
            if dead {
                RowVerdict::Dead
            } else {
                RowVerdict::Weather(e)
            }
        },
    }
}

// ---------------------------------------------------------------------
// Whether the mode exists
// ---------------------------------------------------------------------

/// How many leading rows a presence check asks before giving up on a
/// listing of dead rows.
pub const MODE_PROBE_ROWS: usize = 8;

/// The next move of a presence check.
#[derive(Debug, Clone, PartialEq, Eq)]
pub enum ModeStep {
    /// Fetch this row's languages next.
    AskRow(usize),
    /// The check is over: `Some(has)` is an answered verdict the caller
    /// may cache, `None` says the provider said nothing about the mode.
    Verdict(Option<bool>),
    /// Weather: propagate it, persist nothing.
    Failed(AniError),
}

/// How many rows a presence check may ask of a listing.
pub open spec fn probe_rows(len: usize) -> usize {
    if len < MODE_PROBE_ROWS {
        len
    } else {
        MODE_PROBE_ROWS
    }
}

/// The first move of a presence check over a listing of `len` rows.
pub open spec fn mode_first_spec(len: usize) -> ModeStep {
    if len == 0 {
        ModeStep::Verdict(Some(false))
    } else {
        ModeStep::AskRow(0)
    }
}

/// The first move of a presence check: an empty listing carries
/// nothing, else ask the first row.
pub fn mode_first(len: usize) -> (r: ModeStep)
    ensures
        r == mode_first_spec(len),
{
    if len == 0 {
        ModeStep::Verdict(Some(false))
    } else {
        ModeStep::AskRow(0)
    }
}

/// The move after row `asked` answered.
pub open spec fn mode_next_spec(asked: usize, len: usize, answer: Result<bool, AniError>) -> ModeStep {
    match row_verdict_spec(answer) {
        RowVerdict::Has(has) => ModeStep::Verdict(Some(has)),
        RowVerdict::Weather(e) => ModeStep::Failed(e),
        RowVerdict::Dead => if asked + 1 < probe_rows(len) {
            ModeStep::AskRow((asked + 1) as usize)
        } else {
            ModeStep::Verdict(None)
        },
    }
}

/// The move after row `asked` of a `len`-row listing answered: the
/// first live row decides; a dead row is stepped over to the next one,
/// at most [`MODE_PROBE_ROWS`] rows in all; weather propagates.
pub fn mode_next(asked: usize, len: usize, answer: Result<bool, AniError>) -> (r: ModeStep)
    requires
        asked < len,
    ensures
        r == mode_next_spec(asked, len, answer),
{
    let bound = if len < MODE_PROBE_ROWS {
        len
    } else {
        MODE_PROBE_ROWS
    };
    match row_verdict(answer) {
        RowVerdict::Has(has) => ModeStep::Verdict(Some(has)),
        RowVerdict::Weather(e) => ModeStep::Failed(e),
        RowVerdict::Dead => if asked + 1 < bound {
            ModeStep::AskRow(asked + 1)
        } else {
            ModeStep::Verdict(None)
        },
    }
}

/// A presence check only ever asks rows of the listing, one after the
/// other, never beyond the probe bound.
pub proof fn law_presence_check_is_bounded(asked: usize, len: usize, answer: Result<bool, AniError>)
    requires
        asked < len,
    ensures
        mode_first_spec(len) matches ModeStep::AskRow(i) ==> i == 0 && i < probe_rows(len),
        mode_next_spec(asked, len, answer) matches ModeStep::AskRow(i) ==> i == asked + 1 && i
            < probe_rows(len) && i < len,
        probe_rows(len) <= MODE_PROBE_ROWS,
{
}

/// A verdict of absence is only ever read off an answered row, never
/// off dead rows or weather.
pub proof fn law_absence_is_an_answered_negative(
    asked: usize,
    len: usize,
    answer: Result<bool, AniError>,
)
    requires
        asked < len,
        mode_next_spec(asked, len, answer) == ModeStep::Verdict(Some(false)),
    ensures
        answer == Ok::<bool, AniError>(false),
{
}

// ---------------------------------------------------------------------
// How far the mode reaches
// ---------------------------------------------------------------------

/// Where a coverage search stands. The rows carrying the mode are a
/// prefix of the listing (a provider dubs in listing order); the
/// search finds its length by bisection.
#[derive(Debug, Clone, Copy, PartialEq, Eq, Structural)]
pub enum PrefixSearch {
    /// The last row has been asked.
    AskedLast { len: usize },
    /// The first row has been asked (the last one lacks the mode).
    AskedFirst { len: usize },
    /// Row `lo` is covered, row `hi` is not, and row `mid` has been
    /// asked.
    Bisecting { lo: usize, hi: usize, mid: usize },
    /// The search is over.
    Done { covered: usize },
}

/// The row a search asks about next, if any.
pub open spec fn asked_row(s: PrefixSearch) -> Option<usize> {
    match s {
        PrefixSearch::AskedLast { len } => Some((len - 1) as usize),
        PrefixSearch::AskedFirst { .. } => Some(0),
        PrefixSearch::Bisecting { mid, .. } => Some(mid),
        PrefixSearch::Done { .. } => None,
    }
}

/// The bisection state between `lo` and `hi`: done when adjacent.
pub open spec fn bisect_spec(lo: usize, hi: usize) -> PrefixSearch {
    if hi - lo > 1 {
        PrefixSearch::Bisecting { lo, hi, mid: (lo + (hi - lo) / 2) as usize }
    } else {
        PrefixSearch::Done { covered: (lo + 1) as usize }
    }
}

/// A search state's internal consistency.
pub open spec fn prefix_wf(s: PrefixSearch) -> bool {
    match s {
        PrefixSearch::AskedLast { len } => len > 0,
        PrefixSearch::AskedFirst { len } => len > 1,
        PrefixSearch::Bisecting { lo, hi, mid } => lo < mid < hi,
        PrefixSearch::Done { .. } => true,
    }
}

/// The state after the asked row answered whether it is covered.
pub open spec fn prefix_step_spec(s: PrefixSearch, covered: bool) -> PrefixSearch {
    match s {
        PrefixSearch::AskedLast { len } => if covered {
            PrefixSearch::Done { covered: len }
        } else if len == 1 {
            PrefixSearch::Done { covered: 0 }
        } else {
            PrefixSearch::AskedFirst { len }
        },
        PrefixSearch::AskedFirst { len } => if !covered {
            PrefixSearch::Done { covered: 0 }
        } else {
            bisect_spec(0, (len - 1) as usize)
        },
        PrefixSearch::Bisecting { lo, hi, mid } => if covered {
            bisect_spec(mid, hi)
        } else {
            bisect_spec(lo, mid)
        },
        PrefixSearch::Done { covered: c } => PrefixSearch::Done { covered: c },
    }
}

/// Start a coverage search over a listing of `len` rows: an empty
/// listing is covered nowhere; otherwise the last row is asked first,
/// since a covered last row means the whole listing is.
pub fn prefix_start(len: usize) -> (s: PrefixSearch)
    ensures
        prefix_wf(s),
        s == (if len == 0 {
            PrefixSearch::Done { covered: 0 }
        } else {
            PrefixSearch::AskedLast { len }
        }),
{
    if len == 0 {
        PrefixSearch::Done { covered: 0 }
    } else {
        PrefixSearch::AskedLast { len }
    }
}

/// The row the search wants answered next.
pub fn prefix_asked_row(s: PrefixSearch) -> (r: Option<usize>)
    requires
        prefix_wf(s),
    ensures
        r == asked_row(s),
{
    match s {
        PrefixSearch::AskedLast { len } => Some(len - 1),
        PrefixSearch::AskedFirst { .. } => Some(0),
        PrefixSearch::Bisecting { mid, .. } => Some(mid),
        PrefixSearch::Done { .. } => None,
    }
}

fn bisect(lo: usize, hi: usize) -> (s: PrefixSearch)
    requires
        lo < hi,
    ensures
        s == bisect_spec(lo, hi),
        prefix_wf(s),
{
    if hi - lo > 1 {
        PrefixSearch::Bisecting { lo, hi, mid: lo + (hi - lo) / 2 }
    } else {
        PrefixSearch::Done { covered: lo + 1 }
    }
}

/// Feed the search the asked row's answer (an answered not-found row
/// counts as covered: see [`row_verdict`]).
pub fn prefix_step(s: PrefixSearch, covered: bool) -> (r: PrefixSearch)
    requires
        prefix_wf(s),
    ensures
        r == prefix_step_spec(s, covered),
        prefix_wf(r),
{
    match s {
        PrefixSearch::AskedLast { len } => if covered {
            PrefixSearch::Done { covered: len }
        } else if len == 1 {
            PrefixSearch::Done { covered: 0 }
        } else {
            PrefixSearch::AskedFirst { len }
        },
        PrefixSearch::AskedFirst { len } => if !covered {
            PrefixSearch::Done { covered: 0 }
        } else {
            bisect(0, len - 1)
        },
        PrefixSearch::Bisecting { lo, hi, mid } => if covered {
            bisect(mid, hi)
        } else {
            bisect(lo, mid)
        },
        PrefixSearch::Done { covered: c } => PrefixSearch::Done { covered: c },
    }
}

/// What a search state already knows about a covered prefix of length
/// `p` of a listing: the rows it has settled agree with it.
pub open spec fn consistent(s: PrefixSearch, p: nat) -> bool {
    match s {
        PrefixSearch::AskedLast { len } => p <= len,
        PrefixSearch::AskedFirst { len } => p < len,
        PrefixSearch::Bisecting { lo, hi, .. } => lo < p <= hi,
        PrefixSearch::Done { covered } => covered == p,
    }
}

/// How many more answers a search may still need.
pub open spec fn remaining(s: PrefixSearch) -> nat {
    match s {
        PrefixSearch::AskedLast { len } => len as nat + 2,
        PrefixSearch::AskedFirst { len } => len as nat + 1,
        PrefixSearch::Bisecting { lo, hi, .. } => (hi - lo) as nat,
        PrefixSearch::Done { .. } => 0,
    }
}

/// When the rows carrying the mode are exactly the first `p`, every
/// truthful answer keeps the search consistent with `p` and brings it
/// closer to the end; a finished search reports exactly `p`.
pub proof fn law_bisection_finds_the_covered_prefix(s: PrefixSearch, p: nat)
    requires
        prefix_wf(s),
        consistent(s, p),
        !(s is Done),
    ensures
        ({
            let covered = (asked_row(s)->0 as nat) < p;
            let r = prefix_step_spec(s, covered);
            &&& consistent(r, p)
            &&& remaining(r) < remaining(s)
            &&& (r matches PrefixSearch::Done { covered: c } ==> c == p)
        }),
{
}

/// A search over `len` rows starts consistent with any covered prefix.
pub proof fn law_every_prefix_is_reachable(len: usize, p: nat)
    requires
        p <= len,
    ensures
        consistent(
            if len == 0 {
                PrefixSearch::Done { covered: 0 }
            } else {
                PrefixSearch::AskedLast { len }
            },
            p,
        ),
{
}

// ---------------------------------------------------------------------
// Write ordering
// ---------------------------------------------------------------------

/// The availability cache row of a show's mode.
pub open spec fn cache_key_spec(kitsu_id: Seq<char>, mode: Seq<char>) -> Seq<char> {
    "availability:"@ + kitsu_id + ":"@ + mode
}

/// The availability cache row of a show's mode.
pub fn cache_key(kitsu_id: &str, mode: &str) -> (k: String)
    ensures
        k@ == cache_key_spec(kitsu_id@, mode@),
{
    let mut k = to_owned_string("availability:");
    push_str(&mut k, kitsu_id);
    push_str(&mut k, ":");
    push_str(&mut k, mode);
    k
}

/// Per-row count of cache writes made by cache-bypassing refreshes.
/// Keyed per show and mode: a refresh of the dub row says nothing
/// about the sub row.
#[derive(Debug, Clone)]
pub struct AvailabilityRefreshes {
    entries: Vec<(String, u64)>,
}

impl AvailabilityRefreshes {
    /// The counters, by row key.
    pub closed spec fn view_map(&self) -> Map<Seq<char>, u64> {
        Map::new(
            |k: Seq<char>| exists|i: int| 0 <= i < self.entries@.len() && self.entries@[i].0@ == k,
            |k: Seq<char>|
                self.entries@[choose|i: int| 0 <= i < self.entries@.len() && self.entries@[i].0@
                    == k].1,
        )
    }

    /// No row key is listed twice.
    pub closed spec fn wf(&self) -> bool {
        forall|i: int, j: int|
            0 <= i < j < self.entries@.len() ==> self.entries@[i].0@ != self.entries@[j].0@
    }

    /// How many refreshes have written a row.
    pub open spec fn generation_spec(&self, key: Seq<char>) -> u64 {
        if self.view_map().contains_key(key) {
            self.view_map()[key]
        } else {
            0
        }
    }

    /// An empty map.
    pub fn new() -> (r: Self)
        ensures
            r.wf(),
            r.view_map() == Map::<Seq<char>, u64>::empty(),
    {
        let r = AvailabilityRefreshes { entries: Vec::new() };
        proof {
            assert(r.view_map() =~= Map::<Seq<char>, u64>::empty());
        }
        r
    }

    fn position(&self, key: &str) -> (r: Option<usize>)
        requires
            self.wf(),
        ensures
            match r {
                Some(i) => i < self.entries@.len() && self.entries@[i as int].0@ == key@,
                None => forall|i: int| 0 <= i < self.entries@.len() ==> self.entries@[i].0@ != key@,
            },
    {
        let mut i: usize = 0;
        while i < self.entries.len()
            invariant
                i <= self.entries@.len(),
                forall|j: int| 0 <= j < i ==> self.entries@[j].0@ != key@,
            decreases self.entries@.len() - i,
        {
            if str_eq(self.entries[i].0.as_str(), key) {
                return Some(i);
            }
            i = i + 1;
        }
        None
    }

    /// How many refreshes have written this row. Captured by a lookup
    /// before it goes out, and read again before it writes.
    pub fn generation(&self, key: &str) -> (r: u64)
        requires
            self.wf(),
        ensures
            r == self.generation_spec(key@),
    {
        match self.position(key) {
            Some(i) => {
                proof {
                    let w = choose|w: int| 0 <= w < self.entries@.len() && self.entries@[w].0@
                        == key@;
                    if w != i {
                        if w < i {
                            assert(self.entries@[w].0@ != self.entries@[i as int].0@);
                        } else {
                            assert(self.entries@[i as int].0@ != self.entries@[w].0@);
                        }
                    }
                }
                self.entries[i].1
            },
            None => 0,
        }
    }

    /// Record that a refresh is writing this row.
    pub fn bump(&mut self, key: &str)
        requires
            old(self).wf(),
            old(self).generation_spec(key@) < u64::MAX,
        ensures
            final(self).wf(),
            final(self).view_map() == old(self).view_map().insert(
                key@,
                (old(self).generation_spec(key@) + 1) as u64,
            ),
    {
        let ghost before = self.view_map();
        let ghost old_entries = self.entries@;
        match self.position(key) {
            Some(i) => {
                let ghost g = self.generation_spec(key@);
                proof {
                    let w = choose|w: int| 0 <= w < old_entries.len() && old_entries[w].0@ == key@;
                    if w != i {
                        if w < i {
                            assert(old_entries[w].0@ != old_entries[i as int].0@);
                        } else {
                            assert(old_entries[i as int].0@ != old_entries[w].0@);
                        }
                    }
                    assert(g == old_entries[i as int].1);
                }
                let n = self.entries[i].1 + 1;
                let k = self.entries[i].0.clone();
                self.entries.set(i, (k, n));
                proof {
                    assert(self.entries@ == old_entries.update(i as int, (k, n)));
                    assert forall|a: int, b: int|
                        0 <= a < b < self.entries@.len() implies self.entries@[a].0@
                        != self.entries@[b].0@ by {
                        if a != i && b != i {
                            assert(self.entries@[a] == old_entries[a]);
                            assert(self.entries@[b] == old_entries[b]);
                        } else if a == i {
                            assert(self.entries@[b] == old_entries[b]);
                            assert(old_entries[a].0@ != old_entries[b].0@);
                        } else {
                            assert(self.entries@[a] == old_entries[a]);
                            assert(old_entries[a].0@ != old_entries[b].0@);
                        }
                    }
                    self.lemma_map_after_update(old_entries, i as int, key@, n, before);
                }
            },
            None => {
                let k = to_owned_string(key);
                self.entries.push((k, 1));
                proof {
                    assert(self.entries@ == old_entries.push((k, 1u64)));
                    assert forall|a: int, b: int|
                        0 <= a < b < self.entries@.len() implies self.entries@[a].0@
                        != self.entries@[b].0@ by {
                        if b < old_entries.len() {
                            assert(self.entries@[a] == old_entries[a]);
                            assert(self.entries@[b] == old_entries[b]);
                        } else {
                            assert(self.entries@[a] == old_entries[a]);
                        }
                    }
                    self.lemma_map_after_push(old_entries, key@, before);
                }
            },
        }
    }

    proof fn lemma_map_after_update(
        &self,
        old_entries: Seq<(String, u64)>,
        i: int,
        key: Seq<char>,
        n: u64,
        before: Map<Seq<char>, u64>,
    )
        requires
            0 <= i < old_entries.len(),
            old_entries[i].0@ == key,
            self.entries@.len() == old_entries.len(),
            self.entries@[i].0@ == key,
            self.entries@[i].1 == n,
            forall|j: int| 0 <= j < old_entries.len() && j != i ==> self.entries@[j] == old_entries[j],
            self.wf(),
            forall|a: int, b: int|
                0 <= a < b < old_entries.len() ==> old_entries[a].0@ != old_entries[b].0@,
            before == Map::new(
                |k: Seq<char>| exists|j: int| 0 <= j < old_entries.len() && old_entries[j].0@ == k,
                |k: Seq<char>|
                    old_entries[choose|j: int| 0 <= j < old_entries.len() && old_entries[j].0@
                        == k].1,
            ),
        ensures
            self.view_map() == before.insert(key, n),
    {
        let m = self.view_map();
        assert forall|k: Seq<char>| #[trigger] m.contains_key(k) == before.insert(
            key,
            n,
        ).contains_key(k) by {
            if m.contains_key(k) {
                let j = choose|j: int| 0 <= j < self.entries@.len() && self.entries@[j].0@ == k;
                if j != i {
                    assert(old_entries[j].0@ == k);
                }
            }
            if before.contains_key(k) {
                let j = choose|j: int| 0 <= j < old_entries.len() && old_entries[j].0@ == k;
                if j != i {
                    assert(self.entries@[j].0@ == k);
                } else {
                    assert(self.entries@[i].0@ == k);
                }
            }
            if k == key {
                assert(self.entries@[i].0@ == k);
            }
        }
        assert forall|k: Seq<char>| #[trigger] m.contains_key(k) implies m[k] == before.insert(
            key,
            n,
        )[k] by {
            let j = choose|j: int| 0 <= j < self.entries@.len() && self.entries@[j].0@ == k;
            if k == key {
                if j != i {
                    if j < i {
                        assert(self.entries@[j].0@ != self.entries@[i].0@);
                    } else {
                        assert(self.entries@[i].0@ != self.entries@[j].0@);
                    }
                }
            } else {
                assert(j != i);
                assert(old_entries[j].0@ == k);
                let j2 = choose|j2: int| 0 <= j2 < old_entries.len() && old_entries[j2].0@ == k;
                if j2 != j {
                    if j2 < j {
                        assert(old_entries[j2].0@ != old_entries[j].0@);
                    } else {
                        assert(old_entries[j].0@ != old_entries[j2].0@);
                    }
                }
            }
        }
        assert(m =~= before.insert(key, n));
    }

    proof fn lemma_map_after_push(
        &self,
        old_entries: Seq<(String, u64)>,
        key: Seq<char>,
        before: Map<Seq<char>, u64>,
    )
        requires
            self.entries@ == old_entries.push((self.entries@.last().0, 1u64)),
            self.entries@.last().0@ == key,
            forall|j: int| 0 <= j < old_entries.len() ==> old_entries[j].0@ != key,
            self.wf(),
            before == Map::new(
                |k: Seq<char>| exists|j: int| 0 <= j < old_entries.len() && old_entries[j].0@ == k,
                |k: Seq<char>|
                    old_entries[choose|j: int| 0 <= j < old_entries.len() && old_entries[j].0@
                        == k].1,
            ),
        ensures
            self.view_map() == before.insert(key, 1),
    {
        let m = self.view_map();
        let last = old_entries.len() as int;
        assert(self.entries@[last].0@ == key);
        assert forall|k: Seq<char>| #[trigger] m.contains_key(k) == before.insert(
            key,
            1,
        ).contains_key(k) by {
            if m.contains_key(k) {
                let j = choose|j: int| 0 <= j < self.entries@.len() && self.entries@[j].0@ == k;
                if j < last {
                    assert(old_entries[j] == self.entries@[j]);
                }
            }
            if before.contains_key(k) {
                let j = choose|j: int| 0 <= j < old_entries.len() && old_entries[j].0@ == k;
                assert(self.entries@[j] == old_entries[j]);
            }
        }
        assert forall|k: Seq<char>| #[trigger] m.contains_key(k) implies m[k] == before.insert(
            key,
            1,
        )[k] by {
            let j = choose|j: int| 0 <= j < self.entries@.len() && self.entries@[j].0@ == k;
            if k == key {
                if j < last {
                    assert(self.entries@[j] == old_entries[j]);
                }
            } else {
                assert(j < last);
                assert(self.entries@[j] == old_entries[j]);
                let j2 = choose|j2: int| 0 <= j2 < old_entries.len() && old_entries[j2].0@ == k;
                assert(self.entries@[j2] == old_entries[j2]);
                if j2 != j {
                    if j2 < j {
                        assert(self.entries@[j2].0@ != self.entries@[j].0@);
                    } else {
                        assert(self.entries@[j].0@ != self.entries@[j2].0@);
                    }
                }
            }
        }
        assert(m =~= before.insert(key, 1));
    }
}

/// The refresh count of the row a lookup is about to ask about, zero
/// when there is no Kitsu id (nothing is cached under one).
pub open spec fn generation_at_start_spec(
    refreshes: AvailabilityRefreshes,
    kitsu_id: Option<Seq<char>>,
    mode: Seq<char>,
) -> u64 {
    match kitsu_id {
        Some(id) => if id.len() == 0 {
            0
        } else {
            refreshes.generation_spec(cache_key_spec(id, mode))
        },
        None => 0,
    }
}

/// The refresh count for the row a lookup is about to ask about,
/// captured before any network work so it can be compared again at
/// write time.
pub fn generation_at_start(refreshes: &AvailabilityRefreshes, kitsu_id: Option<&str>, mode: &str) -> (r:
    u64)
    requires
        refreshes.wf(),
    ensures
        r == generation_at_start_spec(
            *refreshes,
            match kitsu_id {
                Some(s) => Some(s@),
                None => None,
            },
            mode@,
        ),
{
    match kitsu_id {
        Some(id) => if id.is_empty() {
            0
        } else {
            let key = cache_key(id, mode);
            refreshes.generation(key.as_str())
        },
        None => 0,
    }
}

/// Whether a lookup may still write the row it was asked about.
pub open spec fn may_write_cache_spec(
    refreshes: AvailabilityRefreshes,
    key: Seq<char>,
    generation_at_start: u64,
    bypass_cache: bool,
) -> bool {
    bypass_cache || refreshes.generation_spec(key) == generation_at_start
}

/// Whether a lookup may still write the row it was asked about: a
/// refresh always may (between two refreshes the last write wins); an
/// ordinary lookup only if no refresh has written since it went out.
pub fn may_write_cache(
    refreshes: &AvailabilityRefreshes,
    key: &str,
    generation_at_start: u64,
    bypass_cache: bool,
) -> (r: bool)
    requires
        refreshes.wf(),
    ensures
        r == may_write_cache_spec(*refreshes, key@, generation_at_start, bypass_cache),
{
    bypass_cache || refreshes.generation(key) == generation_at_start
}

/// An ordinary lookup that went out before a refresh wrote its row
/// yields to that refresh; a bump on one row leaves every other row's
/// verdict as it was.
pub proof fn law_refresh_ordering(
    before: AvailabilityRefreshes,
    after: AvailabilityRefreshes,
    bumped: Seq<char>,
    key: Seq<char>,
)
    requires
        before.generation_spec(bumped) < u64::MAX,
        after.view_map() == before.view_map().insert(
            bumped,
            (before.generation_spec(bumped) + 1) as u64,
        ),
    ensures
        !may_write_cache_spec(after, bumped, before.generation_spec(bumped), false),
        may_write_cache_spec(after, bumped, before.generation_spec(bumped), true),
        key != bumped ==> after.generation_spec(key) == before.generation_spec(key),
{
}

} // verus!
