//! The set of pinned windows.
//!
//! Each pinned window is remembered with the handle of the badge drawn over
//! its title bar. A window is recorded only once the window manager has
//! made it topmost; unpinning forgets it and, while it still exists, takes
//! it out of the topmost band again.

use vstd::prelude::*;
use crate::win::{WinApiError, WindowApi, WindowId, WindowRequest};

verus! {

/// What is remembered about one pinned window.
pub struct PinnedEntry {
    /// Opaque handle of the badge window drawn over the target.
    pub overlay: isize,
}

/// The pinned windows, each with its entry. A window occurs at most once.
pub struct PinnedSet {
    entries: Vec<(WindowId, PinnedEntry)>,
}

/// No window occurs twice in `s`.
pub open spec fn keys_distinct(s: Seq<(WindowId, PinnedEntry)>) -> bool {
    forall|i: int, j: int| 0 <= i < j < s.len() ==> (#[trigger] s[i]).0 != (#[trigger] s[j]).0
}

/// The map from window to entry that the pairs in `s` describe.
pub open spec fn entries_map(s: Seq<(WindowId, PinnedEntry)>) -> Map<WindowId, PinnedEntry>
    decreases s.len(),
{
    if s.len() == 0 {
        Map::empty()
    } else {
        entries_map(s.drop_last()).insert(s.last().0, s.last().1)
    }
}

impl View for PinnedSet {
    type V = Map<WindowId, PinnedEntry>;

    closed spec fn view(&self) -> Map<WindowId, PinnedEntry> {
        entries_map(self.entries@)
    }
}

/// The pairs in `s`, with distinct windows, describe exactly the map `m`.
proof fn lemma_entries_map(s: Seq<(WindowId, PinnedEntry)>)
    requires
        keys_distinct(s),
    ensures
        entries_map(s).dom().finite(),
        entries_map(s).len() == s.len(),
        forall|k: WindowId|
            #![trigger entries_map(s).contains_key(k)]
            entries_map(s).contains_key(k) <==> exists|i: int| 0 <= i < s.len() && s[i].0 == k,
        forall|i: int| 0 <= i < s.len() ==> entries_map(s)[#[trigger] s[i].0] == s[i].1,
    decreases s.len(),
{
    if s.len() > 0 {
        let p = s.drop_last();
        assert(keys_distinct(p));
        lemma_entries_map(p);
        let m = entries_map(p);
        let last = s.last();
        assert(!m.contains_key(last.0)) by {
            if m.contains_key(last.0) {
                let i = choose|i: int| 0 <= i < p.len() && p[i].0 == last.0;
                assert(s[i] == p[i]);
                assert(s[s.len() - 1] == last);
            }
        }
        assert forall|k: WindowId|
            #![trigger entries_map(s).contains_key(k)]
            entries_map(s).contains_key(k) <==> exists|i: int| 0 <= i < s.len() && s[i].0 == k by {
            if entries_map(s).contains_key(k) && k != last.0 {
                let i = choose|i: int| 0 <= i < p.len() && p[i].0 == k;
                assert(s[i] == p[i]);
            }
            if exists|i: int| 0 <= i < s.len() && s[i].0 == k {
                let i = choose|i: int| 0 <= i < s.len() && s[i].0 == k;
                if i < s.len() - 1 {
                    assert(s[i] == p[i]);
                }
            }
        }
        assert forall|i: int| 0 <= i < s.len() implies entries_map(s)[#[trigger] s[i].0]
            == s[i].1 by {
            if i < s.len() - 1 {
                assert(s[i] == p[i]);
                assert(s[i].0 != s[s.len() - 1].0);
            }
        }
    }
}

/// Removing the pair at `i` removes its window from the map.
proof fn lemma_entries_map_remove(s: Seq<(WindowId, PinnedEntry)>, i: int)
    requires
        keys_distinct(s),
        0 <= i < s.len(),
    ensures
        keys_distinct(s.remove(i)),
        entries_map(s.remove(i)) == entries_map(s).remove(s[i].0),
{
    let r = s.remove(i);
    assert forall|a: int, b: int| 0 <= a < b < r.len() implies (#[trigger] r[a]).0 != (
    #[trigger] r[b]).0 by {
        let a2 = if a < i { a } else { a + 1 };
        let b2 = if b < i { b } else { b + 1 };
        assert(r[a] == s[a2]);
        assert(r[b] == s[b2]);
    }
    lemma_entries_map(s);
    lemma_entries_map(r);
    let m = entries_map(s).remove(s[i].0);
    assert forall|k: WindowId| #[trigger] entries_map(r).contains_key(k) <==> m.contains_key(k) by {
        if entries_map(r).contains_key(k) {
            let j = choose|j: int| 0 <= j < r.len() && r[j].0 == k;
            let j2 = if j < i { j } else { j + 1 };
            assert(r[j] == s[j2]);
            assert(entries_map(s).contains_key(s[j2].0));
        }
        if m.contains_key(k) {
            let j = choose|j: int| 0 <= j < s.len() && s[j].0 == k;
            assert(j != i);
            let j2 = if j < i { j } else { j - 1 };
            assert(r[j2] == s[j]);
            assert(entries_map(r).contains_key(r[j2].0));
        }
    }
    assert forall|k: WindowId| #[trigger] entries_map(r).contains_key(k) implies entries_map(r)[k]
        == m[k] by {
        let j = choose|j: int| 0 <= j < r.len() && r[j].0 == k;
        let j2 = if j < i { j } else { j + 1 };
        assert(r[j] == s[j2]);
    }
    assert(entries_map(r) =~= m);
}

/// How pinning `w` with `entry` settles, given the window manager's answer
/// `outcome` to the request to make it topmost: on success the window is
/// added and `Ok(true)` returned; on failure the set stays as it was and
/// the failure is returned.
pub open spec fn pin_settles(
    before: Map<WindowId, PinnedEntry>,
    after: Map<WindowId, PinnedEntry>,
    w: WindowId,
    entry: PinnedEntry,
    outcome: Result<(), WinApiError>,
    r: Result<bool, WinApiError>,
) -> bool {
    match outcome {
        Ok(_) => r == Ok::<bool, WinApiError>(true) && after == before.insert(w, entry),
        Err(e) => r == Err::<bool, WinApiError>(e) && after == before,
    }
}

/// The requests that unpinning a pinned window `w` makes, given the
/// answers: whether `w` is alive, and, only when it is, the request to take
/// it out of the topmost band.
pub open spec fn unpin_requests(w: WindowId, alive: bool, answer: Result<(), WinApiError>) -> Seq<WindowRequest> {
    if alive {
        seq![
            WindowRequest::IsWindow { w, alive },
            WindowRequest::SetTopmost { w, on: false, answer },
        ]
    } else {
        seq![WindowRequest::IsWindow { w, alive }]
    }
}

/// The requests that draining the pairs `ws` makes, in order, given for each
/// window whether it was alive and what taking it out of the topmost band
/// answered.
pub open spec fn drain_requests(
    ws: Seq<(WindowId, PinnedEntry)>,
    alive: Seq<bool>,
    answers: Seq<Result<(), WinApiError>>,
) -> Seq<WindowRequest>
    decreases ws.len(),
{
    if ws.len() == 0 {
        Seq::empty()
    } else {
        drain_requests(ws.drop_last(), alive.drop_last(), answers.drop_last()) + unpin_requests(
            ws.last().0,
            alive.last(),
            answers.last(),
        )
    }
}

impl PinnedSet {
    /// No window occurs twice.
    #[verifier::type_invariant]
    closed spec fn wf(&self) -> bool {
        keys_distinct(self.entries@)
    }

    /// An empty set.
    pub fn new() -> (r: Self)
        ensures
            r@ == Map::<WindowId, PinnedEntry>::empty(),
    {
        PinnedSet { entries: Vec::new() }
    }

    fn find(&self, w: WindowId) -> (r: Option<usize>)
        ensures
            match r {
                Some(i) => i < self.entries@.len() && self.entries@[i as int].0 == w,
                None => forall|i: int| 0 <= i < self.entries@.len() ==> self.entries@[i].0 != w,
            },
    {
        let mut i: usize = 0;
        while i < self.entries.len()
            invariant
                i <= self.entries@.len(),
                forall|j: int| 0 <= j < i ==> self.entries@[j].0 != w,
            decreases self.entries@.len() - i,
        {
            if self.entries[i].0.0 == w.0 {
                return Some(i);
            }
            i = i + 1;
        }
        None
    }

    /// Whether `w` is pinned.
    pub fn contains(&self, w: WindowId) -> (r: bool)
        ensures
            r == self@.contains_key(w),
    {
        proof {
            use_type_invariant(self);
            lemma_entries_map(self.entries@);
        }
        self.find(w).is_some()
    }

    /// The number of pinned windows.
    pub fn len(&self) -> (r: usize)
        ensures
            r == self@.len(),
    {
        proof {
            use_type_invariant(self);
            lemma_entries_map(self.entries@);
        }
        self.entries.len()
    }

    /// Whether no window is pinned.
    pub fn is_empty(&self) -> (r: bool)
        ensures
            r == (self@.len() == 0),
    {
        proof {
            use_type_invariant(self);
            lemma_entries_map(self.entries@);
        }
        self.entries.len() == 0
    }

    /// The pinned windows with their entries, each window once.
    pub fn iter(&self) -> (r: &[(WindowId, PinnedEntry)])
        ensures
            keys_distinct(r@),
            entries_map(r@) == self@,
    {
        proof {
            use_type_invariant(self);
        }
        self.entries.as_slice()
    }

    /// Records `w` as pinned with `entry`, given what the request to make it
    /// topmost returned: on success the window is added; on failure nothing
    /// changes and the failure is handed back.
    pub fn record_pin(&mut self, w: WindowId, entry: PinnedEntry, outcome: Result<(), WinApiError>) -> (r: Result<bool, WinApiError>)
        requires
            !old(self)@.contains_key(w),
        ensures
            pin_settles(old(self)@, final(self)@, w, entry, outcome, r),
    {
        proof {
            use_type_invariant(&*self);
        }
        match outcome {
            Ok(_) => {
                let mut entries: Vec<(WindowId, PinnedEntry)> = Vec::new();
                std::mem::swap(&mut entries, &mut self.entries);
                let ghost before = entries@;
                proof {
                    lemma_entries_map(before);
                }
                entries.push((w, entry));
                proof {
                    assert(entries@.drop_last() =~= before);
                    assert forall|i: int, j: int| 0 <= i < j < entries@.len() implies (
                    #[trigger] entries@[i]).0 != (#[trigger] entries@[j]).0 by {
                        if j == before.len() {
                            assert(entries@[i] == before[i]);
                            assert(entries_map(before).contains_key(before[i].0));
                        } else {
                            assert(entries@[i] == before[i]);
                            assert(entries@[j] == before[j]);
                        }
                    }
                }
                self.entries = entries;
                Ok(true)
            },
            Err(e) => Err(e),
        }
    }

    /// Pins `w`: asks `api` to make it topmost, then remembers `entry` for
    /// it. Returns `Ok(false)` and changes nothing, asking nothing, when `w`
    /// is already pinned; when the window manager refuses, returns its error
    /// and changes nothing. The one request made is `set_topmost(w, true)`.
    pub fn pin<A: WindowApi>(&mut self, api: &mut A, w: WindowId, entry: PinnedEntry) -> (r: Result<bool, WinApiError>)
        ensures
            final(api).records_requests() == old(api).records_requests(),
            old(self)@.contains_key(w) ==> {
                &&& r == Ok::<bool, WinApiError>(false)
                &&& final(self)@ == old(self)@
                &&& old(api).records_requests() ==> final(api).requests() == old(api).requests()
            },
            !old(self)@.contains_key(w) ==> exists|o: Result<(), WinApiError>|
                {
                    &&& pin_settles(old(self)@, final(self)@, w, entry, o, r)
                    &&& old(api).records_requests() ==> final(api).requests() == old(
                        api,
                    ).requests().push(WindowRequest::SetTopmost { w, on: true, answer: o })
                },
    {
        if self.contains(w) {
            return Ok(false);
        }
        let ghost before = self@;
        let outcome = api.set_topmost(w, true);
        let ghost o = outcome;
        let r = self.record_pin(w, entry, outcome);
        assert(pin_settles(before, self@, w, entry, o, r));
        r
    }

    /// Unpins `w`: forgets it and returns its entry, or `None` when it was
    /// not pinned, asking nothing. For a pinned window, `api` is asked
    /// whether it still exists, and only if it does, to take it out of the
    /// topmost band; a failure to do so is ignored, the entry is dropped all
    /// the same.
    pub fn unpin<A: WindowApi>(&mut self, api: &mut A, w: WindowId) -> (r: Result<Option<PinnedEntry>, WinApiError>)
        ensures
            final(self)@ == old(self)@.remove(w),
            r == Ok::<Option<PinnedEntry>, WinApiError>(if old(self)@.contains_key(w) { Some(old(self)@[w]) } else { None }),
            final(api).records_requests() == old(api).records_requests(),
            !old(self)@.contains_key(w) ==> (old(api).records_requests() ==> final(api).requests()
                == old(api).requests()),
            old(self)@.contains_key(w) ==> exists|alive: bool, o: Result<(), WinApiError>|
                old(api).records_requests() ==> final(api).requests() == old(api).requests()
                    + #[trigger] unpin_requests(w, alive, o),
    {
        proof {
            use_type_invariant(&*self);
            lemma_entries_map(self.entries@);
        }
        match self.find(w) {
            None => {
                proof {
                    assert(self@ =~= self@.remove(w));
                }
                Ok(None)
            },
            Some(i) => {
                let mut entries: Vec<(WindowId, PinnedEntry)> = Vec::new();
                std::mem::swap(&mut entries, &mut self.entries);
                let ghost before = entries@;
                proof {
                    lemma_entries_map_remove(before, i as int);
                }
                let (_, entry) = entries.remove(i);
                self.entries = entries;
                let (alive, o) = Self::unpin_request(api, w);
                let ghost t = unpin_requests(w, alive, o@);
                assert(old(api).records_requests() ==> api.requests() == old(api).requests() + t);
                Ok(Some(entry))
            },
        }
    }

    /// Asks whether `w` is alive and, if it is, takes it out of the topmost
    /// band; returns the two answers (the second is `Ok` when not asked).
    fn unpin_request<A: WindowApi>(api: &mut A, w: WindowId) -> (r: (bool, Ghost<Result<(), WinApiError>>))
        ensures
            final(api).records_requests() == old(api).records_requests(),
            old(api).records_requests() ==> final(api).requests() == old(api).requests()
                + unpin_requests(w, r.0, r.1@),
    {
        let alive = api.is_window(w);
        if alive {
            let o = api.set_topmost(w, false);
            let ghost g = o;
            proof {
                assert(old(api).records_requests() ==> api.requests() =~= old(api).requests()
                    + unpin_requests(w, alive, g));
            }
            (alive, Ghost(g))
        } else {
            proof {
                assert(old(api).records_requests() ==> api.requests() =~= old(api).requests()
                    + unpin_requests(w, alive, Ok(())));
            }
            (alive, Ghost(Ok(())))
        }
    }

    /// Unpins every window and returns all entries, each window once, so
    /// that the caller can destroy the badges. For each returned window in
    /// turn, `api` is asked whether it still exists and, only if it does, to
    /// take it out of the topmost band; failures are ignored. No other
    /// request is made.
    pub fn drain<A: WindowApi>(&mut self, api: &mut A) -> (r: Vec<(WindowId, PinnedEntry)>)
        ensures
            final(self)@ == Map::<WindowId, PinnedEntry>::empty(),
            keys_distinct(r@),
            entries_map(r@) == old(self)@,
            r@.len() == old(self)@.len(),
            final(api).records_requests() == old(api).records_requests(),
            exists|alive: Seq<bool>, answers: Seq<Result<(), WinApiError>>|
                {
                    &&& alive.len() == r@.len()
                    &&& answers.len() == r@.len()
                    &&& old(api).records_requests() ==> final(api).requests() == old(
                        api,
                    ).requests() + #[trigger] drain_requests(r@, alive, answers)
                },
    {
        proof {
            use_type_invariant(&*self);
            lemma_entries_map(self.entries@);
        }
        let mut drained: Vec<(WindowId, PinnedEntry)> = Vec::new();
        std::mem::swap(&mut drained, &mut self.entries);
        let ghost mut alive: Seq<bool> = Seq::empty();
        let ghost mut answers: Seq<Result<(), WinApiError>> = Seq::empty();
        let mut i: usize = 0;
        while i < drained.len()
            invariant
                i <= drained@.len(),
                alive.len() == i,
                answers.len() == i,
                api.records_requests() == old(api).records_requests(),
                old(api).records_requests() ==> api.requests() == old(api).requests()
                    + drain_requests(drained@.take(i as int), alive, answers),
            decreases drained@.len() - i,
        {
            let w = drained[i].0;
            let ghost mid = api.requests();
            let (a, o) = Self::unpin_request(api, w);
            proof {
                let t = drained@.take(i + 1);
                assert(t.drop_last() =~= drained@.take(i as int));
                assert(t.last() == drained@[i as int]);
                assert(alive.push(a).drop_last() =~= alive);
                assert(answers.push(o@).drop_last() =~= answers);
                alive = alive.push(a);
                answers = answers.push(o@);
                assert(drain_requests(t, alive, answers) == drain_requests(
                    drained@.take(i as int),
                    alive.drop_last(),
                    answers.drop_last(),
                ) + unpin_requests(w, a, o@));
                assert(old(api).records_requests() ==> api.requests() =~= old(api).requests()
                    + drain_requests(t, alive, answers));
            }
            i = i + 1;
        }
        proof {
            assert(drained@.take(drained@.len() as int) =~= drained@);
            let t = drain_requests(drained@, alive, answers);
            assert(old(api).records_requests() ==> api.requests() == old(api).requests() + t);
        }
        drained
    }
}

impl Default for PinnedSet {
    /// An empty set.
    fn default() -> (r: Self)
        ensures
            r@ == Map::<WindowId, PinnedEntry>::empty(),
    {
        PinnedSet::new()
    }
}

/// Pinning a window that was not pinned and then unpinning it gives back
/// the set as it was, and unpinning hands back the entry that pinning
/// stored.
pub proof fn lemma_pin_then_unpin_round_trips(m: Map<WindowId, PinnedEntry>, w: WindowId, entry: PinnedEntry)
    requires
        !m.contains_key(w),
    ensures
        m.insert(w, entry).remove(w) == m,
        m.insert(w, entry).contains_key(w),
        m.insert(w, entry)[w] == entry,
{
    assert(m.insert(w, entry).remove(w) =~= m);
}

} // verus!
