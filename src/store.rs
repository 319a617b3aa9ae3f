//! The event store: records keyed by title, with the write and query paths
//! that the scrape and notify loops share.

use crate::record::{EventListing, RecordView, records_view};
use vstd::prelude::*;

verus! {

/// Titles are unique across the store.
pub open spec fn titles_unique(s: Seq<RecordView>) -> bool {
    forall|i: int, j: int| 0 <= i < s.len() && 0 <= j < s.len() && i != j ==> s[i].title != s[j].title
}

/// Index of the record with this title.
pub open spec fn index_of_title(s: Seq<RecordView>, t: Seq<char>, k: int) -> Option<int>
    decreases s.len() - k,
{
    if k < 0 || k >= s.len() {
        None
    } else if s[k].title == t {
        Some(k)
    } else {
        index_of_title(s, t, k + 1)
    }
}

/// A set posted marker is never cleared by a write.
pub open spec fn merged_posted(old_posted: Option<i64>, new_posted: Option<i64>) -> Option<i64> {
    match old_posted {
        Some(p) => Some(p),
        None => new_posted,
    }
}

/// The store after writing `r`: a record with the same title is replaced,
/// keeping its posted marker; otherwise `r` is added at the end.
pub open spec fn upserted(s: Seq<RecordView>, r: RecordView) -> Seq<RecordView> {
    match index_of_title(s, r.title, 0) {
        Some(i) => s.update(i, RecordView { posted: merged_posted(s[i].posted, r.posted), ..r }),
        None => s.push(r),
    }
}

/// The store after writing the first `n` of `rs` in order.
pub open spec fn upserted_all(s: Seq<RecordView>, rs: Seq<RecordView>, n: int) -> Seq<RecordView>
    decreases n,
{
    if n <= 0 || n > rs.len() {
        s
    } else {
        upserted(upserted_all(s, rs, n - 1), rs[n - 1])
    }
}

/// The store after marking every record whose title is in `titles` as posted at `at`.
pub open spec fn marked(s: Seq<RecordView>, titles: Set<Seq<char>>, at: i64) -> Seq<RecordView> {
    s.map_values(|r: RecordView| if titles.contains(r.title) { RecordView { posted: Some(at), ..r } } else { r })
}

pub open spec fn in_range(r: RecordView, start: i64, end: i64, unposted_only: bool) -> bool {
    start <= r.event_date.instant_ms < end && (!unposted_only || r.posted is None)
}

/// Where a record starting at `t` goes in a list sorted by start: after every
/// record that starts no later.
pub open spec fn insert_pos(acc: Seq<RecordView>, t: i64, k: int) -> int
    decreases acc.len() - k,
{
    if k < 0 || k >= acc.len() || acc[k].event_date.instant_ms > t {
        k
    } else {
        insert_pos(acc, t, k + 1)
    }
}

/// The records among the first `n` of the store that are in range, sorted by
/// start; records that start together keep their store order.
pub open spec fn selection(s: Seq<RecordView>, start: i64, end: i64, unposted_only: bool, n: int) -> Seq<RecordView>
    decreases n,
{
    if n <= 0 || n > s.len() {
        Seq::empty()
    } else {
        let w = selection(s, start, end, unposted_only, n - 1);
        if in_range(s[n - 1], start, end, unposted_only) {
            w.insert(insert_pos(w, s[n - 1].event_date.instant_ms, 0), s[n - 1])
        } else {
            w
        }
    }
}

pub proof fn lemma_insert_pos_bounds(acc: Seq<RecordView>, t: i64, k: int)
    requires
        0 <= k <= acc.len(),
    ensures
        k <= insert_pos(acc, t, k) <= acc.len(),
    decreases acc.len() - k,
{
    if k < acc.len() && acc[k].event_date.instant_ms <= t {
        lemma_insert_pos_bounds(acc, t, k + 1);
    }
}

pub struct EventStore {
    records: Vec<EventListing>,
}

impl View for EventStore {
    type V = Seq<RecordView>;

    closed spec fn view(&self) -> Seq<RecordView> {
        records_view(self.records@)
    }
}

impl EventStore {
    pub open spec fn wf(&self) -> bool {
        titles_unique(self@)
    }

    /// An empty store.
    pub fn new() -> (r: EventStore)
        ensures
            r.wf(),
            r@ == Seq::<RecordView>::empty(),
    {
        let r = EventStore { records: Vec::new() };
        proof { assert(r@ =~= Seq::<RecordView>::empty()); }
        r
    }

    /// Number of records held.
    pub fn len(&self) -> (r: usize)
        ensures
            r == self@.len(),
    {
        self.records.len()
    }

    /// A copy of the `i`-th record, in store order.
    pub fn get(&self, i: usize) -> (r: EventListing)
        requires
            i < self@.len(),
        ensures
            r@ == self@[i as int],
    {
        self.records[i].duplicate()
    }

    /// Position of the record with this title.
    pub fn position_of(&self, title: &String) -> (r: Option<usize>)
        ensures
            match r {
                Some(i) => index_of_title(self@, title@, 0) == Some(i as int) && i < self@.len(),
                None => index_of_title(self@, title@, 0) is None,
            },
    {
        let mut k: usize = 0;
        while k < self.records.len()
            invariant
                k <= self@.len(),
                self@.len() == self.records@.len(),
                index_of_title(self@, title@, 0) == index_of_title(self@, title@, k as int),
            decreases self@.len() - k,
        {
            if self.records[k].title == *title {
                return Some(k);
            }
            k += 1;
        }
        None
    }

    /// Writes `rec`, replacing the record of the same title but keeping its
    /// posted marker. Returns the number of records written.
    pub fn upsert(&mut self, rec: EventListing) -> (r: usize)
        requires
            old(self).wf(),
        ensures
            final(self).wf(),
            final(self)@ == upserted(old(self)@, rec@),
            r == 1,
    {
        let ghost s = self@;
        match self.position_of(&rec.title) {
            Some(i) => {
                let keep = self.records[i].posted;
                let posted = match keep {
                    Some(p) => Some(p),
                    None => rec.posted,
                };
                let new_rec = EventListing { posted, ..rec };
                self.records.set(i, new_rec);
                proof {
                    lemma_index_of_title_found(s, rec@.title, 0);
                    assert(self@ =~= upserted(s, rec@));
                    assert(titles_unique(self@));
                }
            },
            None => {
                self.records.push(rec);
                proof {
                    lemma_index_of_title_absent(s, rec@.title, 0);
                    assert(self@ =~= upserted(s, rec@));
                }
            },
        }
        1
    }

    /// Writes every record of one scrape cycle, in order. Returns the number
    /// of records written.
    pub fn upsert_all(&mut self, records: &Vec<EventListing>) -> (r: usize)
        requires
            old(self).wf(),
        ensures
            final(self).wf(),
            final(self)@ == upserted_all(old(self)@, records_view(records@), records@.len() as int),
            r == records@.len(),
    {
        let ghost s = self@;
        let ghost rs = records_view(records@);
        let mut i: usize = 0;
        while i < records.len()
            invariant
                self.wf(),
                i <= records@.len(),
                rs == records_view(records@),
                self@ == upserted_all(s, rs, i as int),
            decreases records@.len() - i,
        {
            let rec = records[i].duplicate();
            proof { assert(rs[i as int] == rec@); }
            self.upsert(rec);
            i += 1;
        }
        i
    }

    /// Marks every record whose title is in `titles` as posted at `at`, all in one step.
    pub fn mark_posted(&mut self, titles: &Vec<String>, at: i64)
        requires
            old(self).wf(),
        ensures
            final(self).wf(),
            final(self)@ == marked(old(self)@, titles@.map_values(|t: String| t@).to_set(), at),
    {
        let ghost s = self@;
        let ghost ts = titles@.map_values(|t: String| t@).to_set();
        let mut i: usize = 0;
        while i < self.records.len()
            invariant
                i <= self@.len(),
                self@.len() == s.len(),
                self@.len() == self.records@.len(),
                ts == titles@.map_values(|t: String| t@).to_set(),
                forall|k: int| 0 <= k < i ==> self@[k] == marked(s, ts, at)[k],
                forall|k: int| i <= k < self@.len() ==> self@[k] == s[k],
            decreases self@.len() - i,
        {
            let mut hit = false;
            let mut k: usize = 0;
            while k < titles.len()
                invariant
                    k <= titles@.len(),
                    i < self.records@.len(),
                    ts == titles@.map_values(|t: String| t@).to_set(),
                    hit == exists|m: int| 0 <= m < k && titles@[m]@ == self.records@[i as int].title@,
                decreases titles@.len() - k,
            {
                if titles[k] == self.records[i].title {
                    hit = true;
                }
                k += 1;
            }
            proof {
                let t = self.records@[i as int].title@;
                let tv = titles@.map_values(|t: String| t@);
                if hit {
                    let m = choose|m: int| 0 <= m < titles@.len() && titles@[m]@ == t;
                    assert(tv[m] == t);
                    assert(tv.contains(t));
                    assert(ts.contains(t));
                } else {
                    if ts.contains(t) {
                        assert(tv.contains(t));
                        let m = choose|m: int| 0 <= m < tv.len() && #[trigger] tv[m] == t;
                        assert(titles@[m]@ == t);
                    }
                }
            }
            let ghost before = self.records@;
            if hit {
                let old_rec = self.records[i].duplicate();
                let new_rec = EventListing { posted: Some(at), ..old_rec };
                self.records.set(i, new_rec);
                proof {
                    assert(self.records@ == before.update(i as int, new_rec));
                    assert(self@ =~= records_view(before).update(i as int, new_rec@));
                    assert(new_rec@ == RecordView { posted: Some(at), ..s[i as int] });
                }
            }
            proof {
                assert(self@[i as int] == marked(s, ts, at)[i as int]);
            }
            i += 1;
        }
        proof {
            assert(self@ =~= marked(s, ts, at));
        }
    }

    /// The records starting in `[start, end)`, unposted ones only if asked,
    /// sorted by start; records that start together keep their store order.
    pub fn find_in_date_range(&self, start: i64, end: i64, unposted_only: bool) -> (r: Vec<EventListing>)
        ensures
            records_view(r@) == selection(self@, start, end, unposted_only, self@.len() as int),
    {
        let ghost s = self@;
        let mut out: Vec<EventListing> = Vec::new();
        proof { assert(records_view(out@) =~= Seq::<RecordView>::empty()); }
        let mut i: usize = 0;
        while i < self.records.len()
            invariant
                i <= s.len(),
                s == self@,
                s.len() == self.records@.len(),
                records_view(out@) == selection(s, start, end, unposted_only, i as int),
            decreases s.len() - i,
        {
            let rec = &self.records[i];
            if start <= rec.event_date.instant_ms && rec.event_date.instant_ms < end && (!unposted_only
                || rec.posted.is_none()) {
                let t = rec.event_date.instant_ms;
                let ghost w = records_view(out@);
                proof { lemma_insert_pos_bounds(w, t, 0); }
                let mut k: usize = 0;
                while k < out.len() && out[k].event_date.instant_ms <= t
                    invariant
                        k <= out@.len(),
                        w == records_view(out@),
                        insert_pos(w, t, 0) == insert_pos(w, t, k as int),
                    decreases out@.len() - k,
                {
                    k += 1;
                }
                let copy = rec.duplicate();
                out.insert(k, copy);
                proof {
                    assert(records_view(out@) =~= w.insert(k as int, s[i as int]));
                }
            }
            i += 1;
        }
        out
    }
}

pub proof fn lemma_index_of_title_found(s: Seq<RecordView>, t: Seq<char>, k: int)
    requires
        0 <= k,
    ensures
        index_of_title(s, t, k) matches Some(i) ==> k <= i < s.len() && s[i].title == t,
    decreases s.len() - k,
{
    if k < s.len() && s[k].title != t {
        lemma_index_of_title_found(s, t, k + 1);
    }
}

pub proof fn lemma_index_of_title_absent(s: Seq<RecordView>, t: Seq<char>, k: int)
    requires
        0 <= k,
        index_of_title(s, t, k) is None,
    ensures
        forall|j: int| k <= j < s.len() ==> s[j].title != t,
    decreases s.len() - k,
{
    if k < s.len() {
        lemma_index_of_title_absent(s, t, k + 1);
    }
}

} // verus!
