//! Properties that relate several operations of the store and the notifier.

use crate::notify::{
    BASE_THRESHOLD_MS, EVENT_SEPARATOR, THRESHOLD_STEP_MS, WINDOW_MS, accepted, batch_count, body_items,
    due, event_block, post_body, post_title, threshold, title_items, title_piece,
};
use crate::record::RecordView;
use crate::store::{
    index_of_title, in_range, insert_pos, lemma_index_of_title_absent, lemma_index_of_title_found,
    lemma_insert_pos_bounds, marked, merged_posted, selection, titles_unique, upserted,
    upserted_all,
};
use vstd::prelude::*;

verus! {

/// The posted marker of the record with title `t`, if any.
pub open spec fn posted_of(s: Seq<RecordView>, t: Seq<char>) -> Option<i64> {
    match index_of_title(s, t, 0) {
        Some(i) => s[i].posted,
        None => None,
    }
}

proof fn lemma_index_of_unique(s: Seq<RecordView>, t: Seq<char>, i: int, k: int)
    requires
        titles_unique(s),
        0 <= k <= i < s.len(),
        s[i].title == t,
    ensures
        index_of_title(s, t, k) == Some(i),
    decreases i - k,
{
    if k < i {
        assert(s[k].title != t);
        lemma_index_of_unique(s, t, i, k + 1);
    }
}

/// One write: the store keeps unique titles and holds exactly one record
/// with the written title, with the written fields and a posted marker that
/// a set one is never cleared from.
pub proof fn lemma_upsert_effect(s: Seq<RecordView>, r: RecordView)
    requires
        titles_unique(s),
    ensures
        titles_unique(upserted(s, r)),
        index_of_title(upserted(s, r), r.title, 0) matches Some(i) && 0 <= i < upserted(s, r).len()
            && upserted(s, r)[i] == (RecordView { posted: merged_posted(posted_of(s, r.title), r.posted), ..r }),
        forall|t: Seq<char>| t != r.title ==> posted_of(upserted(s, r), t) == posted_of(s, t),
{
    let u = upserted(s, r);
    lemma_index_of_title_found(s, r.title, 0);
    match index_of_title(s, r.title, 0) {
        Some(i) => {
            assert(titles_unique(u));
            lemma_index_of_unique(u, r.title, i, 0);
        },
        None => {
            lemma_index_of_title_absent(s, r.title, 0);
            assert(titles_unique(u));
            lemma_index_of_unique(u, r.title, s.len() as int, 0);
        },
    }
    assert forall|t: Seq<char>| t != r.title implies posted_of(u, t) == posted_of(s, t) by {
        lemma_index_of_title_found(s, t, 0);
        match index_of_title(s, t, 0) {
            Some(j) => {
                lemma_index_of_unique(u, t, j, 0);
            },
            None => {
                lemma_index_of_title_absent(s, t, 0);
                lemma_index_of_title_found(u, t, 0);
            },
        }
    }
}

/// Writing the same title twice leaves one record for it, with the second
/// write's fields; if a posted marker was set before the second write, the
/// record keeps it.
pub proof fn law_upsert_idempotent(s: Seq<RecordView>, r1: RecordView, r2: RecordView)
    requires
        titles_unique(s),
        r1.title == r2.title,
    ensures
        ({
            let u1 = upserted(s, r1);
            let u2 = upserted(u1, r2);
            &&& titles_unique(u2)
            &&& index_of_title(u2, r2.title, 0) matches Some(i) && 0 <= i < u2.len()
                && u2[i] == (RecordView { posted: u2[i].posted, ..r2 })
                && (forall|j: int| 0 <= j < u2.len() && u2[j].title == r2.title ==> j == i)
                && (posted_of(u1, r1.title) is Some ==> u2[i].posted == posted_of(u1, r1.title))
        }),
{
    let u1 = upserted(s, r1);
    lemma_upsert_effect(s, r1);
    lemma_upsert_effect(u1, r2);
}

pub proof fn lemma_selection_members(s: Seq<RecordView>, start: i64, end: i64, unposted_only: bool, n: int)
    ensures
        forall|x: RecordView| #[trigger] selection(s, start, end, unposted_only, n).contains(x) ==> s.contains(x)
            && in_range(x, start, end, unposted_only),
    decreases n,
{
    if n > 0 && n <= s.len() {
        lemma_selection_members(s, start, end, unposted_only, n - 1);
        let w = selection(s, start, end, unposted_only, n - 1);
        if in_range(s[n - 1], start, end, unposted_only) {
            let p = insert_pos(w, s[n - 1].event_date.instant_ms, 0);
            lemma_insert_pos_bounds(w, s[n - 1].event_date.instant_ms, 0);
            let v = w.insert(p, s[n - 1]);
            assert forall|x: RecordView| #[trigger] v.contains(x) implies s.contains(x) && in_range(
                x,
                start,
                end,
                unposted_only,
            ) by {
                let k = choose|k: int| 0 <= k < v.len() && v[k] == x;
                if k < p {
                    assert(v[k] == w[k]);
                    assert(w.contains(x));
                } else if k == p {
                    assert(x == s[n - 1]);
                } else {
                    assert(v[k] == w[k - 1]);
                    assert(w.contains(x));
                }
            }
        }
    }
}

pub proof fn lemma_selection_complete(s: Seq<RecordView>, start: i64, end: i64, unposted_only: bool, n: int)
    requires
        n <= s.len(),
    ensures
        forall|j: int| 0 <= j < n && in_range(s[j], start, end, unposted_only) ==> selection(
            s,
            start,
            end,
            unposted_only,
            n,
        ).contains(#[trigger] s[j]),
    decreases n,
{
    if n > 0 {
        lemma_selection_complete(s, start, end, unposted_only, n - 1);
        let w = selection(s, start, end, unposted_only, n - 1);
        if in_range(s[n - 1], start, end, unposted_only) {
            let p = insert_pos(w, s[n - 1].event_date.instant_ms, 0);
            lemma_insert_pos_bounds(w, s[n - 1].event_date.instant_ms, 0);
            let v = w.insert(p, s[n - 1]);
            assert forall|j: int| 0 <= j < n && in_range(s[j], start, end, unposted_only) implies v.contains(
                #[trigger] s[j],
            ) by {
                if j == n - 1 {
                    assert(v[p] == s[j]);
                } else {
                    assert(w.contains(s[j]));
                    let k = choose|k: int| 0 <= k < w.len() && w[k] == s[j];
                    if k < p {
                        assert(v[k] == s[j]);
                    } else {
                        assert(v[k + 1] == s[j]);
                    }
                }
            }
        }
    }
}

pub open spec fn sorted_by_start(s: Seq<RecordView>) -> bool {
    forall|a: int, b: int| 0 <= a < b < s.len() ==> s[a].event_date.instant_ms <= s[b].event_date.instant_ms
}

proof fn lemma_insert_pos_spot(w: Seq<RecordView>, t: i64, k: int)
    requires
        0 <= k <= w.len(),
        forall|m: int| 0 <= m < k ==> w[m].event_date.instant_ms <= t,
    ensures
        forall|m: int| 0 <= m < insert_pos(w, t, k) ==> w[m].event_date.instant_ms <= t,
        insert_pos(w, t, k) < w.len() ==> w[insert_pos(w, t, k)].event_date.instant_ms > t,
    decreases w.len() - k,
{
    if k < w.len() && w[k].event_date.instant_ms <= t {
        lemma_insert_pos_spot(w, t, k + 1);
    }
}

/// Every range query returns its records in ascending order of start.
pub proof fn law_selection_sorted(s: Seq<RecordView>, start: i64, end: i64, unposted_only: bool, n: int)
    ensures
        sorted_by_start(selection(s, start, end, unposted_only, n)),
    decreases n,
{
    if n > 0 && n <= s.len() {
        law_selection_sorted(s, start, end, unposted_only, n - 1);
        let w = selection(s, start, end, unposted_only, n - 1);
        if in_range(s[n - 1], start, end, unposted_only) {
            let t = s[n - 1].event_date.instant_ms;
            let p = insert_pos(w, t, 0);
            lemma_insert_pos_bounds(w, t, 0);
            lemma_insert_pos_spot(w, t, 0);
            let v = w.insert(p, s[n - 1]);
            assert forall|a: int, b: int| 0 <= a < b < v.len() implies v[a].event_date.instant_ms
                <= v[b].event_date.instant_ms by {
                if b < p {
                    assert(v[a] == w[a] && v[b] == w[b]);
                } else if b == p {
                    assert(v[a] == w[a]);
                } else if a < p {
                    assert(v[a] == w[a] && v[b] == w[b - 1]);
                } else if a == p {
                    assert(v[b] == w[b - 1]);
                    assert(w[p].event_date.instant_ms > t);
                    assert(w[p].event_date.instant_ms <= w[b - 1].event_date.instant_ms);
                } else {
                    assert(v[a] == w[a - 1] && v[b] == w[b - 1]);
                }
            }
        }
    }
}

/// The due query returns exactly the unposted records of the store that
/// start no earlier than now and at most a day later.
pub proof fn law_window(s: Seq<RecordView>, now: i64)
    requires
        now < i64::MAX - WINDOW_MS,
    ensures
        forall|x: RecordView| #[trigger] due(s, now).contains(x) <==> (s.contains(x) && now <= x.event_date.instant_ms
            <= now + WINDOW_MS && x.posted is None),
{
    let end = (now + WINDOW_MS + 1) as i64;
    lemma_selection_members(s, now, end, true, s.len() as int);
    lemma_selection_complete(s, now, end, true, s.len() as int);
    assert forall|x: RecordView| #[trigger] due(s, now).contains(x) <== (s.contains(x) && now
        <= x.event_date.instant_ms <= now + WINDOW_MS && x.posted is None) by {
        if s.contains(x) && now <= x.event_date.instant_ms <= now + WINDOW_MS && x.posted is None {
            let j = choose|j: int| 0 <= j < s.len() && s[j] == x;
            assert(in_range(s[j], now, end, true));
        }
    }
}

/// Every title of `titles` names a record of `s` whose posted marker is set.
pub open spec fn marks_held(s: Seq<RecordView>, titles: Set<Seq<char>>) -> bool {
    forall|t: Seq<char>| #[trigger] titles.contains(t) ==> exists|i: int| 0 <= i < s.len() && s[i].title == t
        && s[i].posted is Some
}

/// Marking a batch whose titles all name records of the store sets their markers.
pub proof fn lemma_mark_sets_marks(s: Seq<RecordView>, titles: Set<Seq<char>>, at: i64)
    requires
        forall|t: Seq<char>| titles.contains(t) ==> exists|i: int| 0 <= i < s.len() && s[i].title == t,
    ensures
        marks_held(marked(s, titles, at), titles),
{
    let m = marked(s, titles, at);
    assert forall|t: Seq<char>| #[trigger] titles.contains(t) implies exists|i: int| 0 <= i < m.len() && m[i].title
        == t && m[i].posted is Some by {
        let i = choose|i: int| 0 <= i < s.len() && s[i].title == t;
        assert(m[i] == RecordView { posted: Some(at), ..s[i] });
    }
}

/// A write never clears a set marker.
pub proof fn lemma_upsert_keeps_marks(s: Seq<RecordView>, titles: Set<Seq<char>>, r: RecordView)
    requires
        titles_unique(s),
        marks_held(s, titles),
    ensures
        titles_unique(upserted(s, r)),
        marks_held(upserted(s, r), titles),
{
    let u = upserted(s, r);
    lemma_upsert_effect(s, r);
    lemma_index_of_title_found(s, r.title, 0);
    assert forall|t: Seq<char>| #[trigger] titles.contains(t) implies exists|i: int| 0 <= i < u.len() && u[i].title
        == t && u[i].posted is Some by {
        let i = choose|i: int| 0 <= i < s.len() && s[i].title == t && s[i].posted is Some;
        match index_of_title(s, r.title, 0) {
            Some(j) => {
                if i == j {
                    assert(u[j].title == t && u[j].posted is Some);
                } else {
                    assert(u[i] == s[i]);
                }
            },
            None => {
                assert(u[i] == s[i]);
            },
        }
    }
}

/// Marking more titles never clears a set marker.
pub proof fn lemma_mark_keeps_marks(s: Seq<RecordView>, titles: Set<Seq<char>>, more: Set<Seq<char>>, at: i64)
    requires
        marks_held(s, titles),
    ensures
        marks_held(marked(s, more, at), titles),
{
    let m = marked(s, more, at);
    assert forall|t: Seq<char>| #[trigger] titles.contains(t) implies exists|i: int| 0 <= i < m.len() && m[i].title
        == t && m[i].posted is Some by {
        let i = choose|i: int| 0 <= i < s.len() && s[i].title == t && s[i].posted is Some;
        assert(m[i].title == t && m[i].posted is Some);
    }
}

/// Any number of writes keeps set markers.
pub proof fn lemma_upsert_all_keeps_marks(s: Seq<RecordView>, titles: Set<Seq<char>>, rs: Seq<RecordView>, n: int)
    requires
        titles_unique(s),
        marks_held(s, titles),
    ensures
        titles_unique(upserted_all(s, rs, n)),
        marks_held(upserted_all(s, rs, n), titles),
    decreases n,
{
    if n > 0 && n <= rs.len() {
        lemma_upsert_all_keeps_marks(s, titles, rs, n - 1);
        lemma_upsert_keeps_marks(upserted_all(s, rs, n - 1), titles, rs[n - 1]);
    }
}

/// No query for unposted records returns a record whose marker is held.
pub proof fn lemma_marked_not_selected(s: Seq<RecordView>, titles: Set<Seq<char>>, start: i64, end: i64)
    requires
        titles_unique(s),
        marks_held(s, titles),
    ensures
        forall|x: RecordView| #[trigger] selection(s, start, end, true, s.len() as int).contains(x)
            ==> !titles.contains(x.title),
{
    lemma_selection_members(s, start, end, true, s.len() as int);
    assert forall|x: RecordView| #[trigger] selection(s, start, end, true, s.len() as int).contains(x) implies !titles.contains(
        x.title,
    ) by {
        let k = choose|k: int| 0 <= k < s.len() && s[k] == x;
        if titles.contains(x.title) {
            let i = choose|i: int| 0 <= i < s.len() && s[i].title == x.title && s[i].posted is Some;
            assert(i == k);
        }
    }
}

/// Once a batch of titles taken from the store is marked posted, no later
/// query for unposted records returns any of them, whatever records are
/// written afterwards and in whatever number: a write never clears a set
/// marker. Further marking keeps markers too (`lemma_mark_keeps_marks`), so
/// this holds across any run of ticks and writes.
pub proof fn law_no_double_notification(
    s: Seq<RecordView>,
    titles: Set<Seq<char>>,
    at: i64,
    rs: Seq<RecordView>,
    start: i64,
    end: i64,
)
    requires
        titles_unique(s),
        forall|t: Seq<char>| titles.contains(t) ==> exists|i: int| 0 <= i < s.len() && s[i].title == t,
    ensures
        ({
            let u = upserted_all(marked(s, titles, at), rs, rs.len() as int);
            forall|x: RecordView| #[trigger] selection(u, start, end, true, u.len() as int).contains(x)
                ==> !titles.contains(x.title)
        }),
{
    let m = marked(s, titles, at);
    assert(titles_unique(m));
    lemma_mark_sets_marks(s, titles, at);
    lemma_upsert_all_keeps_marks(m, titles, rs, rs.len() as int);
    let u = upserted_all(m, rs, rs.len() as int);
    lemma_marked_not_selected(u, titles, start, end);
}

proof fn lemma_batch_count(c: Seq<RecordView>, now: i64, k: int)
    requires
        0 <= k <= c.len(),
    ensures
        k <= batch_count(c, now, k) <= c.len(),
        batch_count(c, now, k) < c.len() ==> !accepted(c, now, batch_count(c, now, k)),
    decreases c.len() - k,
{
    if k < c.len() && accepted(c, now, k) {
        lemma_batch_count(c, now, k + 1);
    }
}

/// After a tick's batch is marked posted, a second tick at the same time
/// posts nothing: every event still due starts at least as late as the one
/// that ended the batch, which was already too far out.
pub proof fn law_second_tick_posts_nothing(s: Seq<RecordView>, now: i64)
    requires
        titles_unique(s),
        now < i64::MAX - WINDOW_MS,
    ensures
        ({
            let c = due(s, now);
            let n = batch_count(c, now, 0);
            let titles = c.take(n).map_values(|e: RecordView| e.title).to_set();
            batch_count(due(marked(s, titles, now), now), now, 0) == 0
        }),
{
    let c = due(s, now);
    let n = batch_count(c, now, 0);
    let tv = c.take(n).map_values(|e: RecordView| e.title);
    let titles = tv.to_set();
    let m = marked(s, titles, now);
    let c2 = due(m, now);
    lemma_batch_count(c, now, 0);
    if c2.len() > 0 {
        let x = c2[0];
        assert(c2.contains(x));
        law_window(m, now);
        let k = choose|k: int| 0 <= k < m.len() && m[k] == x;
        if titles.contains(s[k].title) {
            assert(m[k].posted is Some);
        }
        assert(m[k] == s[k]);
        assert(s.contains(x));
        law_window(s, now);
        assert(c.contains(x));
        let j = choose|j: int| 0 <= j < c.len() && c[j] == x;
        if j < n {
            assert(tv[j] == x.title);
            assert(tv.contains(x.title));
            assert(titles.contains(x.title));
            assert(false);
        }
        law_selection_sorted(s, now, (now + WINDOW_MS + 1) as i64, true, s.len() as int);
        assert(c[n].event_date.instant_ms <= c[j].event_date.instant_ms);
        if n > 1 {
            assert((n - 1) * THRESHOLD_STEP_MS >= 0) by (nonlinear_arith)
                requires
                    n > 1,
            ;
        }
        assert(threshold(n) >= BASE_THRESHOLD_MS);
        assert(!accepted(c2, now, 0));
    }
}

/// A digest of two events: the title names the first event and then the
/// second, and the body is the first event's block, one rule, and the
/// second event's block.
pub proof fn law_two_event_digest(a: RecordView, b: RecordView)
    ensures
        post_title(seq![a, b]) == "[Show Thread] "@ + a.human_date + ":"@ + title_piece(a) + " |"@ + title_piece(b),
        post_body(seq![a, b]) == event_block(a) + EVENT_SEPARATOR@ + event_block(b),
{
    let evs = seq![a, b];
    assert(title_items(evs, 1) == title_piece(a));
    assert(title_items(evs, 2) == title_items(evs, 1) + " |"@ + title_piece(b));
    assert(post_title(evs) =~= "[Show Thread] "@ + a.human_date + ":"@ + title_piece(a) + " |"@ + title_piece(b));
    assert(body_items(evs, 0) == Seq::<char>::empty());
    assert(body_items(evs, 1) =~= event_block(a));
    assert(body_items(evs, 2) == body_items(evs, 1) + EVENT_SEPARATOR@ + event_block(b));
}

} // verus!
