//! The notify loop's decisions: which unposted events are due, how many of
//! them go into one digest, and the digest's title and body.

use crate::record::{EventListing, RecordView, records_view};
use crate::store::{EventStore, selection};
use crate::time::MS_PER_HOUR;
use vstd::prelude::*;

verus! {

/// Events starting within this long of now are eligible.
pub const WINDOW_MS: i64 = 24 * MS_PER_HOUR;

/// The earliest event must start less than this long from now for any post.
pub const BASE_THRESHOLD_MS: i64 = 10 * MS_PER_HOUR;

/// Each event accepted after the first widens the horizon by this much.
pub const THRESHOLD_STEP_MS: i64 = 4 * MS_PER_HOUR;

pub const TABLE_RULE: &'static str = "|------|-----------------------------------------|\n";

pub const EVENT_SEPARATOR: &'static str = "\n---\n\n";

/// How far from now the `k`-th candidate (from 0) may start to be accepted.
pub open spec fn threshold(k: int) -> int {
    BASE_THRESHOLD_MS + (if k > 1 { k - 1 } else { 0 }) * THRESHOLD_STEP_MS
}

pub open spec fn accepted(c: Seq<RecordView>, now: i64, k: int) -> bool {
    c[k].event_date.instant_ms - now < threshold(k)
}

/// Candidates accepted from index `k` on: the batch stops at the first one
/// that starts too far out.
pub open spec fn batch_count(c: Seq<RecordView>, now: i64, k: int) -> int
    decreases c.len() - k,
{
    if k < 0 || k >= c.len() || !accepted(c, now, k) {
        k
    } else {
        batch_count(c, now, k + 1)
    }
}

/// Unposted events starting in `[now, now + WINDOW_MS]`, sorted by start.
pub open spec fn due(s: Seq<RecordView>, now: i64) -> Seq<RecordView> {
    selection(s, now, (now + WINDOW_MS + 1) as i64, true, s.len() as int)
}

pub open spec fn title_piece(e: RecordView) -> Seq<char> {
    " "@ + e.title + " - "@ + e.location
}

pub open spec fn title_items(evs: Seq<RecordView>, n: int) -> Seq<char>
    decreases n,
{
    if n <= 0 {
        Seq::empty()
    } else if n == 1 {
        title_piece(evs[0])
    } else {
        title_items(evs, n - 1) + " |"@ + title_piece(evs[n - 1])
    }
}

/// `[Show Thread] <human date>: <title> - <location> | ...`, empty for no events.
pub open spec fn post_title(evs: Seq<RecordView>) -> Seq<char> {
    if evs.len() == 0 {
        Seq::empty()
    } else {
        "[Show Thread] "@ + evs[0].human_date + ":"@ + title_items(evs, evs.len() as int)
    }
}

pub open spec fn lineup_row(l: Seq<(Seq<char>, Seq<char>)>, k: int) -> Seq<char> {
    if k == 0 {
        "| "@ + l[0].0 + " | "@ + l[0].1 + " |\n"@ + TABLE_RULE@
    } else {
        " "@ + l[k].0 + " | "@ + l[k].1 + "\n"@
    }
}

pub open spec fn lineup_table(l: Seq<(Seq<char>, Seq<char>)>, n: int) -> Seq<char>
    decreases n,
{
    if n <= 0 {
        Seq::empty()
    } else {
        lineup_table(l, n - 1) + lineup_row(l, n - 1)
    }
}

pub open spec fn event_header(e: RecordView) -> Seq<char> {
    "**"@ + e.title + " - "@ + e.location + "**\n\n[DCI Page]("@ + e.url
        + ")\n\n**Lineup & Times**\n\n*All times "@ + e.timezone + " and subject to change*\n\n"@
}

pub open spec fn event_block(e: RecordView) -> Seq<char> {
    event_header(e) + lineup_table(e.lineup, e.lineup.len() as int)
}

pub open spec fn body_items(evs: Seq<RecordView>, n: int) -> Seq<char>
    decreases n,
{
    if n <= 0 {
        Seq::empty()
    } else {
        body_items(evs, n - 1) + (if n > 1 { EVENT_SEPARATOR@ } else { Seq::empty() }) + event_block(evs[n - 1])
    }
}

/// One block per event, a rule between consecutive blocks.
pub open spec fn post_body(evs: Seq<RecordView>) -> Seq<char> {
    body_items(evs, evs.len() as int)
}

pub open spec fn hex_digit(n: int) -> char {
    seq!['0', '1', '2', '3', '4', '5', '6', '7', '8', '9', 'A', 'B', 'C', 'D', 'E', 'F'][n]
}

/// Letters, digits and `*-._` stand for themselves.
pub open spec fn byte_kept(b: u8) -> bool {
    b == 0x2a || b == 0x2d || b == 0x2e || (0x30 <= b <= 0x39) || (0x41 <= b <= 0x5a) || b == 0x5f || (0x61
        <= b <= 0x7a)
}

/// One byte in `application/x-www-form-urlencoded` form: kept, a space as
/// `+`, anything else as `%XX` in upper-case hex.
pub open spec fn encoded_byte(b: u8) -> Seq<char> {
    if byte_kept(b) {
        seq![b as char]
    } else if b == 0x20 {
        seq!['+']
    } else {
        seq!['%', hex_digit(b as int / 16), hex_digit(b as int % 16)]
    }
}

pub open spec fn encoded_bytes(bs: Seq<u8>, n: int) -> Seq<char>
    decreases n,
{
    if n <= 0 || n > bs.len() {
        Seq::empty()
    } else {
        encoded_bytes(bs, n - 1) + encoded_byte(bs[n - 1])
    }
}

/// The text's UTF-8 bytes, each encoded in turn.
pub open spec fn form_encoded(s: Seq<char>) -> Seq<char> {
    encoded_bytes(vstd::utf8::encode_utf8(s), vstd::utf8::encode_utf8(s).len() as int)
}

/// Relies on `url::form_urlencoded::byte_serialize`: each UTF-8 byte of the
/// text kept, turned into `+`, or percent-encoded, in order.
#[verifier::external_body]
fn form_encode(s: &String) -> (r: String)
    ensures
        r@ == form_encoded(s@),
{
    url::form_urlencoded::byte_serialize(s.as_bytes()).collect()
}

/// How many of the sorted candidates go into this tick's batch.
pub fn batch_len(candidates: &Vec<EventListing>, now_ms: i64) -> (n: usize)
    ensures
        n == batch_count(records_view(candidates@), now_ms, 0),
        n <= candidates@.len(),
        forall|k: int| 0 <= k < n ==> accepted(records_view(candidates@), now_ms, k),
        n < candidates@.len() ==> !accepted(records_view(candidates@), now_ms, n as int),
{
    let ghost c = records_view(candidates@);
    let mut k: usize = 0;
    while k < candidates.len()
        invariant
            k <= candidates@.len(),
            c == records_view(candidates@),
            batch_count(c, now_ms, 0) == batch_count(c, now_ms, k as int),
            forall|m: int| 0 <= m < k ==> accepted(c, now_ms, m),
        decreases candidates@.len() - k,
    {
        let extra: i128 = if k > 1 { (k - 1) as i128 } else { 0 };
        let limit: i128 = BASE_THRESHOLD_MS as i128 + extra * THRESHOLD_STEP_MS as i128;
        let gap: i128 = candidates[k].event_date.instant_ms as i128 - now_ms as i128;
        proof { assert(c[k as int] == candidates@[k as int]@); }
        if gap >= limit {
            return k;
        }
        k += 1;
    }
    k
}

/// The digest's title.
pub fn format_title(events: &Vec<EventListing>) -> (r: String)
    ensures
        r@ == post_title(records_view(events@)),
{
    let ghost evs = records_view(events@);
    let mut s = String::new();
    if events.len() == 0 {
        return s;
    }
    s.append("[Show Thread] ");
    s.append(events[0].human_date.as_str());
    s.append(":");
    let ghost head = s@;
    proof { assert(head =~= "[Show Thread] "@ + evs[0].human_date + ":"@); }
    let mut i: usize = 0;
    while i < events.len()
        invariant
            i <= events@.len(),
            events@.len() > 0,
            evs == records_view(events@),
            s@ == head + title_items(evs, i as int),
        decreases events@.len() - i,
    {
        let ghost before = s@;
        if i > 0 {
            s.append(" |");
        }
        s.append(" ");
        s.append(events[i].title.as_str());
        s.append(" - ");
        s.append(events[i].location.as_str());
        proof {
            assert(evs[i as int] == events@[i as int]@);
            if i == 0 {
                assert(s@ =~= head + title_items(evs, 1));
            } else {
                assert(s@ =~= head + title_items(evs, i + 1));
            }
        }
        i += 1;
    }
    s
}

fn append_row(s: &mut String, l: &Vec<(String, String)>, k: usize)
    requires
        k < l@.len(),
    ensures
        final(s)@ == old(s)@ + lineup_row(crate::record::lineup_view(l@), k as int),
{
    let ghost lv = crate::record::lineup_view(l@);
    proof { assert(lv[k as int] == (l@[k as int].0@, l@[k as int].1@)); }
    if k == 0 {
        s.append("| ");
        s.append(l[0].0.as_str());
        s.append(" | ");
        s.append(l[0].1.as_str());
        s.append(" |\n");
        s.append(TABLE_RULE);
        proof { assert(final(s)@ =~= old(s)@ + lineup_row(lv, 0)); }
    } else {
        s.append(" ");
        s.append(l[k].0.as_str());
        s.append(" | ");
        s.append(l[k].1.as_str());
        s.append("\n");
        proof { assert(final(s)@ =~= old(s)@ + lineup_row(lv, k as int)); }
    }
}

fn append_block(s: &mut String, e: &EventListing)
    ensures
        final(s)@ == old(s)@ + event_block(e@),
{
    s.append("**");
    s.append(e.title.as_str());
    s.append(" - ");
    s.append(e.location.as_str());
    s.append("**\n\n[DCI Page](");
    s.append(e.event_url.as_str());
    s.append(")\n\n**Lineup & Times**\n\n*All times ");
    s.append(e.timezone.as_str());
    s.append(" and subject to change*\n\n");
    let ghost head = s@;
    proof { assert(head =~= old(s)@ + event_header(e@)); }
    let ghost lv = crate::record::lineup_view(e.lineup@);
    let mut k: usize = 0;
    while k < e.lineup.len()
        invariant
            k <= e.lineup@.len(),
            lv == crate::record::lineup_view(e.lineup@),
            s@ == head + lineup_table(lv, k as int),
        decreases e.lineup@.len() - k,
    {
        append_row(s, &e.lineup, k);
        proof { assert(s@ =~= head + lineup_table(lv, k + 1)); }
        k += 1;
    }
    proof { assert(s@ =~= old(s)@ + event_block(e@)); }
}

/// The digest's body, before encoding.
pub fn format_body(events: &Vec<EventListing>) -> (r: String)
    ensures
        r@ == post_body(records_view(events@)),
{
    let ghost evs = records_view(events@);
    let mut s = String::new();
    let mut i: usize = 0;
    while i < events.len()
        invariant
            i <= events@.len(),
            evs == records_view(events@),
            s@ == body_items(evs, i as int),
        decreases events@.len() - i,
    {
        let ghost before = s@;
        if i > 0 {
            s.append(EVENT_SEPARATOR);
        }
        let ghost mid = s@;
        append_block(&mut s, &events[i]);
        proof {
            assert(evs[i as int] == events@[i as int]@);
            assert(s@ =~= body_items(evs, i + 1));
        }
        i += 1;
    }
    s
}

/// A digest ready to submit, and the titles it covers.
pub struct Post {
    pub title: String,
    /// The body, encoded for transport.
    pub body: String,
    pub titles: Vec<String>,
}

/// The unposted events due at `now_ms`, sorted by start.
pub fn select_due(store: &EventStore, now_ms: i64) -> (r: Vec<EventListing>)
    requires
        now_ms < i64::MAX - WINDOW_MS,
    ensures
        records_view(r@) == due(store@, now_ms),
{
    store.find_in_date_range(now_ms, now_ms + WINDOW_MS + 1, true)
}

/// What this tick publishes: nothing when the nearest due event is still too
/// far out, else the accepted events' digest.
pub fn plan_post(store: &EventStore, now_ms: i64) -> (r: Option<Post>)
    requires
        now_ms < i64::MAX - WINDOW_MS,
    ensures
        ({
            let c = due(store@, now_ms);
            let n = batch_count(c, now_ms, 0);
            match r {
                None => n == 0,
                Some(p) => n > 0 && p.title@ == post_title(c.take(n)) && p.body@ == form_encoded(
                    post_body(c.take(n)),
                ) && p.titles@.map_values(|t: String| t@) == c.take(n).map_values(|e: RecordView| e.title),
            }
        }),
{
    let candidates = select_due(store, now_ms);
    let ghost c = records_view(candidates@);
    let n = batch_len(&candidates, now_ms);
    if n == 0 {
        return None;
    }
    let mut batch: Vec<EventListing> = Vec::new();
    let mut titles: Vec<String> = Vec::new();
    let mut i: usize = 0;
    while i < n
        invariant
            i <= n <= candidates@.len(),
            c == records_view(candidates@),
            records_view(batch@) == c.take(i as int),
            titles@.map_values(|t: String| t@) == c.take(i as int).map_values(|e: RecordView| e.title),
        decreases n - i,
    {
        let e = candidates[i].duplicate();
        let t = candidates[i].title.clone();
        let ghost b0 = batch@;
        let ghost t0 = titles@;
        batch.push(e);
        titles.push(t);
        proof {
            assert(c[i as int] == candidates@[i as int]@);
            assert(records_view(batch@) =~= records_view(b0).push(e@));
            assert(records_view(batch@) =~= c.take(i + 1));
            assert(titles@ == t0.push(t));
            assert(t@ == c[i as int].title);
            assert(titles@.map_values(|t: String| t@) =~= t0.map_values(|t: String| t@).push(t@));
            assert(c.take(i + 1).map_values(|e: RecordView| e.title) =~= c.take(i as int).map_values(
                |e: RecordView| e.title,
            ).push(c[i as int].title));
            assert(titles@.map_values(|t: String| t@) =~= c.take(i + 1).map_values(|e: RecordView| e.title));
        }
        i += 1;
    }
    let title = format_title(&batch);
    let text = format_body(&batch);
    let body = form_encode(&text);
    Some(Post { title, body, titles })
}

} // verus!
