//! Turns the listing page and the detail pages into event records.
//! Any structural surprise fails the whole page: partial results from a
//! changed page are not trusted.

use crate::dom::{
    DomNode, Selector, SelectorView, attr_of, attr_value, child_at, child_last, end_of_subtree,
    find_first, first_match, is_space, last_child, nth_child, parent, parent_of, subtree_end, text_at,
    text_of,
};
use crate::record::{EventListing, LineupEntry, RecordView, lineup_view};
use crate::time::{EventTime, LISTING_FORMAT, parse_with_format, parsed_with_format};
use vstd::prelude::*;

verus! {

pub const BASE_URL: &'static str = "https://www.dci.org";
pub const ITEMS_PARENT_CONTAINER: &'static str = "events-items";
pub const ITEMS_LINK_DETAILS: &'static str = "link details";
pub const INFO_SECTION_CLASS: &'static str = "info-holder";
pub const HUMAN_DATE_CLASS: &'static str = "main-date";
pub const TITLE_TAG: &'static str = "h3";
pub const INFO_DATE_MARKER: &'static str = "/slice/dist/images/icons/watch_grey_icon.svg";
pub const INFO_LOCATION_MARKER: &'static str = "/slice/dist/images/icons/location_grey_icon.svg";
pub const TZ_CONTENT_CONTAINER: &'static str = "line-up-holder limit";
pub const TZ_TAG: &'static str = "p";
pub const TIME_TABLE: &'static str = "time-table";
pub const CLASS_ATTR: &'static str = "class";
pub const SRC_ATTR: &'static str = "src";
pub const HREF_ATTR: &'static str = "href";
pub const ALT_ATTR: &'static str = "alt";

/// The part of a page that was not where it was expected.
#[derive(Clone, Copy, Debug, PartialEq, Eq, Structural)]
pub enum Missing {
    DetailsLink,
    InfoBox,
    Title,
    HumanDate,
    DateMarker,
    DateStamp,
    DateFormat,
    LocationMarker,
    LocationText,
    TimezoneSection,
    Timezone,
    TimeTable,
    LineupRow,
    EmptyLineup,
}

#[derive(Clone, Copy, Debug, PartialEq, Eq, Structural)]
pub enum ScrapeError {
    /// The markup no longer has the shape the extractor reads.
    ShapeChanged(Missing),
}

/// What the listing page says of one event.
pub struct EventStub {
    /// Link to the detail page, relative to the site.
    pub details_href: String,
    pub title: String,
    pub event_date: EventTime,
    pub location: String,
    pub human_date: String,
}

pub struct StubView {
    pub details_href: Seq<char>,
    pub title: Seq<char>,
    pub event_date: EventTime,
    pub location: Seq<char>,
    pub human_date: Seq<char>,
}

impl View for EventStub {
    type V = StubView;

    open spec fn view(&self) -> StubView {
        StubView {
            details_href: self.details_href@,
            title: self.title@,
            event_date: self.event_date,
            location: self.location@,
            human_date: self.human_date@,
        }
    }
}

/// What a detail page says of its event.
pub struct EventDetails {
    pub lineup: Vec<LineupEntry>,
    pub timezone: String,
}

pub open spec fn trim_start(s: Seq<char>) -> Seq<char>
    decreases s.len(),
{
    if s.len() > 0 && is_space(s[0]) {
        trim_start(s.drop_first())
    } else {
        s
    }
}

pub open spec fn trim_end(s: Seq<char>) -> Seq<char>
    decreases s.len(),
{
    if s.len() > 0 && is_space(s.last()) {
        trim_end(s.drop_last())
    } else {
        s
    }
}

/// The text without leading and trailing whitespace.
pub open spec fn trimmed(s: Seq<char>) -> Seq<char> {
    trim_end(trim_start(s))
}

/// Relies on `str::trim`: the text without the leading and trailing
/// characters for which `char::is_whitespace` holds.
#[verifier::external_body]
fn trim_text(s: &String) -> (r: String)
    ensures
        r@ == trimmed(s@),
{
    s.trim().to_string()
}

pub open spec fn container_sel() -> SelectorView {
    SelectorView::HasClass(ITEMS_PARENT_CONTAINER@)
}

pub open spec fn link_sel() -> SelectorView {
    SelectorView::AttrIs(CLASS_ATTR@, ITEMS_LINK_DETAILS@)
}

pub open spec fn info_sel() -> SelectorView {
    SelectorView::AttrIs(CLASS_ATTR@, INFO_SECTION_CLASS@)
}

pub open spec fn human_date_sel() -> SelectorView {
    SelectorView::HasClass(HUMAN_DATE_CLASS@)
}

pub open spec fn title_sel() -> SelectorView {
    SelectorView::Tag(TITLE_TAG@)
}

pub open spec fn date_sel() -> SelectorView {
    SelectorView::AttrIs(SRC_ATTR@, INFO_DATE_MARKER@)
}

pub open spec fn location_sel() -> SelectorView {
    SelectorView::AttrIs(SRC_ATTR@, INFO_LOCATION_MARKER@)
}

pub open spec fn tz_sel() -> SelectorView {
    SelectorView::AttrIs(CLASS_ATTR@, TZ_CONTENT_CONTAINER@)
}

pub open spec fn tz_para_sel() -> SelectorView {
    SelectorView::Tag(TZ_TAG@)
}

pub open spec fn table_sel() -> SelectorView {
    SelectorView::AttrIs(CLASS_ATTR@, TIME_TABLE@)
}

/// First node matching `sel` strictly inside the subtree of `i`.
pub open spec fn find_below(d: Seq<DomNode>, i: int, sel: SelectorView) -> Option<int> {
    first_match(d, i + 1, subtree_end(d, i), sel)
}

/// Date and location read from an item's info box.
pub open spec fn info_date_location(d: Seq<DomNode>, info: int) -> Result<(EventTime, Seq<char>), Missing> {
    match find_below(d, info, date_sel()) {
        None => Err(Missing::DateMarker),
        Some(dm) => match attr_value(d[dm], ALT_ATTR@) {
            None => Err(Missing::DateStamp),
            Some(alt) => match parsed_with_format(alt, LISTING_FORMAT@) {
                None => Err(Missing::DateFormat),
                Some(t) => match find_below(d, info, location_sel()) {
                    None => Err(Missing::LocationMarker),
                    Some(lm) => match parent(d, lm) {
                        None => Err(Missing::LocationText),
                        Some(p) => Ok((t, trimmed(text_of(d, p)))),
                    },
                },
            },
        },
    }
}

/// The stub that the item at `c` gives, with the page's human date `h`.
pub open spec fn item_spec(d: Seq<DomNode>, c: int, h: Seq<char>) -> Result<StubView, Missing> {
    match find_below(d, c, link_sel()) {
        None => Err(Missing::DetailsLink),
        Some(l) => match attr_value(d[l], HREF_ATTR@) {
            None => Err(Missing::DetailsLink),
            Some(href) => match find_below(d, c, info_sel()) {
                None => Err(Missing::InfoBox),
                Some(info) => match find_below(d, info, title_sel()) {
                    None => Err(Missing::Title),
                    Some(t) => match info_date_location(d, info) {
                        Err(e) => Err(e),
                        Ok((when, loc)) => Ok(
                            StubView {
                                details_href: href,
                                title: text_of(d, t),
                                event_date: when,
                                location: loc,
                                human_date: h,
                            },
                        ),
                    },
                },
            },
        },
    }
}

/// An item is an element child of the events container.
pub open spec fn is_item(d: Seq<DomNode>, cont: int, j: int) -> bool {
    d[j].depth == d[cont].depth + 1 && d[j].tag@.len() > 0
}

/// The stubs of the items in `(cont, hi)`, in page order; the first failure wins.
pub open spec fn items_spec(d: Seq<DomNode>, cont: int, hi: int, h: Seq<char>) -> Result<Seq<StubView>, Missing>
    decreases hi - cont,
{
    if hi <= cont + 1 {
        Ok(Seq::empty())
    } else {
        match items_spec(d, cont, hi - 1, h) {
            Err(e) => Err(e),
            Ok(prev) => if is_item(d, cont, hi - 1) {
                match item_spec(d, hi - 1, h) {
                    Err(e) => Err(e),
                    Ok(s) => Ok(prev.push(s)),
                }
            } else {
                Ok(prev)
            },
        }
    }
}

pub open spec fn has_item(d: Seq<DomNode>, cont: int) -> bool {
    exists|j: int| cont < j < subtree_end(d, cont) && is_item(d, cont, j)
}

/// What the listing page gives: no container, or a container without items,
/// gives no events; otherwise every item must read, and the page must carry
/// its human date.
pub open spec fn listing_spec(d: Seq<DomNode>) -> Result<Seq<StubView>, Missing> {
    match first_match(d, 0, d.len() as int, container_sel()) {
        None => Ok(Seq::empty()),
        Some(cont) => if !has_item(d, cont) {
            Ok(Seq::empty())
        } else {
            match first_match(d, 0, d.len() as int, human_date_sel()) {
                None => Err(Missing::HumanDate),
                Some(hd) => items_spec(d, cont, subtree_end(d, cont), text_of(d, hd)),
            }
        },
    }
}

/// The lineup rows of the table at `tb` among its children in `(tb, hi)`.
pub open spec fn rows_spec(d: Seq<DomNode>, tb: int, hi: int) -> Result<Seq<(Seq<char>, Seq<char>)>, Missing>
    decreases hi - tb,
{
    if hi <= tb + 1 {
        Ok(Seq::empty())
    } else {
        match rows_spec(d, tb, hi - 1) {
            Err(e) => Err(e),
            Ok(prev) => if d[hi - 1].depth == d[tb].depth + 1 {
                match (nth_child(d, hi - 1, 0), last_child(d, hi - 1)) {
                    (Some(f), Some(l)) => Ok(prev.push((text_of(d, f), text_of(d, l)))),
                    _ => Err(Missing::LineupRow),
                }
            } else {
                Ok(prev)
            },
        }
    }
}

/// What a detail page gives: its lineup and its timezone label.
pub open spec fn details_spec(d: Seq<DomNode>) -> Result<(Seq<(Seq<char>, Seq<char>)>, Seq<char>), Missing> {
    match first_match(d, 0, d.len() as int, tz_sel()) {
        None => Err(Missing::TimezoneSection),
        Some(z) => match find_below(d, z, tz_para_sel()) {
            None => Err(Missing::TimezoneSection),
            Some(p) => match nth_child(d, p, 1) {
                None => Err(Missing::Timezone),
                Some(tz) => match first_match(d, 0, d.len() as int, table_sel()) {
                    None => Err(Missing::TimeTable),
                    Some(tb) => match rows_spec(d, tb, subtree_end(d, tb)) {
                        Err(e) => Err(e),
                        Ok(rows) => if rows.len() == 0 {
                            Err(Missing::EmptyLineup)
                        } else {
                            Ok((rows, text_of(d, tz)))
                        },
                    },
                },
            },
        },
    }
}

fn by_class(c: &str) -> (r: Selector)
    ensures
        r@ == SelectorView::HasClass(c@),
{
    Selector::HasClass(String::from_str(c))
}

fn by_attr(a: &str, v: &str) -> (r: Selector)
    ensures
        r@ == SelectorView::AttrIs(a@, v@),
{
    Selector::AttrIs(String::from_str(a), String::from_str(v))
}

fn by_tag(t: &str) -> (r: Selector)
    ensures
        r@ == SelectorView::Tag(t@),
{
    Selector::Tag(String::from_str(t))
}

fn attr_named(n: &DomNode, name: &str) -> (r: Option<String>)
    ensures
        match r {
            Some(v) => attr_value(*n, name@) == Some(v@),
            None => attr_value(*n, name@) is None,
        },
{
    attr_of(n, &String::from_str(name))
}

fn find_inside(d: &Vec<DomNode>, i: usize, sel: &Selector) -> (r: Option<usize>)
    requires
        i < d@.len(),
    ensures
        match r {
            Some(j) => find_below(d@, i as int, sel@) == Some(j as int) && j < d@.len(),
            None => find_below(d@, i as int, sel@) is None,
        },
{
    let end = end_of_subtree(d, i);
    find_first(d, i + 1, end, sel)
}

fn date_and_location(d: &Vec<DomNode>, info: usize) -> (r: Result<(EventTime, String), Missing>)
    requires
        info < d@.len(),
    ensures
        match r {
            Ok((t, l)) => info_date_location(d@, info as int) == Ok::<(EventTime, Seq<char>), Missing>((t, l@)),
            Err(e) => info_date_location(d@, info as int) == Err::<(EventTime, Seq<char>), Missing>(e),
        },
{
    let dm = match find_inside(d, info, &by_attr(SRC_ATTR, INFO_DATE_MARKER)) {
        None => return Err(Missing::DateMarker),
        Some(j) => j,
    };
    let alt = match attr_named(&d[dm], ALT_ATTR) {
        None => return Err(Missing::DateStamp),
        Some(a) => a,
    };
    let when = match parse_with_format(alt.as_str(), LISTING_FORMAT) {
        None => return Err(Missing::DateFormat),
        Some(t) => t,
    };
    let lm = match find_inside(d, info, &by_attr(SRC_ATTR, INFO_LOCATION_MARKER)) {
        None => return Err(Missing::LocationMarker),
        Some(j) => j,
    };
    let p = match parent_of(d, lm) {
        None => return Err(Missing::LocationText),
        Some(p) => p,
    };
    let loc = trim_text(&text_at(d, p));
    Ok((when, loc))
}

pub open spec fn stub_result_view(r: Result<EventStub, Missing>) -> Result<StubView, Missing> {
    match r {
        Ok(s) => Ok(s@),
        Err(e) => Err(e),
    }
}

fn extract_item(d: &Vec<DomNode>, c: usize, h: &String) -> (r: Result<EventStub, Missing>)
    requires
        c < d@.len(),
    ensures
        stub_result_view(r) == item_spec(d@, c as int, h@),
{
    let l = match find_inside(d, c, &by_attr(CLASS_ATTR, ITEMS_LINK_DETAILS)) {
        None => return Err(Missing::DetailsLink),
        Some(j) => j,
    };
    let href = match attr_named(&d[l], HREF_ATTR) {
        None => return Err(Missing::DetailsLink),
        Some(v) => v,
    };
    let info = match find_inside(d, c, &by_attr(CLASS_ATTR, INFO_SECTION_CLASS)) {
        None => return Err(Missing::InfoBox),
        Some(j) => j,
    };
    let t = match find_inside(d, info, &by_tag(TITLE_TAG)) {
        None => return Err(Missing::Title),
        Some(j) => j,
    };
    let (when, loc) = match date_and_location(d, info) {
        Err(e) => return Err(e),
        Ok(x) => x,
    };
    Ok(
        EventStub {
            details_href: href,
            title: text_at(d, t),
            event_date: when,
            location: loc,
            human_date: h.clone(),
        },
    )
}

proof fn lemma_items_err_sticky(d: Seq<DomNode>, cont: int, j: int, hi: int, h: Seq<char>, e: Missing)
    requires
        cont + 1 <= j <= hi,
        items_spec(d, cont, j, h) == Err::<Seq<StubView>, Missing>(e),
    ensures
        items_spec(d, cont, hi, h) == Err::<Seq<StubView>, Missing>(e),
    decreases hi - j,
{
    if j < hi {
        lemma_items_err_sticky(d, cont, j, hi - 1, h, e);
    }
}

proof fn lemma_rows_err_sticky(d: Seq<DomNode>, tb: int, j: int, hi: int, e: Missing)
    requires
        tb + 1 <= j <= hi,
        rows_spec(d, tb, j) == Err::<Seq<(Seq<char>, Seq<char>)>, Missing>(e),
    ensures
        rows_spec(d, tb, hi) == Err::<Seq<(Seq<char>, Seq<char>)>, Missing>(e),
    decreases hi - j,
{
    if j < hi {
        lemma_rows_err_sticky(d, tb, j, hi - 1, e);
    }
}

pub open spec fn stubs_view(v: Seq<EventStub>) -> Seq<StubView> {
    v.map_values(|s: EventStub| s@)
}

/// Whether the node at `j` is a child element of the node at `cont`.
fn item_at(d: &Vec<DomNode>, cont: usize, j: usize) -> (r: bool)
    requires
        cont < d@.len(),
        j < d@.len(),
    ensures
        r == is_item(d@, cont as int, j as int),
{
    d[j].depth > 0 && d[j].depth - 1 == d[cont].depth && !d[j].tag.as_str().is_empty()
}

/// Reads every event stub of a listing page, in page order.
pub fn extract_listing(d: &Vec<DomNode>) -> (r: Result<Vec<EventStub>, ScrapeError>)
    ensures
        match r {
            Ok(v) => listing_spec(d@) == Ok::<Seq<StubView>, Missing>(stubs_view(v@)),
            Err(ScrapeError::ShapeChanged(m)) => listing_spec(d@) == Err::<Seq<StubView>, Missing>(m),
        },
{
    let none: Vec<EventStub> = Vec::new();
    proof { assert(stubs_view(none@) =~= Seq::<StubView>::empty()); }
    let cont = match find_first(d, 0, d.len(), &by_class(ITEMS_PARENT_CONTAINER)) {
        None => return Ok(none),
        Some(c) => c,
    };
    let end = end_of_subtree(d, cont);
    let mut k: usize = cont + 1;
    let mut found = false;
    while k < end
        invariant
            cont < k <= end <= d@.len(),
            cont < d@.len(),
            end == subtree_end(d@, cont as int),
            found ==> has_item(d@, cont as int),
            !found ==> forall|m: int| cont < m < k ==> !is_item(d@, cont as int, m),
        decreases end - k,
    {
        if item_at(d, cont, k) {
            found = true;
        }
        k += 1;
    }
    if !found {
        return Ok(none);
    }
    let h = match find_first(d, 0, d.len(), &by_class(HUMAN_DATE_CLASS)) {
        None => return Err(ScrapeError::ShapeChanged(Missing::HumanDate)),
        Some(i) => text_at(d, i),
    };
    let mut out: Vec<EventStub> = none;
    let mut j: usize = cont + 1;
    while j < end
        invariant
            cont < j <= end <= d@.len(),
            cont < d@.len(),
            end == subtree_end(d@, cont as int),
            items_spec(d@, cont as int, j as int, h@) == Ok::<Seq<StubView>, Missing>(stubs_view(out@)),
            listing_spec(d@) == items_spec(d@, cont as int, end as int, h@),
        decreases end - j,
    {
        if item_at(d, cont, j) {
            match extract_item(d, j, &h) {
                Err(e) => {
                    proof {
                        assert(items_spec(d@, cont as int, j + 1, h@) == Err::<Seq<StubView>, Missing>(e));
                        lemma_items_err_sticky(d@, cont as int, j + 1, end as int, h@, e);
                    }
                    return Err(ScrapeError::ShapeChanged(e));
                },
                Ok(s) => {
                    let ghost before = out@;
                    out.push(s);
                    proof { assert(stubs_view(out@) =~= stubs_view(before).push(s@)); }
                },
            }
        }
        j += 1;
    }
    Ok(out)
}

pub open spec fn details_view(x: EventDetails) -> (Seq<(Seq<char>, Seq<char>)>, Seq<char>) {
    (lineup_view(x.lineup@), x.timezone@)
}

fn extract_rows(d: &Vec<DomNode>, tb: usize) -> (r: Result<Vec<LineupEntry>, Missing>)
    requires
        tb < d@.len(),
    ensures
        match r {
            Ok(v) => rows_spec(d@, tb as int, subtree_end(d@, tb as int)) == Ok::<Seq<(Seq<char>, Seq<char>)>, Missing>(lineup_view(v@)),
            Err(e) => rows_spec(d@, tb as int, subtree_end(d@, tb as int)) == Err::<Seq<(Seq<char>, Seq<char>)>, Missing>(e),
        },
{
    let end = end_of_subtree(d, tb);
    let mut out: Vec<LineupEntry> = Vec::new();
    proof { assert(lineup_view(out@) =~= Seq::<(Seq<char>, Seq<char>)>::empty()); }
    let mut j: usize = tb + 1;
    while j < end
        invariant
            tb < j <= end <= d@.len(),
            end == subtree_end(d@, tb as int),
            rows_spec(d@, tb as int, j as int) == Ok::<Seq<(Seq<char>, Seq<char>)>, Missing>(lineup_view(out@)),
        decreases end - j,
    {
        if d[j].depth > 0 && d[j].depth - 1 == d[tb].depth {
            match (child_at(d, j, 0), child_last(d, j)) {
                (Some(f), Some(l)) => {
                    let ghost before = out@;
                    let a = text_at(d, f);
                    let b = text_at(d, l);
                    out.push((a, b));
                    proof { assert(lineup_view(out@) =~= lineup_view(before).push((a@, b@))); }
                },
                _ => {
                    proof { lemma_rows_err_sticky(d@, tb as int, j + 1, end as int, Missing::LineupRow); }
                    return Err(Missing::LineupRow);
                },
            }
        }
        j += 1;
    }
    Ok(out)
}

/// Reads the lineup and the timezone label of a detail page.
pub fn extract_details(d: &Vec<DomNode>) -> (r: Result<EventDetails, ScrapeError>)
    ensures
        match r {
            Ok(x) => details_spec(d@) == Ok::<(Seq<(Seq<char>, Seq<char>)>, Seq<char>), Missing>(details_view(x)),
            Err(ScrapeError::ShapeChanged(m)) => details_spec(d@) == Err::<(Seq<(Seq<char>, Seq<char>)>, Seq<char>), Missing>(m),
        },
{
    let z = match find_first(d, 0, d.len(), &by_attr(CLASS_ATTR, TZ_CONTENT_CONTAINER)) {
        None => return Err(ScrapeError::ShapeChanged(Missing::TimezoneSection)),
        Some(z) => z,
    };
    let p = match find_inside(d, z, &by_tag(TZ_TAG)) {
        None => return Err(ScrapeError::ShapeChanged(Missing::TimezoneSection)),
        Some(p) => p,
    };
    let tz = match child_at(d, p, 1) {
        None => return Err(ScrapeError::ShapeChanged(Missing::Timezone)),
        Some(t) => t,
    };
    let tb = match find_first(d, 0, d.len(), &by_attr(CLASS_ATTR, TIME_TABLE)) {
        None => return Err(ScrapeError::ShapeChanged(Missing::TimeTable)),
        Some(t) => t,
    };
    let rows = match extract_rows(d, tb) {
        Err(e) => return Err(ScrapeError::ShapeChanged(e)),
        Ok(rows) => rows,
    };
    if rows.len() == 0 {
        proof { assert(lineup_view(rows@).len() == 0); }
        return Err(ScrapeError::ShapeChanged(Missing::EmptyLineup));
    }
    Ok(EventDetails { lineup: rows, timezone: text_at(d, tz) })
}

/// The record that a listing stub and its detail page make: not yet posted.
pub open spec fn record_of(s: StubView, x: (Seq<(Seq<char>, Seq<char>)>, Seq<char>)) -> RecordView {
    RecordView {
        url: BASE_URL@ + s.details_href,
        event_date: s.event_date,
        location: s.location,
        title: s.title,
        timezone: x.1,
        lineup: x.0,
        human_date: s.human_date,
        posted: None,
    }
}

/// Joins a listing stub with what its detail page gave.
pub fn complete_record(stub: EventStub, details: EventDetails) -> (r: EventListing)
    ensures
        r@ == record_of(stub@, details_view(details)),
{
    let url = String::from_str(BASE_URL).concat(stub.details_href.as_str());
    EventListing {
        event_url: url,
        event_date: stub.event_date,
        location: stub.location,
        title: stub.title,
        timezone: details.timezone,
        lineup: details.lineup,
        human_date: stub.human_date,
        posted: None,
    }
}

} // verus!
