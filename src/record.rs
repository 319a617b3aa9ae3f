//! The event record, the canonical unit of the event store.

use crate::time::{EventTime, format_rfc3339, parse_rfc3339, parsed_rfc3339, rfc3339_text};
use vstd::prelude::*;

verus! {

/// One (performance time, act name) pair of a lineup.
pub type LineupEntry = (String, String);

/// An event as scraped and stored.
pub struct EventListing {
    /// Absolute link to the event's detail page.
    pub event_url: String,
    /// Start of the event, in the offset the source stated.
    pub event_date: EventTime,
    /// "City, Region".
    pub location: String,
    /// Name of the event; unique in the store.
    pub title: String,
    /// Human-readable label for the lineup times.
    pub timezone: String,
    /// Lineup in performance order.
    pub lineup: Vec<LineupEntry>,
    /// The source's own human-readable date.
    pub human_date: String,
    /// When the event was included in a published digest, in ms since the epoch.
    pub posted: Option<i64>,
}

pub struct RecordView {
    pub url: Seq<char>,
    pub event_date: EventTime,
    pub location: Seq<char>,
    pub title: Seq<char>,
    pub timezone: Seq<char>,
    pub lineup: Seq<(Seq<char>, Seq<char>)>,
    pub human_date: Seq<char>,
    pub posted: Option<i64>,
}

pub open spec fn lineup_view(l: Seq<LineupEntry>) -> Seq<(Seq<char>, Seq<char>)> {
    l.map_values(|e: LineupEntry| (e.0@, e.1@))
}

impl View for EventListing {
    type V = RecordView;

    open spec fn view(&self) -> RecordView {
        RecordView {
            url: self.event_url@,
            event_date: self.event_date,
            location: self.location@,
            title: self.title@,
            timezone: self.timezone@,
            lineup: lineup_view(self.lineup@),
            human_date: self.human_date@,
            posted: self.posted,
        }
    }
}

pub open spec fn records_view(v: Seq<EventListing>) -> Seq<RecordView> {
    v.map_values(|r: EventListing| r@)
}

/// A copy of a lineup, entry by entry.
pub fn clone_lineup(l: &Vec<LineupEntry>) -> (r: Vec<LineupEntry>)
    ensures
        lineup_view(r@) == lineup_view(l@),
{
    let mut r: Vec<LineupEntry> = Vec::new();
    let mut i: usize = 0;
    while i < l.len()
        invariant
            i <= l@.len(),
            lineup_view(r@) == lineup_view(l@).take(i as int),
        decreases l@.len() - i,
    {
        let a = l[i].0.clone();
        let b = l[i].1.clone();
        let ghost old_r = r@;
        r.push((a, b));
        proof {
            assert(r@ == old_r.push((a, b)));
            assert(lineup_view(r@) =~= lineup_view(old_r).push((a@, b@)));
            assert(lineup_view(l@)[i as int] == (l@[i as int].0@, l@[i as int].1@));
            assert(lineup_view(r@) =~= lineup_view(l@).take(i + 1));
        }
        i += 1;
    }
    proof {
        assert(lineup_view(l@).take(l@.len() as int) =~= lineup_view(l@));
    }
    r
}

impl EventListing {
    /// A copy of the record, field by field.
    pub fn duplicate(&self) -> (r: EventListing)
        ensures
            r@ == self@,
    {
        EventListing {
            event_url: self.event_url.clone(),
            event_date: self.event_date,
            location: self.location.clone(),
            title: self.title.clone(),
            timezone: self.timezone.clone(),
            lineup: clone_lineup(&self.lineup),
            human_date: self.human_date.clone(),
            posted: self.posted,
        }
    }
}

pub uninterp spec fn lineup_json(l: Seq<(Seq<char>, Seq<char>)>) -> Seq<char>;

pub uninterp spec fn lineup_parsed(s: Seq<char>) -> Option<Seq<(Seq<char>, Seq<char>)>>;

/// Relies on `serde_json::to_string`: a lineup as a JSON array of
/// two-element string arrays. It fails only for a `Serialize` impl that
/// fails or a map with non-string keys, neither of which a list of string
/// pairs has; and `serde_json::from_str` reads the text back to the same
/// strings in the same order.
#[verifier::external_body]
pub(crate) fn lineup_to_json(l: &Vec<LineupEntry>) -> (r: String)
    ensures
        r@ == lineup_json(lineup_view(l@)),
        lineup_parsed(r@) == Some(lineup_view(l@)),
{
    serde_json::to_string(l).expect("a list of string pairs always serializes")
}

/// Relies on `serde_json::from_str`: a lineup read back from JSON, or `None`.
#[verifier::external_body]
pub(crate) fn lineup_from_json(s: &str) -> (r: Option<Vec<LineupEntry>>)
    ensures
        match r {
            Some(l) => lineup_parsed(s@) == Some(lineup_view(l@)),
            None => lineup_parsed(s@) is None,
        },
{
    serde_json::from_str::<Vec<LineupEntry>>(s).ok()
}

/// A record as the storage table holds it: timestamps in RFC 3339, the
/// lineup as JSON.
pub struct EventRow {
    pub url: String,
    pub date: String,
    pub location: String,
    pub title: String,
    pub timezone: String,
    pub lineup: String,
    pub posted: Option<String>,
    pub human_date: String,
}

/// The field of a stored row that could not be read or written.
#[derive(Clone, Copy, Debug, PartialEq, Eq, Structural)]
pub enum DataError {
    Date,
    Lineup,
    Posted,
}

/// A posted marker is stored as an instant in UTC.
pub open spec fn utc(ms: i64) -> EventTime {
    EventTime { instant_ms: ms, offset_secs: 0 }
}

/// What a stored row reads back as.
pub open spec fn row_record(row: EventRow) -> Result<RecordView, DataError> {
    match parsed_rfc3339(row.date@) {
        None => Err(DataError::Date),
        Some(t) => match lineup_parsed(row.lineup@) {
            None => Err(DataError::Lineup),
            Some(l) => match row.posted {
                None => Ok(RecordView {
                    url: row.url@, event_date: t, location: row.location@, title: row.title@,
                    timezone: row.timezone@, lineup: l, human_date: row.human_date@, posted: None,
                }),
                Some(p) => match parsed_rfc3339(p@) {
                    None => Err(DataError::Posted),
                    Some(pt) => Ok(RecordView {
                        url: row.url@, event_date: t, location: row.location@, title: row.title@,
                        timezone: row.timezone@, lineup: l, human_date: row.human_date@,
                        posted: Some(pt.instant_ms),
                    }),
                },
            },
        },
    }
}

impl EventListing {
    /// The row that stores this record.
    pub fn to_row(&self) -> (r: Result<EventRow, DataError>)
        ensures
            r is Ok <==> (rfc3339_text(self.event_date) is Some && (self.posted matches Some(p)
                ==> rfc3339_text(utc(p)) is Some)),
            match r {
                Ok(row) => {
                    &&& rfc3339_text(self.event_date) == Some(row.date@)
                    &&& row.lineup@ == lineup_json(self@.lineup)
                    &&& lineup_parsed(row.lineup@) == Some(self@.lineup)
                    &&& row.url@ == self.event_url@ && row.location@ == self.location@
                    &&& row.title@ == self.title@ && row.timezone@ == self.timezone@
                    &&& row.human_date@ == self.human_date@
                    &&& match self.posted {
                        None => row.posted is None,
                        Some(p) => row.posted matches Some(ps) && rfc3339_text(utc(p)) == Some(ps@),
                    }
                },
                Err(DataError::Date) => rfc3339_text(self.event_date) is None,
                Err(DataError::Posted) => rfc3339_text(self.event_date) is Some && (self.posted matches Some(p)
                    && rfc3339_text(utc(p)) is None),
                Err(DataError::Lineup) => false,
            },
    {
        let date = match format_rfc3339(self.event_date) {
            None => return Err(DataError::Date),
            Some(d) => d,
        };
        let lineup = lineup_to_json(&self.lineup);
        let posted = match self.posted {
            None => None,
            Some(p) => match format_rfc3339(EventTime { instant_ms: p, offset_secs: 0 }) {
                None => return Err(DataError::Posted),
                Some(ps) => Some(ps),
            },
        };
        Ok(
            EventRow {
                url: self.event_url.clone(),
                date,
                location: self.location.clone(),
                title: self.title.clone(),
                timezone: self.timezone.clone(),
                lineup,
                posted,
                human_date: self.human_date.clone(),
            },
        )
    }

    /// Reads a stored row back.
    pub fn from_row(row: &EventRow) -> (r: Result<EventListing, DataError>)
        ensures
            match r {
                Ok(rec) => row_record(*row) == Ok::<RecordView, DataError>(rec@),
                Err(e) => row_record(*row) == Err::<RecordView, DataError>(e),
            },
    {
        let event_date = match parse_rfc3339(row.date.as_str()) {
            None => return Err(DataError::Date),
            Some(t) => t,
        };
        let lineup = match lineup_from_json(row.lineup.as_str()) {
            None => return Err(DataError::Lineup),
            Some(l) => l,
        };
        let posted = match &row.posted {
            None => None,
            Some(p) => match parse_rfc3339(p.as_str()) {
                None => return Err(DataError::Posted),
                Some(pt) => Some(pt.instant_ms),
            },
        };
        Ok(
            EventListing {
                event_url: row.url.clone(),
                event_date,
                location: row.location.clone(),
                title: row.title.clone(),
                timezone: row.timezone.clone(),
                lineup,
                human_date: row.human_date.clone(),
                posted,
            },
        )
    }
}

} // verus!
