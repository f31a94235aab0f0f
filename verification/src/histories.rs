//! The reading history: the entries shown, how a page of them is taken in,
//! and how long ago an entry was read.
//!
//! Nothing here fetches or draws. The page of history comes in as plain
//! values, and what is to be drawn goes out as plain values.

use crate::text::{i64_to_string, signed_decimal};
use vstd::prelude::*;
use vstd::string::*;

verus! {

/// One line of the reading history.
#[derive(Debug, PartialEq, Eq)]
pub struct Entry {
    pub manga_id: i64,
    pub manga_title: String,
    pub cover_url: String,
    pub chapter_id: i64,
    pub chapter_title: String,
    /// When the chapter was read, in seconds since the Unix epoch.
    pub read_at: i64,
    pub last_page_read: i64,
    pub cursor: String,
}

/// One line of a fetched page of history, as the server sends it.
#[derive(Debug, PartialEq, Eq)]
pub struct Edge {
    pub manga_id: i64,
    pub manga_title: String,
    pub cover_url: String,
    pub chapter_id: i64,
    pub chapter_title: String,
    /// Time of reading as text, `year-month-dayThour:minute:second` with an
    /// optional fraction.
    pub read_at: String,
    pub last_page_read: i64,
    pub cursor: String,
}

/// Why a fetched page could not be taken in.
#[derive(Clone, Copy, Debug, PartialEq, Eq, Structural)]
pub enum Fault {
    /// The page holds no list of lines.
    NoEdges,
    /// A line of the page is missing.
    NoEdge,
    /// The time of a line does not parse.
    BadTime,
}

/// What became of a fetched page.
#[derive(Debug, PartialEq, Eq)]
pub enum Fetched {
    /// Every line was added.
    Loaded,
    /// The fetch failed; the message is to be shown to the user.
    Failed(String),
    /// The page was broken. The lines before the broken one were added, and
    /// the history still counts as loading.
    Broken(Fault),
}

/// The state of the history view.
#[derive(Debug, PartialEq, Eq)]
pub struct Histories {
    /// A fetch is under way.
    pub loading: bool,
    pub entries: Vec<Entry>,
    pub is_entries_empty: bool,
}

/// What stands under the list of entries.
#[derive(Debug, PartialEq, Eq)]
pub enum LoadMore {
    /// A fetch is under way.
    Spinner,
    /// A button that fetches the next page.
    Button { disabled: bool, label: &'static str },
}

/// What is drawn for one entry.
#[derive(Debug, PartialEq, Eq)]
pub struct EntryRow {
    pub manga_id: i64,
    pub chapter_id: i64,
    pub last_page_read: i64,
    pub cover_url: String,
    pub manga_title: String,
    pub chapter_title: String,
    pub date_updated: String,
}

/// The seconds since the Unix epoch of a time written as
/// `%Y-%m-%dT%H:%M:%S%.f`, taken as UTC; nothing when the text does not
/// parse.
pub uninterp spec fn read_at_seconds(text: Seq<char>) -> Option<int>;

/// The number of calendar days from the day of `at` to the day of `today`,
/// both in seconds since the Unix epoch; nothing when the calendar cannot
/// represent one of them.
pub uninterp spec fn calendar_days(today: int, at: int) -> Option<int>;

/// Seconds that the calendar can represent for certain: about 126,000 years
/// to either side of the epoch.
pub open spec fn in_calendar(secs: int) -> bool {
    -4_000_000_000_000 <= secs <= 4_000_000_000_000
}

/// Error type of the time parser.
#[verifier::external_type_specification]
#[verifier::external_body]
pub struct ExParseError(chrono::ParseError);

/// Parses a time with `chrono::NaiveDateTime::parse_from_str` and the format
/// `%Y-%m-%dT%H:%M:%S%.f`, and reads it as seconds since the epoch with
/// `and_utc().timestamp()`. The contract only names the result: it is a
/// function of the text.
#[verifier::external_body]
fn parse_read_at(text: &str) -> (r: Result<i64, chrono::ParseError>)
    ensures
        r is Ok <==> read_at_seconds(text@) is Some,
        r matches Ok(secs) ==> read_at_seconds(text@) == Some(secs as int),
{
    chrono::NaiveDateTime::parse_from_str(text, "%Y-%m-%dT%H:%M:%S%.f").map(
        |t| t.and_utc().timestamp(),
    )
}

/// Counts the days between two dates with `chrono`: each time becomes a
/// date by `DateTime::from_timestamp` and `date_naive`, and the dates are
/// subtracted with `NaiveDate::signed_duration_since` and `num_days`.
///
/// Claimed of `chrono`: the day of a time is its number of seconds divided
/// by 86400, rounded down, so the result is the difference of the two day
/// numbers; and times within [`in_calendar`] are always accepted.
#[verifier::external_body]
fn days_between(today: i64, at: i64) -> (r: Option<i64>)
    ensures
        r is Some <==> calendar_days(today as int, at as int) is Some,
        r matches Some(days) ==> calendar_days(today as int, at as int) == Some(days as int),
        r matches Some(days) ==> days == today as int / 86400 - at as int / 86400,
        in_calendar(today as int) && in_calendar(at as int) ==> r is Some,
{
    let today = chrono::DateTime::from_timestamp(today, 0)?;
    let at = chrono::DateTime::from_timestamp(at, 0)?;
    Some(today.date_naive().signed_duration_since(at.date_naive()).num_days())
}

/// A number of days counted in months of thirty days, rounded towards zero.
pub open spec fn months_of(days: int) -> int {
    if days >= 0 {
        days / 30
    } else {
        -((-days) / 30)
    }
}

/// How long ago something was read, given the number of days since:
/// today, yesterday, so many days up to a week, so many whole weeks up to a
/// month of 31 days, and whole months of thirty days beyond. A negative
/// number of days is counted in months as well.
pub open spec fn age_label(days: int) -> Seq<char> {
    if days == 0 {
        "Today"@
    } else if days == 1 {
        "Yesterday"@
    } else if 1 < days <= 7 {
        signed_decimal(days) + " Days Ago"@
    } else if 7 < days < 31 {
        signed_decimal(days / 7) + " Weeks Ago"@
    } else {
        signed_decimal(months_of(days)) + " Months Ago"@
    }
}

/// Writes out how long ago something was read, given the number of days
/// since.
pub fn age_label_of(days: i64) -> (s: String)
    ensures
        s@ == age_label(days as int),
{
    if days == 0 {
        String::from_str("Today")
    } else if days == 1 {
        String::from_str("Yesterday")
    } else if days > 1 && days <= 7 {
        let mut s = i64_to_string(days);
        s.append(" Days Ago");
        s
    } else if days > 7 && days < 31 {
        let mut s = i64_to_string(days / 7);
        s.append(" Weeks Ago");
        s
    } else {
        let months: i64 = if days >= 0 {
            days / 30
        } else if days == i64::MIN {
            -307445734561825860i64
        } else {
            -((-days) / 30)
        };
        let mut s = i64_to_string(months);
        s.append(" Months Ago");
        s
    }
}

/// The label for the number of days that the calendar counted, if it
/// counted any.
pub open spec fn label_for(days: Option<int>) -> Option<Seq<char>> {
    match days {
        Some(d) => Some(age_label(d)),
        None => None,
    }
}

/// The contents of an optional string.
pub open spec fn option_string(s: Option<String>) -> Option<Seq<char>> {
    match s {
        Some(s) => Some(s@),
        None => None,
    }
}

/// The entry made of a line whose time of reading is `read_at`.
pub open spec fn entry_of(edge: Edge, read_at: i64) -> Entry {
    Entry {
        manga_id: edge.manga_id,
        manga_title: edge.manga_title,
        cover_url: edge.cover_url,
        chapter_id: edge.chapter_id,
        chapter_title: edge.chapter_title,
        read_at,
        last_page_read: edge.last_page_read,
        cursor: edge.cursor,
    }
}

/// The entry that a line of a page gives, or what is wrong with the line.
pub open spec fn taken(line: Option<Edge>) -> Result<Entry, Fault> {
    match line {
        None => Err(Fault::NoEdge),
        Some(edge) => entry_with(edge, read_at_seconds(edge.read_at@)),
    }
}

/// The contents of the answer of the time parser.
pub open spec fn option_seconds(parsed: Result<i64, chrono::ParseError>) -> Option<int> {
    match parsed {
        Ok(secs) => Some(secs as int),
        Err(_) => None,
    }
}

/// The entry made of a line, given the result of parsing its time.
pub open spec fn entry_with(edge: Edge, parsed: Option<int>) -> Result<Entry, Fault> {
    match parsed {
        Some(secs) => Ok(entry_of(edge, secs as i64)),
        None => Err(Fault::BadTime),
    }
}

/// Builds the entry of a line from the line and the result of parsing its
/// time of reading.
pub fn entry_from(edge: Edge, parsed: Result<i64, chrono::ParseError>) -> (r: Result<Entry, Fault>)
    ensures
        r == entry_with(edge, option_seconds(parsed)),
{
    match parsed {
        Ok(read_at) => Ok(
            Entry {
                manga_id: edge.manga_id,
                manga_title: edge.manga_title,
                cover_url: edge.cover_url,
                chapter_id: edge.chapter_id,
                chapter_title: edge.chapter_title,
                read_at,
                last_page_read: edge.last_page_read,
                cursor: edge.cursor,
            },
        ),
        Err(_) => Err(Fault::BadTime),
    }
}

/// The first `n` lines of the page can all be taken in.
pub open spec fn sound_upto(lines: Seq<Option<Edge>>, n: int) -> bool {
    forall|k: int| 0 <= k < n ==> (#[trigger] taken(lines[k])) is Ok
}

impl Histories {
    /// An empty history that is not loading.
    pub fn new() -> (r: Histories)
        ensures
            !r.loading,
            r.entries@.len() == 0,
            r.is_entries_empty,
    {
        Histories { loading: false, entries: Vec::new(), is_entries_empty: true }
    }

    /// Marks the history as loading and tells where the next page starts:
    /// behind the cursor of the last entry, or at the beginning when there
    /// is no entry.
    pub fn next_cursor(&mut self) -> (cursor: Option<String>)
        ensures
            final(self).loading,
            final(self).entries == old(self).entries,
            final(self).is_entries_empty == old(self).is_entries_empty,
            option_string(cursor) == (if old(self).entries@.len() == 0 {
                None
            } else {
                Some(old(self).entries@.last().cursor@)
            }),
    {
        self.loading = true;
        if self.entries.len() == 0 {
            None
        } else {
            Some(self.entries[self.entries.len() - 1].cursor.clone())
        }
    }

    /// Takes in the answer to a fetch of the next page.
    ///
    /// A failed fetch changes no entry, ends the loading and hands the
    /// message on. A page is added line by line, up to the first line that
    /// is missing or whose time does not parse; a page without a list counts
    /// as broken at once. Only a page that was added whole ends the loading
    /// and brings the emptiness flag up to date.
    pub fn fetch_read_histories(&mut self, answer: Result<Option<Vec<Option<Edge>>>, String>) -> (r:
        Fetched)
        ensures
            match answer {
                Err(message) => {
                    &&& r == Fetched::Failed(message)
                    &&& !final(self).loading
                    &&& final(self).entries == old(self).entries
                    &&& final(self).is_entries_empty == old(self).is_entries_empty
                },
                Ok(None) => {
                    &&& r == Fetched::Broken(Fault::NoEdges)
                    &&& *final(self) == *old(self)
                },
                Ok(Some(lines)) => exists|n: int|
                    {
                        &&& 0 <= n <= lines@.len()
                        &&& sound_upto(lines@, n)
                        &&& final(self).entries@.len() == old(self).entries@.len() + n
                        &&& final(self).entries@.take(old(self).entries@.len() as int) == old(
                            self,
                        ).entries@
                        &&& forall|k: int|
                            0 <= k < n ==> Ok::<Entry, Fault>(
                                #[trigger] final(self).entries@[old(self).entries@.len() + k],
                            ) == taken(lines@[k])
                        &&& if n == lines@.len() {
                            &&& r == Fetched::Loaded
                            &&& !final(self).loading
                            &&& final(self).is_entries_empty == (final(self).entries@.len() == 0)
                        } else {
                            &&& taken(lines@[n]) is Err
                            &&& r == Fetched::Broken(taken(lines@[n])->Err_0)
                            &&& final(self).loading == old(self).loading
                            &&& final(self).is_entries_empty == old(self).is_entries_empty
                        }
                    },
            },
    {
        let mut lines = match answer {
            Err(message) => {
                self.loading = false;
                return Fetched::Failed(message);
            },
            Ok(None) => {
                return Fetched::Broken(Fault::NoEdges);
            },
            Ok(Some(lines)) => lines,
        };
        let ghost all = lines@;
        let ghost base = old(self).entries@;
        let total = lines.len();
        let mut n: usize = 0;
        while n < total
            invariant
                n <= total,
                total == all.len(),
                answer is Ok && answer->Ok_0 is Some && answer->Ok_0->0@ == all,
                lines@ == all.skip(n as int),
                sound_upto(all, n as int),
                self.loading == old(self).loading,
                self.is_entries_empty == old(self).is_entries_empty,
                base == old(self).entries@,
                self.entries@.len() == base.len() + n,
                self.entries@.take(base.len() as int) == base,
                forall|k: int|
                    0 <= k < n ==> Ok::<Entry, Fault>(#[trigger] self.entries@[base.len() + k])
                        == taken(all[k]),
            decreases total - n,
        {
            let ghost before = self.entries@;
            let line = lines.remove(0);
            proof {
                assert(line == all[n as int]);
                assert(lines@ =~= all.skip(n + 1));
            }
            let edge = match line {
                Some(edge) => edge,
                None => {
                    assert(taken(all[n as int]) == Err::<Entry, Fault>(Fault::NoEdge));
                    return Fetched::Broken(Fault::NoEdge);
                },
            };
            let parsed = parse_read_at(edge.read_at.as_str());
            let entry = match entry_from(edge, parsed) {
                Ok(entry) => entry,
                Err(fault) => {
                    assert(taken(all[n as int]) == Err::<Entry, Fault>(fault));
                    return Fetched::Broken(fault);
                },
            };
            self.entries.push(entry);
            proof {
                assert(self.entries@.take(base.len() as int) =~= before.take(base.len() as int));
                assert forall|k: int| 0 <= k < n + 1 implies Ok::<Entry, Fault>(
                    #[trigger] self.entries@[base.len() + k],
                ) == taken(all[k]) by {
                    if k < n {
                        assert(self.entries@[base.len() + k] == before[base.len() + k]);
                    }
                }
            }
            n += 1;
        }
        self.is_entries_empty = self.entries.len() == 0;
        self.loading = false;
        Fetched::Loaded
    }

    /// The title of the bar above the list.
    pub fn render_topbar() -> (title: &'static str)
        ensures
            title@ == "History"@,
    {
        "History"
    }

    /// How long ago `at` was, seen from `now`, both in seconds since the
    /// Unix epoch: the label for the number of calendar days between the
    /// two dates. There is none when the calendar cannot represent one of
    /// the times, which does not happen within [`in_calendar`].
    pub fn calculate_days(now: i64, at: i64) -> (r: Option<String>)
        ensures
            option_string(r) == label_for(calendar_days(now as int, at as int)),
            r matches Some(label) ==> label@ == age_label(now as int / 86400 - at as int / 86400),
            in_calendar(now as int) && in_calendar(at as int) ==> r is Some,
    {
        match days_between(now, at) {
            Some(days) => Some(age_label_of(days)),
            None => None,
        }
    }

    /// What is drawn for each entry at the time `now`, in the order of the
    /// entries. There is nothing to draw when the age of an entry cannot be
    /// told.
    pub fn render_main(&self, now: i64) -> (r: Option<Vec<EntryRow>>)
        ensures
            r is Some <==> forall|k: int|
                0 <= k < self.entries@.len() ==> calendar_days(
                    now as int,
                    (#[trigger] self.entries@[k]).read_at as int,
                ) is Some,
            r matches Some(rows) ==> {
                &&& rows@.len() == self.entries@.len()
                &&& forall|k: int|
                    0 <= k < rows@.len() ==> {
                        let row = #[trigger] rows@[k];
                        let entry = self.entries@[k];
                        &&& row.manga_id == entry.manga_id
                        &&& row.chapter_id == entry.chapter_id
                        &&& row.last_page_read == entry.last_page_read
                        &&& row.cover_url@ == entry.cover_url@
                        &&& row.manga_title@ == entry.manga_title@
                        &&& row.chapter_title@ == entry.chapter_title@
                        &&& Some(row.date_updated@) == label_for(
                            calendar_days(now as int, entry.read_at as int),
                        )
                    }
            },
    {
        let mut rows: Vec<EntryRow> = Vec::new();
        let mut i: usize = 0;
        while i < self.entries.len()
            invariant
                i <= self.entries@.len(),
                rows@.len() == i,
                forall|k: int|
                    0 <= k < i ==> calendar_days(
                        now as int,
                        (#[trigger] self.entries@[k]).read_at as int,
                    ) is Some,
                forall|k: int|
                    0 <= k < i ==> {
                        let row = #[trigger] rows@[k];
                        let entry = self.entries@[k];
                        &&& row.manga_id == entry.manga_id
                        &&& row.chapter_id == entry.chapter_id
                        &&& row.last_page_read == entry.last_page_read
                        &&& row.cover_url@ == entry.cover_url@
                        &&& row.manga_title@ == entry.manga_title@
                        &&& row.chapter_title@ == entry.chapter_title@
                        &&& Some(row.date_updated@) == label_for(
                            calendar_days(now as int, entry.read_at as int),
                        )
                    },
            decreases self.entries@.len() - i,
        {
            let entry = &self.entries[i];
            let date_updated = match Self::calculate_days(now, entry.read_at) {
                Some(label) => label,
                None => {
                    return None;
                },
            };
            rows.push(
                EntryRow {
                    manga_id: entry.manga_id,
                    chapter_id: entry.chapter_id,
                    last_page_read: entry.last_page_read,
                    cover_url: entry.cover_url.clone(),
                    manga_title: entry.manga_title.clone(),
                    chapter_title: entry.chapter_title.clone(),
                    date_updated,
                },
            );
            i += 1;
        }
        Some(rows)
    }

    /// What stands under the list: a spinner while a fetch is under way,
    /// else the button for the next page, which is disabled and says so
    /// when the history is empty.
    pub fn render(&self) -> (r: LoadMore)
        ensures
            self.loading ==> r is Spinner,
            !self.loading ==> r is Button,
            r matches LoadMore::Button { disabled, label } ==> disabled == self.is_entries_empty
                && label@ == (if self.is_entries_empty {
                "No recent histories, favorite manga to see recent histories"@
            } else {
                "Load More"@
            }),
    {
        if self.loading {
            LoadMore::Spinner
        } else {
            LoadMore::Button {
                disabled: self.is_entries_empty,
                label: if self.is_entries_empty {
                    "No recent histories, favorite manga to see recent histories"
                } else {
                    "Load More"
                },
            }
        }
    }
}

} // verus!
