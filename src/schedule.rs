//! Schedule resolver: which schedule entry is authoritative at a given
//! instant. Dates are day numbers (consecutive integers, one per calendar
//! day); times are milliseconds since midnight.
use vstd::prelude::*;
use crate::numbers::{decimal, decimal_string};
use crate::text::text_concat;

verus! {

#[derive(Clone, Copy, Debug, PartialEq, Eq, Structural)]
pub enum RepeatPattern {
    /// Authoritative only on the entry's own date.
    Once,
    /// Every day from the entry's date on.
    Daily,
    /// Every week, on the entry's day of the week, from its date on.
    Weekly,
}

pub struct ScheduleEntry {
    pub id: u128,
    pub playlist_id: u128,
    /// Day number of the entry's date.
    pub date: i64,
    /// Milliseconds since midnight; an entry without one never starts.
    pub start_time_ms: Option<u32>,
    pub repeat: RepeatPattern,
    /// Day numbers on which the entry is suppressed.
    pub exception_dates: Vec<i64>,
}

/// The entry that won, and what the playout needs of it.
#[derive(Clone, Copy, Debug, PartialEq, Eq, Structural)]
pub struct Resolution {
    /// Position of the winning entry in the list that was resolved.
    pub index: usize,
    pub playlist_id: u128,
    pub start_time_ms: u32,
    pub repeat: RepeatPattern,
    pub date: i64,
}

/// The pattern and date of an entry admit `today`, before exceptions.
pub open spec fn pattern_admits(repeat: RepeatPattern, date: int, today: int) -> bool {
    match repeat {
        RepeatPattern::Once => date == today,
        RepeatPattern::Daily => date <= today,
        RepeatPattern::Weekly => date <= today && (today - date) % 7 == 0,
    }
}

/// An entry with this pattern, date and exception dates is valid on `today`.
pub open spec fn valid_on(repeat: RepeatPattern, date: int, exceptions: Seq<i64>, today: int) -> bool {
    pattern_admits(repeat, date, today) && !exceptions.contains(today as i64)
}

pub open spec fn entry_valid_on(e: ScheduleEntry, today: int) -> bool {
    valid_on(e.repeat, e.date as int, e.exception_dates@, today)
}

/// The entry is valid today and has already begun at `now_ms`.
pub open spec fn is_candidate(e: ScheduleEntry, today: int, now_ms: int) -> bool {
    &&& entry_valid_on(e, today)
    &&& e.start_time_ms is Some
    &&& e.start_time_ms.unwrap() <= now_ms
}

/// Precedence among entries that start at the same time: a dated entry
/// before a daily one before a weekly one.
pub open spec fn pattern_rank(p: RepeatPattern) -> int {
    match p {
        RepeatPattern::Once => 2,
        RepeatPattern::Daily => 1,
        RepeatPattern::Weekly => 0,
    }
}

/// `a` takes precedence over `b`: it started later, or at the same time
/// with a higher-ranked pattern.
pub open spec fn preferred(a: ScheduleEntry, b: ScheduleEntry) -> bool {
    let sa = a.start_time_ms.unwrap() as int;
    let sb = b.start_time_ms.unwrap() as int;
    sa > sb || (sa == sb && pattern_rank(a.repeat) > pattern_rank(b.repeat))
}

/// Entry `w` of `entries` is the authoritative one: a candidate that no
/// candidate takes precedence over, and the first of those.
pub open spec fn is_winner(entries: Seq<ScheduleEntry>, w: int, today: int, now_ms: int) -> bool {
    &&& 0 <= w < entries.len()
    &&& is_candidate(entries[w], today, now_ms)
    &&& forall|j: int|
        0 <= j < entries.len() && is_candidate(#[trigger] entries[j], today, now_ms) ==> {
            &&& !preferred(entries[j], entries[w])
            &&& (j < w ==> preferred(entries[w], entries[j]))
        }
}

fn contains_date(dates: &Vec<i64>, d: i64) -> (r: bool)
    ensures
        r == dates@.contains(d),
{
    let mut i: usize = 0;
    while i < dates.len()
        invariant
            0 <= i <= dates.len(),
            forall|k: int| 0 <= k < i ==> dates@[k] != d,
        decreases dates.len() - i,
    {
        if dates[i] == d {
            return true;
        }
        i = i + 1;
    }
    false
}

fn rank(p: RepeatPattern) -> (r: u8)
    ensures
        r as int == pattern_rank(p),
{
    match p {
        RepeatPattern::Once => 2,
        RepeatPattern::Daily => 1,
        RepeatPattern::Weekly => 0,
    }
}

impl ScheduleEntry {
    /// The entry is valid on day `today`: its pattern admits the day and the
    /// day is not one of its exceptions.
    pub fn is_valid_on(&self, today: i64) -> (r: bool)
        ensures
            r == entry_valid_on(*self, today as int),
    {
        let admits = match self.repeat {
            RepeatPattern::Once => self.date == today,
            RepeatPattern::Daily => self.date <= today,
            RepeatPattern::Weekly => self.date <= today && (today as i128 - self.date as i128) % 7 == 0,
        };
        admits && !contains_date(&self.exception_dates, today)
    }

    fn is_candidate_at(&self, today: i64, now_ms: u32) -> (r: bool)
        ensures
            r == is_candidate(*self, today as int, now_ms as int),
    {
        match self.start_time_ms {
            Some(st) => st <= now_ms && self.is_valid_on(today),
            None => false,
        }
    }
}

/// Resolves the authoritative entry on day `today` at `now_ms` milliseconds
/// after midnight: among the entries valid today that have already started,
/// the one that started last (ties: dated, then daily, then weekly, then the
/// earlier in the list). `None` when no entry qualifies.
pub fn resolve(entries: &Vec<ScheduleEntry>, today: i64, now_ms: u32) -> (r: Option<Resolution>)
    ensures
        r is None <==> forall|j: int|
            0 <= j < entries@.len() ==> !is_candidate(#[trigger] entries@[j], today as int, now_ms as int),
        r matches Some(res) ==> {
            &&& is_winner(entries@, res.index as int, today as int, now_ms as int)
            &&& res.playlist_id == entries@[res.index as int].playlist_id
            &&& Some(res.start_time_ms) == entries@[res.index as int].start_time_ms
            &&& res.repeat == entries@[res.index as int].repeat
            &&& res.date == entries@[res.index as int].date
        },
{
    let mut best: Option<usize> = None;
    let mut i: usize = 0;
    while i < entries.len()
        invariant
            0 <= i <= entries.len(),
            best is None ==> forall|j: int|
                0 <= j < i ==> !is_candidate(#[trigger] entries@[j], today as int, now_ms as int),
            best matches Some(b) ==> {
                &&& b < i
                &&& is_candidate(entries@[b as int], today as int, now_ms as int)
                &&& forall|j: int|
                    0 <= j < i && is_candidate(#[trigger] entries@[j], today as int, now_ms as int) ==> {
                        &&& !preferred(entries@[j], entries@[b as int])
                        &&& (j < b ==> preferred(entries@[b as int], entries@[j]))
                    }
            },
        decreases entries.len() - i,
    {
        let e = &entries[i];
        if e.is_candidate_at(today, now_ms) {
            let take = match best {
                None => true,
                Some(b) => {
                    let cur = &entries[b];
                    let sa = e.start_time_ms.unwrap();
                    let sb = cur.start_time_ms.unwrap();
                    sa > sb || (sa == sb && rank(e.repeat) > rank(cur.repeat))
                },
            };
            if take {
                best = Some(i);
            }
        }
        i = i + 1;
    }
    match best {
        None => None,
        Some(b) => {
            let e = &entries[b];
            Some(Resolution {
                index: b,
                playlist_id: e.playlist_id,
                start_time_ms: e.start_time_ms.unwrap(),
                repeat: e.repeat,
                date: e.date,
            })
        },
    }
}

/// The calendar date of day number `day` written `YYYY-MM-DD` (empty when
/// the day lies outside the calendar's range).
pub uninterp spec fn iso_date(day: int) -> Seq<char>;

/// Relies on chrono: `NaiveDate::from_num_days_from_ce_opt` gives the date of
/// a day number, and its `%Y-%m-%d` format writes it.
#[verifier::external_body]
fn iso_date_text(day: i64) -> (r: String)
    ensures
        r@ == iso_date(day as int),
{
    i32::try_from(day)
        .ok()
        .and_then(chrono::NaiveDate::from_num_days_from_ce_opt)
        .map(|d| d.format("%Y-%m-%d").to_string())
        .unwrap_or_default()
}

/// Day of the week of day number `day`, Monday being 0 (day 1 of the
/// common era was a Monday).
pub open spec fn weekday(day: int) -> int {
    (day - 1) % 7
}

fn weekday_exec(day: i64) -> (r: u64)
    ensures
        r as int == weekday(day as int),
{
    let w = (day as i128 - 1) % 7;
    if w < 0 {
        (w + 7) as u64
    } else {
        w as u64
    }
}

/// How the status names the entry that won on day `today`, its date
/// written as `date`.
pub open spec fn source_text(res: Resolution, today: int, date: Seq<char>) -> Seq<char> {
    match res.repeat {
        RepeatPattern::Daily => "Daily (from "@ + date + ")"@,
        RepeatPattern::Weekly => "Weekly (DOW "@ + decimal(weekday(today) as nat) + ", from "@ + date
            + ")"@,
        RepeatPattern::Once => "Direct ("@ + date + ")"@,
    }
}

/// The description of the authoritative entry, given the text of its date.
pub fn describe_source(res: &Resolution, today: i64, date: &str) -> (r: String)
    ensures
        r@ == source_text(*res, today as int, date@),
{
    match res.repeat {
        RepeatPattern::Daily => {
            let a = text_concat("Daily (from ", date);
            text_concat(a.as_str(), ")")
        },
        RepeatPattern::Weekly => {
            let dow = decimal_string(weekday_exec(today));
            let a = text_concat("Weekly (DOW ", dow.as_str());
            let b = text_concat(a.as_str(), ", from ");
            let c = text_concat(b.as_str(), date);
            text_concat(c.as_str(), ")")
        },
        RepeatPattern::Once => {
            let a = text_concat("Direct (", date);
            text_concat(a.as_str(), ")")
        },
    }
}

/// The description of the authoritative entry shown in the status.
pub fn source_description(res: &Resolution, today: i64) -> (r: String)
    ensures
        r@ == source_text(*res, today as int, iso_date(res.date as int)),
{
    let date = iso_date_text(res.date);
    describe_source(res, today, date.as_str())
}

/// The winner is unique: two indices that both satisfy `is_winner` are the
/// same.
pub proof fn lemma_winner_unique(entries: Seq<ScheduleEntry>, a: int, b: int, today: int, now_ms: int)
    requires
        is_winner(entries, a, today, now_ms),
        is_winner(entries, b, today, now_ms),
    ensures
        a == b,
{
    assert(is_candidate(entries[b], today, now_ms));
    assert(is_candidate(entries[a], today, now_ms));
}

/// No candidate with a later start time than the winner's exists.
pub proof fn lemma_no_later_candidate(entries: Seq<ScheduleEntry>, w: int, j: int, today: int, now_ms: int)
    requires
        is_winner(entries, w, today, now_ms),
        0 <= j < entries.len(),
        is_candidate(entries[j], today, now_ms),
    ensures
        entries[j].start_time_ms.unwrap() <= entries[w].start_time_ms.unwrap(),
{
    assert(!preferred(entries[j], entries[w]));
}

/// An exception date suppresses an entry on that date and on no other, and
/// removing the date again restores the entry's validity on it.
pub proof fn lemma_exception_round_trip(
    repeat: RepeatPattern,
    date: int,
    exceptions: Seq<i64>,
    today: i64,
    other: i64,
)
    requires
        !exceptions.contains(today),
    ensures
        !valid_on(repeat, date, exceptions.push(today), today as int),
        other != today ==> valid_on(repeat, date, exceptions.push(today), other as int) == valid_on(
            repeat,
            date,
            exceptions,
            other as int,
        ),
        valid_on(repeat, date, exceptions.push(today).filter(|d: i64| d != today), today as int)
            == valid_on(repeat, date, exceptions, today as int),
{
    let added = exceptions.push(today);
    assert(added[added.len() - 1] == today);
    if other != today {
        if added.contains(other) {
            let k = choose|k: int| 0 <= k < added.len() && added[k] == other;
            assert(exceptions[k] == other);
        }
        if exceptions.contains(other) {
            let k = choose|k: int| 0 <= k < exceptions.len() && exceptions[k] == other;
            assert(added[k] == other);
        }
    }
    let removed = added.filter(|d: i64| d != today);
    if removed.contains(today) {
        let k = choose|k: int| 0 <= k < removed.len() && removed[k] == today;
        added.lemma_filter_pred(|d: i64| d != today, k);
    }
}

/// Two entry lists in which the same positions hold candidates, with the
/// same start times and patterns, have the same winner.
pub proof fn lemma_same_candidates_same_winner(
    a: Seq<ScheduleEntry>,
    b: Seq<ScheduleEntry>,
    w: int,
    today: int,
    now_ms: int,
)
    requires
        a.len() == b.len(),
        forall|i: int|
            0 <= i < a.len() ==> {
                &&& is_candidate(#[trigger] a[i], today, now_ms) == is_candidate(b[i], today, now_ms)
                &&& a[i].start_time_ms == b[i].start_time_ms
                &&& a[i].repeat == b[i].repeat
            },
    ensures
        is_winner(a, w, today, now_ms) <==> is_winner(b, w, today, now_ms),
{
    if is_winner(a, w, today, now_ms) {
        assert forall|j: int| 0 <= j < b.len() && is_candidate(#[trigger] b[j], today, now_ms) implies {
            &&& !preferred(b[j], b[w])
            &&& (j < w ==> preferred(b[w], b[j]))
        } by {
            assert(is_candidate(a[j], today, now_ms));
            assert(a[w].start_time_ms == b[w].start_time_ms);
        }
    }
    if is_winner(b, w, today, now_ms) {
        assert forall|j: int| 0 <= j < a.len() && is_candidate(#[trigger] a[j], today, now_ms) implies {
            &&& !preferred(a[j], a[w])
            &&& (j < w ==> preferred(a[w], a[j]))
        } by {
            assert(is_candidate(b[j], today, now_ms));
            assert(a[w].start_time_ms == b[w].start_time_ms);
        }
    }
}

/// Entry `k` of `b` is entry `k` of `a` with its exceptions changed, and
/// nothing else differs.
pub open spec fn differs_in_exceptions(a: Seq<ScheduleEntry>, b: Seq<ScheduleEntry>, k: int) -> bool {
    &&& a.len() == b.len()
    &&& 0 <= k < a.len()
    &&& forall|i: int| 0 <= i < a.len() && i != k ==> #[trigger] b[i] == a[i]
    &&& b[k].id == a[k].id
    &&& b[k].playlist_id == a[k].playlist_id
    &&& b[k].date == a[k].date
    &&& b[k].start_time_ms == a[k].start_time_ms
    &&& b[k].repeat == a[k].repeat
}

/// An exception on a day other than `today` changes no resolution made on
/// `today`: both lists have the same winner.
pub proof fn lemma_exception_elsewhere_keeps_resolution(
    a: Seq<ScheduleEntry>,
    b: Seq<ScheduleEntry>,
    k: int,
    d: i64,
    w: int,
    today: i64,
    now_ms: int,
)
    requires
        differs_in_exceptions(a, b, k),
        b[k].exception_dates@ == a[k].exception_dates@.push(d),
        d != today,
    ensures
        is_winner(a, w, today as int, now_ms) <==> is_winner(b, w, today as int, now_ms),
{
    let ea = a[k].exception_dates@;
    let eb = b[k].exception_dates@;
    if eb.contains(today) {
        let j = choose|j: int| 0 <= j < eb.len() && eb[j] == today;
        assert(j < ea.len());
        assert(ea[j] == today);
    }
    if ea.contains(today) {
        let j = choose|j: int| 0 <= j < ea.len() && ea[j] == today;
        assert(eb[j] == today);
    }
    assert forall|i: int| 0 <= i < a.len() implies {
        &&& is_candidate(#[trigger] a[i], today as int, now_ms) == is_candidate(b[i], today as int, now_ms)
        &&& a[i].start_time_ms == b[i].start_time_ms
        &&& a[i].repeat == b[i].repeat
    } by {
        if i != k {
            assert(b[i] == a[i]);
        }
    }
    lemma_same_candidates_same_winner(a, b, w, today as int, now_ms);
}

/// Adding `today` to an entry's exceptions and removing it again gives back
/// the resolution made without it: both lists have the same winner.
pub proof fn lemma_exception_round_trip_keeps_resolution(
    a: Seq<ScheduleEntry>,
    b: Seq<ScheduleEntry>,
    k: int,
    w: int,
    today: i64,
    now_ms: int,
)
    requires
        differs_in_exceptions(a, b, k),
        !a[k].exception_dates@.contains(today),
        b[k].exception_dates@ == a[k].exception_dates@.push(today).filter(|x: i64| x != today),
    ensures
        is_winner(a, w, today as int, now_ms) <==> is_winner(b, w, today as int, now_ms),
{
    lemma_exception_round_trip(a[k].repeat, a[k].date as int, a[k].exception_dates@, today, today);
    assert forall|i: int| 0 <= i < a.len() implies {
        &&& is_candidate(#[trigger] a[i], today as int, now_ms) == is_candidate(b[i], today as int, now_ms)
        &&& a[i].start_time_ms == b[i].start_time_ms
        &&& a[i].repeat == b[i].repeat
    } by {
        if i != k {
            assert(b[i] == a[i]);
        }
    }
    lemma_same_candidates_same_winner(a, b, w, today as int, now_ms);
}

} // verus!
