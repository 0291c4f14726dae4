//! Focus statistics: per day, how many focus sessions were finished and how
//! many minutes they lasted.

use vstd::prelude::*;
use chrono::NaiveDate;
use crate::clock::{
    date_le, days_before, format_ymd, is_local_date, local_today, parse_ymd, spec_date_le, spec_days_before,
    spec_format_ymd, spec_parse_ymd,
};
use crate::text::{lemma_text_le_total, lemma_text_le_transitive, str_eq, str_le, text_le};

verus! {

/// How many days of statistics are kept.
pub const MAX_DAYS: usize = 60;

/// One day's focus: its date written `YYYY-MM-DD`, the sessions finished and
/// their minutes.
#[derive(Debug)]
pub struct DayEntry {
    pub date: String,
    pub sessions: u32,
    pub minutes: u32,
}

impl Clone for DayEntry {
    fn clone(&self) -> (r: Self)
        ensures
            r == *self,
    {
        DayEntry { date: self.date.clone(), sessions: self.sessions, minutes: self.minutes }
    }
}

/// The days recorded, oldest first.
#[derive(Debug)]
pub struct StatsStore {
    pub version: u32,
    pub entries: Vec<DayEntry>,
}

impl Default for StatsStore {
    fn default() -> (r: Self)
        ensures
            r.version == 1,
            r.entries@.len() == 0,
    {
        StatsStore { version: 1, entries: Vec::new() }
    }
}

/// Whether some day in `entries` has the date `date`.
pub open spec fn has_date(entries: Seq<DayEntry>, date: Seq<char>) -> bool {
    exists|i: int| 0 <= i < entries.len() && #[trigger] entries[i].date@ == date
}

/// Whether `i` is the first day in `entries` with the date `date`.
pub open spec fn is_first_on(entries: Seq<DayEntry>, date: Seq<char>, i: int) -> bool {
    &&& 0 <= i < entries.len()
    &&& entries[i].date@ == date
    &&& forall|j: int| 0 <= j < i ==> #[trigger] entries[j].date@ != date
}

/// The first day in `entries` with the date `date` (meaningful where there
/// is one).
pub open spec fn first_on(entries: Seq<DayEntry>, date: Seq<char>) -> int {
    choose|i: int| is_first_on(entries, date, i)
}

/// The entry of the day `date`, if recorded.
pub open spec fn entry_on(entries: Seq<DayEntry>, date: Seq<char>) -> Option<DayEntry> {
    if has_date(entries, date) {
        Some(entries[first_on(entries, date)])
    } else {
        None
    }
}

/// The sessions and minutes of the day `date`; nothing recorded is zero.
pub open spec fn totals_on(entries: Seq<DayEntry>, date: Seq<char>) -> (u32, u32) {
    match entry_on(entries, date) {
        Some(e) => (e.sessions, e.minutes),
        None => (0, 0),
    }
}

/// `entries` with one more session of `minutes` minutes on the day `date`:
/// added to that day's entry, or as a new entry at the end.
pub open spec fn with_session(entries: Seq<DayEntry>, date: String, minutes: u32) -> Seq<DayEntry> {
    if has_date(entries, date@) {
        let i = first_on(entries, date@);
        entries.update(
            i,
            DayEntry {
                sessions: (entries[i].sessions + 1) as u32,
                minutes: (entries[i].minutes + minutes) as u32,
                ..entries[i]
            },
        )
    } else {
        entries.push(DayEntry { date, sessions: 1, minutes })
    }
}

/// Whether adding a session of `minutes` minutes to the day `date` keeps its
/// counts in `u32`s.
pub open spec fn can_add_session(entries: Seq<DayEntry>, date: Seq<char>, minutes: u32) -> bool {
    has_date(entries, date) ==> {
        let e = entries[first_on(entries, date)];
        e.sessions < u32::MAX && e.minutes + minutes <= u32::MAX
    }
}

/// `sorted` with `e` put after every day that is not later than it (and
/// before the later ones). On a list sorted by date this keeps it sorted,
/// and a day already there with the same date stays first.
pub open spec fn insert_by_date(sorted: Seq<DayEntry>, e: DayEntry) -> Seq<DayEntry>
    decreases sorted.len(),
{
    if sorted.len() == 0 {
        seq![e]
    } else if text_le(sorted.last().date@, e.date@) {
        sorted.push(e)
    } else {
        insert_by_date(sorted.drop_last(), e).push(sorted.last())
    }
}

/// `entries` sorted by date, days with equal dates kept in their order (the
/// result of a stable sort).
pub open spec fn sorted_by_date(entries: Seq<DayEntry>) -> Seq<DayEntry>
    decreases entries.len(),
{
    if entries.len() == 0 {
        entries
    } else {
        insert_by_date(sorted_by_date(entries.drop_last()), entries.last())
    }
}

/// The last `MAX_DAYS` days of `entries`, or all of them if there are no
/// more.
pub open spec fn last_days(entries: Seq<DayEntry>) -> Seq<DayEntry> {
    if entries.len() > MAX_DAYS {
        entries.subrange(entries.len() - MAX_DAYS, entries.len() as int)
    } else {
        entries
    }
}

/// What recording a session of `minutes` minutes on the day `date` makes of
/// `entries`: the session added, the days sorted by date, the oldest dropped
/// beyond `MAX_DAYS`.
pub open spec fn recorded(entries: Seq<DayEntry>, date: String, minutes: u32) -> Seq<DayEntry> {
    last_days(sorted_by_date(with_session(entries, date, minutes)))
}

/// The entry a reference points at, as a value.
pub open spec fn entry_ref(r: Option<&DayEntry>) -> Option<DayEntry> {
    match r {
        Some(e) => Some(*e),
        None => None,
    }
}

/// Whether a day lies between `start` and `today`, both included, as chrono
/// orders dates: its date must be read by chrono as a date.
pub open spec fn in_week(e: DayEntry, start: NaiveDate, today: NaiveDate) -> bool {
    match spec_parse_ymd(e.date@) {
        Some(d) => spec_date_le(start, d) && spec_date_le(d, today),
        None => false,
    }
}

/// The sessions of the days of `entries` between `start` and `today`.
pub open spec fn week_sessions(entries: Seq<DayEntry>, start: NaiveDate, today: NaiveDate) -> nat
    decreases entries.len(),
{
    if entries.len() == 0 {
        0
    } else {
        week_sessions(entries.drop_last(), start, today) + if in_week(entries.last(), start, today) {
            entries.last().sessions as nat
        } else {
            0
        }
    }
}

/// The minutes of the days of `entries` between `start` and `today`.
pub open spec fn week_minutes(entries: Seq<DayEntry>, start: NaiveDate, today: NaiveDate) -> nat
    decreases entries.len(),
{
    if entries.len() == 0 {
        0
    } else {
        week_minutes(entries.drop_last(), start, today) + if in_week(entries.last(), start, today) {
            entries.last().minutes as nat
        } else {
            0
        }
    }
}

/// The sessions and minutes between `start` and `today`, as `u32`s.
pub open spec fn week_of(entries: Seq<DayEntry>, start: NaiveDate, today: NaiveDate) -> (u32, u32) {
    (week_sessions(entries, start, today) as u32, week_minutes(entries, start, today) as u32)
}

/// Whether the sessions and minutes between `start` and `today` fit `u32`s.
pub open spec fn week_fits(entries: Seq<DayEntry>, start: NaiveDate, today: NaiveDate) -> bool {
    week_sessions(entries, start, today) <= u32::MAX && week_minutes(entries, start, today) <= u32::MAX
}

/// The sessions and minutes of the week that ends on `today`: from the date
/// chrono counts six days back through `today`; `None` where that date lies
/// outside chrono's range.
pub open spec fn week_on(entries: Seq<DayEntry>, today: NaiveDate) -> Option<(u32, u32)> {
    match spec_days_before(today, 6) {
        Some(start) => Some(week_of(entries, start, today)),
        None => None,
    }
}

/// Whether the week that ends on `today` fits `u32`s.
pub open spec fn week_fits_on(entries: Seq<DayEntry>, today: NaiveDate) -> bool {
    match spec_days_before(today, 6) {
        Some(start) => week_fits(entries, start, today),
        None => true,
    }
}

/// The sessions of all days in `entries`.
pub open spec fn total_sessions(entries: Seq<DayEntry>) -> nat
    decreases entries.len(),
{
    if entries.len() == 0 {
        0
    } else {
        total_sessions(entries.drop_last()) + entries.last().sessions as nat
    }
}

/// The minutes of all days in `entries`.
pub open spec fn total_minutes(entries: Seq<DayEntry>) -> nat
    decreases entries.len(),
{
    if entries.len() == 0 {
        0
    } else {
        total_minutes(entries.drop_last()) + entries.last().minutes as nat
    }
}

proof fn lemma_first_on_unique(entries: Seq<DayEntry>, date: Seq<char>, i: int)
    requires
        is_first_on(entries, date, i),
    ensures
        has_date(entries, date),
        first_on(entries, date) == i,
{
    assert(entries[i].date@ == date);
    let k = first_on(entries, date);
    assert(is_first_on(entries, date, k));
    if k < i {
        assert(entries[k].date@ != date);
    } else if k > i {
        assert(entries[i].date@ != date);
    }
}

proof fn lemma_first_on_exists(entries: Seq<DayEntry>, date: Seq<char>, k: int)
    requires
        0 <= k < entries.len(),
        entries[k].date@ == date,
    ensures
        is_first_on(entries, date, first_on(entries, date)),
    decreases k,
{
    if forall|j: int| 0 <= j < k ==> #[trigger] entries[j].date@ != date {
        assert(is_first_on(entries, date, k));
    } else {
        let j = choose|j: int| 0 <= j < k && #[trigger] entries[j].date@ == date;
        lemma_first_on_exists(entries, date, j);
    }
}

proof fn lemma_week_of_prefix(entries: Seq<DayEntry>, i: int, start: NaiveDate, today: NaiveDate)
    requires
        0 <= i <= entries.len(),
    ensures
        week_sessions(entries.take(i), start, today) <= week_sessions(entries, start, today),
        week_minutes(entries.take(i), start, today) <= week_minutes(entries, start, today),
    decreases entries.len() - i,
{
    if i < entries.len() {
        lemma_week_of_prefix(entries, i + 1, start, today);
        assert(entries.take(i + 1).drop_last() =~= entries.take(i));
    } else {
        assert(entries.take(i) =~= entries);
    }
}

/// Puts `e` into `sorted` as [`insert_by_date`] says.
fn insert_entry(sorted: &mut Vec<DayEntry>, e: DayEntry)
    ensures
        final(sorted)@ == insert_by_date(old(sorted)@, e),
    decreases old(sorted)@.len(),
{
    let n = sorted.len();
    if n == 0 {
        sorted.push(e);
        assert(sorted@ =~= seq![e]);
        return;
    }
    if str_le(sorted[n - 1].date.as_str(), e.date.as_str()) {
        sorted.push(e);
    } else {
        let last = sorted.pop().unwrap();
        assert(sorted@ =~= old(sorted)@.drop_last());
        insert_entry(sorted, e);
        sorted.push(last);
    }
}

/// Sorts `entries` by date, as [`sorted_by_date`] says.
fn sort_by_date(entries: &mut Vec<DayEntry>)
    ensures
        final(entries)@ == sorted_by_date(old(entries)@),
    decreases old(entries)@.len(),
{
    match entries.pop() {
        None => {},
        Some(last) => {
            assert(entries@ =~= old(entries)@.drop_last());
            sort_by_date(entries);
            insert_entry(entries, last);
        },
    }
}

impl StatsStore {
    /// Where the first day with date `date` stands, if any.
    pub fn position(&self, date: &str) -> (r: Option<usize>)
        ensures
            r matches Some(i) ==> is_first_on(self.entries@, date@, i as int) && first_on(self.entries@, date@)
                == i,
            r is None <==> !has_date(self.entries@, date@),
    {
        let n = self.entries.len();
        let mut i: usize = 0;
        while i < n
            invariant
                n == self.entries@.len(),
                i <= n,
                forall|j: int| 0 <= j < i ==> #[trigger] self.entries@[j].date@ != date@,
            decreases n - i,
        {
            if str_eq(self.entries[i].date.as_str(), date) {
                proof { lemma_first_on_unique(self.entries@, date@, i as int); }
                return Some(i);
            }
            i = i + 1;
        }
        proof {
            if has_date(self.entries@, date@) {
                let k = choose|k: int| 0 <= k < self.entries@.len() && #[trigger] self.entries@[k].date@ == date@;
                assert(self.entries@[k].date@ != date@);
            }
        }
        None
    }

    /// Records a finished focus session of `minutes` minutes today, on the
    /// date chrono writes for the local calendar. Returns `false`, and
    /// changes nothing, where today's date cannot be read (see
    /// [`local_today`]).
    pub fn record_focus(&mut self, minutes: u32) -> (done: bool)
        requires
            forall|d: NaiveDate| #[trigger] can_add_session(old(self).entries@, spec_format_ymd(d), minutes),
        ensures
            final(self).version == old(self).version,
            !done ==> final(self).entries@ == old(self).entries@,
            done ==> exists|d: NaiveDate, date: String|
                #![trigger is_local_date(d), recorded(old(self).entries@, date, minutes)]
                is_local_date(d) && date@ == spec_format_ymd(d) && recorded(old(self).entries@, date, minutes)
                    == final(self).entries@,
    {
        match local_today() {
            Some(d) => {
                let today = format_ymd(&d);
                assert(can_add_session(self.entries@, spec_format_ymd(d), minutes));
                self.record_focus_on(today, minutes);
                true
            },
            None => false,
        }
    }

    /// Records a finished focus session of `minutes` minutes on the day
    /// `date` (written `YYYY-MM-DD`): the session is added to that day, the
    /// days are sorted by date, and only the last `MAX_DAYS` are kept.
    pub fn record_focus_on(&mut self, date: String, minutes: u32)
        requires
            can_add_session(old(self).entries@, date@, minutes),
        ensures
            final(self).version == old(self).version,
            final(self).entries@ == recorded(old(self).entries@, date, minutes),
    {
        match self.position(date.as_str()) {
            Some(i) => {
                let mut e = self.entries[i].clone();
                e.sessions = e.sessions + 1;
                e.minutes = e.minutes + minutes;
                self.entries.set(i, e);
            },
            None => {
                self.entries.push(DayEntry { date, sessions: 1, minutes });
            },
        }
        sort_by_date(&mut self.entries);
        if self.entries.len() > MAX_DAYS {
            let drain = self.entries.len() - MAX_DAYS;
            let kept = self.entries.split_off(drain);
            self.entries = kept;
        }
    }

    /// The entry of the day `date`, if recorded.
    pub fn day(&self, date: &str) -> (r: Option<&DayEntry>)
        ensures
            entry_ref(r) == entry_on(self.entries@, date@),
    {
        match self.position(date) {
            Some(i) => Some(&self.entries[i]),
            None => None,
        }
    }

    /// Today's entry, if recorded: the entry of the date chrono writes for
    /// today on the local calendar. `None` also where today's date cannot be
    /// read (see [`local_today`]).
    pub fn today(&self) -> (r: Option<&DayEntry>)
        ensures
            r is Some ==> exists|d: NaiveDate|
                is_local_date(d) && #[trigger] entry_on(self.entries@, spec_format_ymd(d)) == entry_ref(r),
    {
        match local_today() {
            Some(d) => {
                let today = format_ymd(&d);
                let r = self.day(today.as_str());
                assert(entry_on(self.entries@, spec_format_ymd(d)) == entry_ref(r));
                r
            },
            None => None,
        }
    }

    /// Today's sessions and minutes (zero when nothing is recorded); `None`
    /// where today's date cannot be read.
    pub fn today_totals(&self) -> (r: Option<(u32, u32)>)
        ensures
            r matches Some(x) ==> exists|d: NaiveDate|
                is_local_date(d) && #[trigger] totals_on(self.entries@, spec_format_ymd(d)) == x,
    {
        match local_today() {
            Some(d) => {
                let today = format_ymd(&d);
                let r = match self.day(today.as_str()) {
                    Some(e) => (e.sessions, e.minutes),
                    None => (0, 0),
                };
                assert(totals_on(self.entries@, spec_format_ymd(d)) == r);
                Some(r)
            },
            None => None,
        }
    }

    /// The sessions and minutes of the week that ends today (the six days
    /// before it and today); `None` where today's date cannot be read, or
    /// the week reaches outside chrono's range.
    pub fn week_totals(&self) -> (r: Option<(u32, u32)>)
        requires
            forall|d: NaiveDate| is_local_date(d) ==> #[trigger] week_fits_on(self.entries@, d),
        ensures
            r is Some ==> exists|d: NaiveDate| is_local_date(d) && #[trigger] week_on(self.entries@, d) == r,
    {
        match local_today() {
            Some(d) => {
                assert(week_fits_on(self.entries@, d));
                self.week_totals_on(&d)
            },
            None => None,
        }
    }

    /// The sessions and minutes of the week that ends on `today`: the days
    /// whose date chrono reads, no earlier than the date six days before
    /// `today` and no later than `today`. `None` where chrono cannot count
    /// six days back from `today`.
    pub fn week_totals_on(&self, today: &NaiveDate) -> (r: Option<(u32, u32)>)
        requires
            week_fits_on(self.entries@, *today),
        ensures
            r == week_on(self.entries@, *today),
    {
        match days_before(today, 6) {
            Some(start) => Some(self.week_totals_between(&start, today)),
            None => None,
        }
    }

    /// The sessions and minutes of the days whose date chrono reads, no
    /// earlier than `start` and no later than `today`.
    pub fn week_totals_between(&self, start: &NaiveDate, today: &NaiveDate) -> (r: (u32, u32))
        requires
            week_fits(self.entries@, *start, *today),
        ensures
            r == week_of(self.entries@, *start, *today),
    {
        let n = self.entries.len();
        let mut sessions: u32 = 0;
        let mut minutes: u32 = 0;
        let mut i: usize = 0;
        while i < n
            invariant
                n == self.entries@.len(),
                i <= n,
                week_sessions(self.entries@, *start, *today) <= u32::MAX,
                week_minutes(self.entries@, *start, *today) <= u32::MAX,
                sessions == week_sessions(self.entries@.take(i as int), *start, *today),
                minutes == week_minutes(self.entries@.take(i as int), *start, *today),
            decreases n - i,
        {
            let ghost before = self.entries@.take(i as int);
            let ghost after = self.entries@.take(i + 1);
            proof {
                assert(after.drop_last() =~= before);
                lemma_week_of_prefix(self.entries@, i + 1, *start, *today);
            }
            let e = &self.entries[i];
            match parse_ymd(e.date.as_str()) {
                Some(d) => {
                    if date_le(start, &d) && date_le(&d, today) {
                        sessions = sessions + e.sessions;
                        minutes = minutes + e.minutes;
                    }
                },
                None => {},
            }
            i = i + 1;
        }
        proof {
            assert(self.entries@.take(n as int) =~= self.entries@);
        }
        (sessions, minutes)
    }
}


/// Whether the days of `entries` go by date, oldest first.
pub open spec fn dates_sorted(entries: Seq<DayEntry>) -> bool {
    forall|i: int, j: int| 0 <= i < j < entries.len() ==> text_le(#[trigger] entries[i].date@, #[trigger] entries[j].date@)
}

proof fn lemma_insert_shape(sorted: Seq<DayEntry>, e: DayEntry)
    ensures
        insert_by_date(sorted, e).len() == sorted.len() + 1,
        total_sessions(insert_by_date(sorted, e)) == total_sessions(sorted) + e.sessions,
        total_minutes(insert_by_date(sorted, e)) == total_minutes(sorted) + e.minutes,
        forall|k: int| 0 <= k < insert_by_date(sorted, e).len() ==> (#[trigger] insert_by_date(sorted, e)[k] == e
            || exists|m: int| 0 <= m < sorted.len() && sorted[m] == insert_by_date(sorted, e)[k]),
    decreases sorted.len(),
{
    let r = insert_by_date(sorted, e);
    if sorted.len() == 0 {
        assert(r.drop_last() =~= sorted);
    } else if text_le(sorted.last().date@, e.date@) {
        assert(r.drop_last() =~= sorted);
        assert forall|k: int| 0 <= k < r.len() implies (#[trigger] r[k] == e || exists|m: int|
            0 <= m < sorted.len() && sorted[m] == r[k]) by {
            if k < sorted.len() {
                assert(sorted[k] == r[k]);
            }
        }
    } else {
        let init = sorted.drop_last();
        lemma_insert_shape(init, e);
        let inner = insert_by_date(init, e);
        assert(r.drop_last() =~= inner);
        assert forall|k: int| 0 <= k < r.len() implies (#[trigger] r[k] == e || exists|m: int|
            0 <= m < sorted.len() && sorted[m] == r[k]) by {
            if k == r.len() - 1 {
                assert(sorted[sorted.len() - 1] == r[k]);
            } else {
                assert(inner[k] == r[k]);
                if inner[k] != e {
                    let m = choose|m: int| 0 <= m < init.len() && init[m] == inner[k];
                    assert(sorted[m] == r[k]);
                }
            }
        }
    }
}

proof fn lemma_insert_keeps_sorted(sorted: Seq<DayEntry>, e: DayEntry)
    requires
        dates_sorted(sorted),
    ensures
        dates_sorted(insert_by_date(sorted, e)),
    decreases sorted.len(),
{
    let r = insert_by_date(sorted, e);
    lemma_insert_shape(sorted, e);
    if sorted.len() == 0 {
    } else if text_le(sorted.last().date@, e.date@) {
        assert forall|i: int, j: int| 0 <= i < j < r.len() implies text_le(#[trigger] r[i].date@, #[trigger] r[j].date@) by {
            if j == r.len() - 1 {
                if i < sorted.len() - 1 {
                    lemma_text_le_transitive(r[i].date@, sorted.last().date@, e.date@);
                }
            } else {
                assert(r[i] == sorted[i] && r[j] == sorted[j]);
            }
        }
    } else {
        let init = sorted.drop_last();
        let last = sorted.last();
        assert forall|i: int, j: int| 0 <= i < j < init.len() implies text_le(#[trigger] init[i].date@, #[trigger] init[j].date@) by {
            assert(init[i] == sorted[i] && init[j] == sorted[j]);
        }
        lemma_insert_keeps_sorted(init, e);
        lemma_insert_shape(init, e);
        let inner = insert_by_date(init, e);
        lemma_text_le_total(last.date@, e.date@);
        assert forall|i: int, j: int| 0 <= i < j < r.len() implies text_le(#[trigger] r[i].date@, #[trigger] r[j].date@) by {
            if j == r.len() - 1 {
                assert(r[j] == last);
                assert(r[i] == inner[i]);
                if inner[i] == e {
                } else {
                    let m = choose|m: int| 0 <= m < init.len() && init[m] == inner[i];
                    assert(sorted[m] == init[m]);
                    assert(text_le(sorted[m].date@, sorted[sorted.len() - 1].date@));
                }
            } else {
                assert(r[i] == inner[i] && r[j] == inner[j]);
            }
        }
    }
}

proof fn lemma_sorted_shape(entries: Seq<DayEntry>)
    ensures
        dates_sorted(sorted_by_date(entries)),
        sorted_by_date(entries).len() == entries.len(),
        total_sessions(sorted_by_date(entries)) == total_sessions(entries),
        total_minutes(sorted_by_date(entries)) == total_minutes(entries),
    decreases entries.len(),
{
    if entries.len() > 0 {
        lemma_sorted_shape(entries.drop_last());
        lemma_insert_keeps_sorted(sorted_by_date(entries.drop_last()), entries.last());
        lemma_insert_shape(sorted_by_date(entries.drop_last()), entries.last());
    }
}

proof fn lemma_totals_update(entries: Seq<DayEntry>, i: int, e: DayEntry)
    requires
        0 <= i < entries.len(),
    ensures
        total_sessions(entries.update(i, e)) == total_sessions(entries) - entries[i].sessions + e.sessions,
        total_minutes(entries.update(i, e)) == total_minutes(entries) - entries[i].minutes + e.minutes,
    decreases entries.len(),
{
    let u = entries.update(i, e);
    if i == entries.len() - 1 {
        assert(u.drop_last() =~= entries.drop_last());
    } else {
        lemma_totals_update(entries.drop_last(), i, e);
        assert(u.drop_last() =~= entries.drop_last().update(i, e));
    }
}

/// Recording a session keeps the days sorted by date, oldest first, and
/// keeps at most `MAX_DAYS` of them.
pub proof fn lemma_record_keeps_days_sorted_and_bounded(entries: Seq<DayEntry>, date: String, minutes: u32)
    ensures
        dates_sorted(recorded(entries, date, minutes)),
        recorded(entries, date, minutes).len() <= MAX_DAYS,
{
    let s = sorted_by_date(with_session(entries, date, minutes));
    lemma_sorted_shape(with_session(entries, date, minutes));
    if s.len() > MAX_DAYS {
        let r = recorded(entries, date, minutes);
        let off = s.len() - MAX_DAYS;
        assert forall|i: int, j: int| 0 <= i < j < r.len() implies text_le(#[trigger] r[i].date@, #[trigger] r[j].date@) by {
            assert(r[i] == s[i + off] && r[j] == s[j + off]);
        }
    }
}

/// Every recorded session and its minutes are counted: while no more than
/// `MAX_DAYS` days are kept, recording a session adds one session and its
/// minutes to the totals over all days.
pub proof fn lemma_record_counts_session(entries: Seq<DayEntry>, date: String, minutes: u32)
    requires
        can_add_session(entries, date@, minutes),
        with_session(entries, date, minutes).len() <= MAX_DAYS,
    ensures
        total_sessions(recorded(entries, date, minutes)) == total_sessions(entries) + 1,
        total_minutes(recorded(entries, date, minutes)) == total_minutes(entries) + minutes,
{
    let w = with_session(entries, date, minutes);
    lemma_sorted_shape(w);
    if has_date(entries, date@) {
        let k = choose|k: int| 0 <= k < entries.len() && #[trigger] entries[k].date@ == date@;
        lemma_first_on_exists(entries, date@, k);
        let i = first_on(entries, date@);
        lemma_totals_update(
            entries,
            i,
            DayEntry {
                sessions: (entries[i].sessions + 1) as u32,
                minutes: (entries[i].minutes + minutes) as u32,
                ..entries[i]
            },
        );
    } else {
        assert(w.drop_last() =~= entries);
    }
}
/// Whether a day falls on the date `date`.
pub open spec fn on_date(date: Seq<char>) -> spec_fn(DayEntry) -> bool {
    |e: DayEntry| e.date@ == date
}

proof fn lemma_entry_on_is_first_of_filter(entries: Seq<DayEntry>, date: Seq<char>)
    ensures
        has_date(entries, date) ==> entries.filter(on_date(date)).len() > 0 && entries.filter(on_date(date))[0]
            == entries[first_on(entries, date)],
        !has_date(entries, date) ==> entries.filter(on_date(date)).len() == 0,
    decreases entries.len(),
{
    if entries.len() == 0 {
        assert(entries.filter(on_date(date)) =~= Seq::<DayEntry>::empty());
        return;
    }
    let init = entries.drop_last();
    let last = entries.last();
    lemma_entry_on_is_first_of_filter(init, date);
    assert(init.push(last) =~= entries);
    init.lemma_filter_push(last, on_date(date));
    if has_date(init, date) {
        let k = choose|k: int| 0 <= k < init.len() && #[trigger] init[k].date@ == date;
        lemma_first_on_exists(init, date, k);
        let f = first_on(init, date);
        assert(entries[f] == init[f]);
        assert forall|j: int| 0 <= j < f implies #[trigger] entries[j].date@ != date by {
            assert(entries[j] == init[j]);
        }
        lemma_first_on_unique(entries, date, f);
    } else if last.date@ == date {
        let f = entries.len() - 1;
        assert forall|j: int| 0 <= j < f implies #[trigger] entries[j].date@ != date by {
            assert(entries[j] == init[j]);
            if entries[j].date@ == date {
                assert(init[j].date@ == date);
            }
        }
        lemma_first_on_unique(entries, date, f);
    } else {
        if has_date(entries, date) {
            let k = choose|k: int| 0 <= k < entries.len() && #[trigger] entries[k].date@ == date;
            assert(k != entries.len() - 1);
            assert(init[k] == entries[k]);
        }
    }
}

proof fn lemma_insert_keeps_days_of_a_date(sorted: Seq<DayEntry>, e: DayEntry, date: Seq<char>)
    ensures
        insert_by_date(sorted, e).filter(on_date(date)) == if e.date@ == date {
            sorted.filter(on_date(date)).push(e)
        } else {
            sorted.filter(on_date(date))
        },
    decreases sorted.len(),
{
    let p = on_date(date);
    if sorted.len() == 0 {
        sorted.lemma_filter_push(e, p);
        assert(seq![e] =~= sorted.push(e));
    } else if text_le(sorted.last().date@, e.date@) {
        sorted.lemma_filter_push(e, p);
    } else {
        let init = sorted.drop_last();
        let last = sorted.last();
        lemma_insert_keeps_days_of_a_date(init, e, date);
        insert_by_date(init, e).lemma_filter_push(last, p);
        init.lemma_filter_push(last, p);
        assert(init.push(last) =~= sorted);
        lemma_text_le_reflexive(last.date@);
        // `last` comes after `e`, so it cannot share its date.
        assert(!(e.date@ == date && last.date@ == date));
    }
}

proof fn lemma_text_le_reflexive(a: Seq<char>)
    ensures
        text_le(a, a),
    decreases a.len(),
{
    if a.len() > 0 {
        lemma_text_le_reflexive(a.drop_first());
    }
}

proof fn lemma_sort_keeps_days_of_a_date(entries: Seq<DayEntry>, date: Seq<char>)
    ensures
        sorted_by_date(entries).filter(on_date(date)) == entries.filter(on_date(date)),
    decreases entries.len(),
{
    if entries.len() > 0 {
        let init = entries.drop_last();
        lemma_sort_keeps_days_of_a_date(init, date);
        lemma_insert_keeps_days_of_a_date(sorted_by_date(init), entries.last(), date);
        init.lemma_filter_push(entries.last(), on_date(date));
        assert(init.push(entries.last()) =~= entries);
    }
}

/// A recorded session shows in its day's totals: while no more than
/// `MAX_DAYS` days are kept, recording a session of `minutes` minutes on a
/// date adds one session and those minutes to that date's totals.
pub proof fn lemma_record_shows_in_day_totals(entries: Seq<DayEntry>, date: String, minutes: u32)
    requires
        can_add_session(entries, date@, minutes),
        with_session(entries, date, minutes).len() <= MAX_DAYS,
    ensures
        totals_on(recorded(entries, date, minutes), date@).0 == totals_on(entries, date@).0 + 1,
        totals_on(recorded(entries, date, minutes), date@).1 == totals_on(entries, date@).1 + minutes,
{
    let d = date@;
    let w = with_session(entries, date, minutes);
    let r = recorded(entries, date, minutes);
    lemma_sorted_shape(w);
    assert(r == sorted_by_date(w));
    lemma_sort_keeps_days_of_a_date(w, d);
    lemma_entry_on_is_first_of_filter(w, d);
    lemma_entry_on_is_first_of_filter(r, d);
    if has_date(entries, d) {
        let k = choose|k: int| 0 <= k < entries.len() && #[trigger] entries[k].date@ == d;
        lemma_first_on_exists(entries, d, k);
        let i = first_on(entries, d);
        assert(w[i].date@ == d);
        assert forall|j: int| 0 <= j < i implies #[trigger] w[j].date@ != d by {
            assert(w[j] == entries[j]);
        }
        lemma_first_on_unique(w, d, i);
    } else {
        let i = entries.len() as int;
        assert(w[i].date@ == d);
        assert forall|j: int| 0 <= j < i implies #[trigger] w[j].date@ != d by {
            assert(w[j] == entries[j]);
        }
        lemma_first_on_unique(w, d, i);
    }
}

/// The week's sessions and minutes are part of those of all days.
pub proof fn lemma_week_within_totals(entries: Seq<DayEntry>, start: NaiveDate, today: NaiveDate)
    ensures
        week_sessions(entries, start, today) <= total_sessions(entries),
        week_minutes(entries, start, today) <= total_minutes(entries),
    decreases entries.len(),
{
    if entries.len() > 0 {
        lemma_week_within_totals(entries.drop_last(), start, today);
    }
}

/// Where the sessions and minutes of all days fit `u32`s, so do those of
/// every week: this meets what [`StatsStore::week_totals`] requires.
pub proof fn lemma_weeks_fit_when_totals_fit(entries: Seq<DayEntry>)
    requires
        total_sessions(entries) <= u32::MAX,
        total_minutes(entries) <= u32::MAX,
    ensures
        forall|start: NaiveDate, today: NaiveDate| #[trigger] week_fits(entries, start, today),
        forall|today: NaiveDate| #[trigger] week_fits_on(entries, today),
{
    assert forall|start: NaiveDate, today: NaiveDate| #[trigger] week_fits(entries, start, today) by {
        lemma_week_within_totals(entries, start, today);
    }
    assert forall|today: NaiveDate| #[trigger] week_fits_on(entries, today) by {
        match spec_days_before(today, 6) {
            Some(start) => lemma_week_within_totals(entries, start, today),
            None => {},
        }
    }
}

/// Where every day has room for one more session of `minutes` minutes, a
/// session can be added on any date: this meets what
/// [`StatsStore::record_focus`] requires.
pub proof fn lemma_every_date_has_room(entries: Seq<DayEntry>, minutes: u32)
    requires
        forall|i: int| 0 <= i < entries.len() ==> (#[trigger] entries[i]).sessions < u32::MAX
            && entries[i].minutes + minutes <= u32::MAX,
    ensures
        forall|date: Seq<char>| #[trigger] can_add_session(entries, date, minutes),
{
    assert forall|date: Seq<char>| #[trigger] can_add_session(entries, date, minutes) by {
        if has_date(entries, date) {
            let k = choose|k: int| 0 <= k < entries.len() && #[trigger] entries[k].date@ == date;
            lemma_first_on_exists(entries, date, k);
        }
    }
}

/// How many days recording a session keeps: one more where the date is new,
/// as many as before otherwise, and never more than `MAX_DAYS`.
pub proof fn lemma_record_length(entries: Seq<DayEntry>, date: String, minutes: u32)
    ensures
        recorded(entries, date, minutes).len() == vstd::math::min(
            MAX_DAYS as int,
            entries.len() + if has_date(entries, date@) { 0int } else { 1int },
        ),
{
    let w = with_session(entries, date, minutes);
    lemma_sorted_shape(w);
    if has_date(entries, date@) {
        let k = choose|k: int| 0 <= k < entries.len() && #[trigger] entries[k].date@ == date@;
        lemma_first_on_exists(entries, date@, k);
    }
    assert(w.len() == entries.len() + if has_date(entries, date@) { 0int } else { 1int });
}

/// The days that recording a session drops to keep `MAX_DAYS`: the oldest.
pub open spec fn dropped(entries: Seq<DayEntry>, date: String, minutes: u32) -> Seq<DayEntry> {
    let s = sorted_by_date(with_session(entries, date, minutes));
    if s.len() > MAX_DAYS {
        s.take(s.len() - MAX_DAYS)
    } else {
        seq![]
    }
}

/// Recording a session drops only days no later than every day it keeps:
/// the sorted days are the dropped ones followed by the kept ones.
pub proof fn lemma_record_drops_the_oldest(entries: Seq<DayEntry>, date: String, minutes: u32)
    ensures
        dropped(entries, date, minutes) + recorded(entries, date, minutes) == sorted_by_date(
            with_session(entries, date, minutes),
        ),
        forall|i: int, j: int|
            0 <= i < dropped(entries, date, minutes).len() && 0 <= j < recorded(entries, date, minutes).len()
                ==> text_le(
                #[trigger] dropped(entries, date, minutes)[i].date@,
                #[trigger] recorded(entries, date, minutes)[j].date@,
            ),
{
    let s = sorted_by_date(with_session(entries, date, minutes));
    lemma_sorted_shape(with_session(entries, date, minutes));
    let d = dropped(entries, date, minutes);
    let r = recorded(entries, date, minutes);
    assert(d + r =~= s);
    assert forall|i: int, j: int| 0 <= i < d.len() && 0 <= j < r.len() implies text_le(
        #[trigger] d[i].date@,
        #[trigger] r[j].date@,
    ) by {
        assert(d[i] == s[i] && r[j] == s[d.len() + j]);
    }
}

/// Whether no two days of `entries` share a date.
pub open spec fn dates_distinct(entries: Seq<DayEntry>) -> bool {
    forall|i: int, j: int| 0 <= i < j < entries.len() ==> #[trigger] entries[i].date@ != #[trigger] entries[j].date@
}

proof fn lemma_distinct_filter(entries: Seq<DayEntry>, date: Seq<char>)
    requires
        dates_distinct(entries),
    ensures
        entries.filter(on_date(date)).len() <= 1,
    decreases entries.len(),
{
    if entries.len() > 0 {
        let init = entries.drop_last();
        let last = entries.last();
        assert forall|i: int, j: int| 0 <= i < j < init.len() implies #[trigger] init[i].date@ != #[trigger] init[j].date@ by {
            assert(init[i] == entries[i] && init[j] == entries[j]);
        }
        lemma_distinct_filter(init, date);
        assert(init.push(last) =~= entries);
        init.lemma_filter_push(last, on_date(date));
        if last.date@ == date {
            lemma_entry_on_is_first_of_filter(init, date);
            if has_date(init, date) {
                let k = choose|k: int| 0 <= k < init.len() && #[trigger] init[k].date@ == date;
                assert(entries[k] == init[k]);
                assert(entries[k].date@ != entries[entries.len() - 1].date@);
            }
        }
    }
}

proof fn lemma_two_on_a_date(entries: Seq<DayEntry>, i: int, j: int, date: Seq<char>)
    requires
        0 <= i < j < entries.len(),
        entries[i].date@ == date,
        entries[j].date@ == date,
    ensures
        entries.filter(on_date(date)).len() >= 2,
    decreases entries.len(),
{
    let init = entries.drop_last();
    let last = entries.last();
    assert(init.push(last) =~= entries);
    init.lemma_filter_push(last, on_date(date));
    if j == entries.len() - 1 {
        assert(init[i] == entries[i]);
        lemma_entry_on_is_first_of_filter(init, date);
    } else {
        assert(init[i] == entries[i] && init[j] == entries[j]);
        lemma_two_on_a_date(init, i, j, date);
    }
}

/// Recording a session keeps the dates of the days distinct where they
/// were.
pub proof fn lemma_record_keeps_dates_distinct(entries: Seq<DayEntry>, date: String, minutes: u32)
    requires
        dates_distinct(entries),
    ensures
        dates_distinct(recorded(entries, date, minutes)),
{
    let w = with_session(entries, date, minutes);
    let s = sorted_by_date(w);
    let r = recorded(entries, date, minutes);
    lemma_sorted_shape(w);
    if has_date(entries, date@) {
        let k = choose|k: int| 0 <= k < entries.len() && #[trigger] entries[k].date@ == date@;
        lemma_first_on_exists(entries, date@, k);
        assert forall|i: int, j: int| 0 <= i < j < w.len() implies #[trigger] w[i].date@ != #[trigger] w[j].date@ by {
            assert(w[i].date@ == entries[i].date@ && w[j].date@ == entries[j].date@);
        }
    } else {
        assert forall|i: int, j: int| 0 <= i < j < w.len() implies #[trigger] w[i].date@ != #[trigger] w[j].date@ by {
            if j == entries.len() {
                assert(w[i] == entries[i]);
                if entries[i].date@ == date@ {
                    assert(has_date(entries, date@));
                }
            } else {
                assert(w[i] == entries[i] && w[j] == entries[j]);
            }
        }
    }
    assert forall|i: int, j: int| 0 <= i < j < s.len() implies #[trigger] s[i].date@ != #[trigger] s[j].date@ by {
        if s[i].date@ == s[j].date@ {
            let d = s[i].date@;
            lemma_two_on_a_date(s, i, j, d);
            lemma_sort_keeps_days_of_a_date(w, d);
            lemma_distinct_filter(w, d);
        }
    }
    if s.len() > MAX_DAYS {
        let off = s.len() - MAX_DAYS;
        assert forall|i: int, j: int| 0 <= i < j < r.len() implies #[trigger] r[i].date@ != #[trigger] r[j].date@ by {
            assert(r[i] == s[i + off] && r[j] == s[j + off]);
        }
    }
}

proof fn lemma_week_counts_day(entries: Seq<DayEntry>, k: int, start: NaiveDate, today: NaiveDate)
    requires
        0 <= k < entries.len(),
        in_week(entries[k], start, today),
    ensures
        week_sessions(entries, start, today) >= entries[k].sessions,
        week_minutes(entries, start, today) >= entries[k].minutes,
    decreases entries.len(),
{
    if k < entries.len() - 1 {
        assert(entries.drop_last()[k] == entries[k]);
        lemma_week_counts_day(entries.drop_last(), k, start, today);
    }
}

/// A session recorded today shows in the week that ends today: where the
/// date written for today reads back as `today` (as chrono's writing and
/// reading of `YYYY-MM-DD` give, see `format_ymd`), the week starts on a
/// date no later than `today` (as counting days back gives), and no day is
/// dropped, the week holds at least that session and its minutes.
pub proof fn lemma_session_today_shows_in_week(
    entries: Seq<DayEntry>,
    date: String,
    minutes: u32,
    start: NaiveDate,
    today: NaiveDate,
)
    requires
        spec_parse_ymd(date@) == Some(today),
        spec_date_le(start, today),
        spec_date_le(today, today),
        can_add_session(entries, date@, minutes),
        with_session(entries, date, minutes).len() <= MAX_DAYS,
    ensures
        week_sessions(recorded(entries, date, minutes), start, today) >= 1,
        week_minutes(recorded(entries, date, minutes), start, today) >= minutes,
{
    let r = recorded(entries, date, minutes);
    lemma_record_shows_in_day_totals(entries, date, minutes);
    assert(has_date(r, date@));
    let k = choose|k: int| 0 <= k < r.len() && #[trigger] r[k].date@ == date@;
    lemma_first_on_exists(r, date@, k);
    let f = first_on(r, date@);
    assert(in_week(r[f], start, today));
    lemma_week_counts_day(r, f, start, today);
}

proof fn lemma_only_entry_on_date(s: Seq<DayEntry>, d: Seq<char>, e: DayEntry, j: int)
    requires
        s.filter(on_date(d)) == seq![e],
        0 <= j < s.len(),
        s[j].date@ == d,
    ensures
        s[j] == e,
{
    s.lemma_filter_contains(on_date(d), j);
}

/// A session recorded on a date not yet recorded gives that date one
/// session of exactly its minutes, however many days were kept before,
/// wherever the date is among the days kept.
pub proof fn lemma_new_date_gets_the_session(entries: Seq<DayEntry>, date: String, minutes: u32)
    requires
        !has_date(entries, date@),
        has_date(recorded(entries, date, minutes), date@),
    ensures
        totals_on(recorded(entries, date, minutes), date@) == (1u32, minutes),
{
    let d = date@;
    let e = DayEntry { date, sessions: 1, minutes };
    let w = with_session(entries, date, minutes);
    let s = sorted_by_date(w);
    let r = recorded(entries, date, minutes);
    lemma_sorted_shape(w);
    assert(w == entries.push(e));
    lemma_entry_on_is_first_of_filter(entries, d);
    entries.lemma_filter_push(e, on_date(d));
    assert(entries.filter(on_date(d)) =~= Seq::<DayEntry>::empty());
    assert(w.filter(on_date(d)) =~= seq![e]);
    lemma_sort_keeps_days_of_a_date(w, d);
    let k = choose|k: int| 0 <= k < r.len() && #[trigger] r[k].date@ == d;
    lemma_first_on_exists(r, d, k);
    let f = first_on(r, d);
    if s.len() > MAX_DAYS {
        let off = s.len() - MAX_DAYS;
        assert(r[f] == s[f + off]);
        lemma_only_entry_on_date(s, d, e, f + off);
    } else {
        lemma_only_entry_on_date(s, d, e, f);
    }
}

/// Where no two days share a date, a session recorded on a date already
/// recorded adds one session and its minutes to that date, however many
/// days were kept before, wherever the date is among the days kept.
pub proof fn lemma_known_date_gets_the_session(entries: Seq<DayEntry>, date: String, minutes: u32)
    requires
        has_date(entries, date@),
        dates_distinct(entries),
        can_add_session(entries, date@, minutes),
        has_date(recorded(entries, date, minutes), date@),
    ensures
        totals_on(recorded(entries, date, minutes), date@).0 == totals_on(entries, date@).0 + 1,
        totals_on(recorded(entries, date, minutes), date@).1 == totals_on(entries, date@).1 + minutes,
{
    let d = date@;
    let w = with_session(entries, date, minutes);
    let s = sorted_by_date(w);
    let r = recorded(entries, date, minutes);
    lemma_sorted_shape(w);
    let k0 = choose|k: int| 0 <= k < entries.len() && #[trigger] entries[k].date@ == d;
    lemma_first_on_exists(entries, d, k0);
    let i0 = first_on(entries, d);
    let e = w[i0];
    assert forall|i: int, j: int| 0 <= i < j < w.len() implies #[trigger] w[i].date@ != #[trigger] w[j].date@ by {
        assert(w[i].date@ == entries[i].date@ && w[j].date@ == entries[j].date@);
    }
    assert forall|j: int| 0 <= j < i0 implies #[trigger] w[j].date@ != d by {
        assert(w[j] == entries[j]);
    }
    lemma_first_on_unique(w, d, i0);
    lemma_entry_on_is_first_of_filter(w, d);
    lemma_distinct_filter(w, d);
    assert(w.filter(on_date(d)) =~= seq![e]);
    lemma_sort_keeps_days_of_a_date(w, d);
    let k = choose|k: int| 0 <= k < r.len() && #[trigger] r[k].date@ == d;
    lemma_first_on_exists(r, d, k);
    let f = first_on(r, d);
    if s.len() > MAX_DAYS {
        let off = s.len() - MAX_DAYS;
        assert(r[f] == s[f + off]);
        lemma_only_entry_on_date(s, d, e, f + off);
    } else {
        lemma_only_entry_on_date(s, d, e, f);
    }
}

} // verus!
