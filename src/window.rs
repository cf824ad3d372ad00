//! Month windows: their boundaries, and the weekday tally of each.

use vstd::prelude::*;
use crate::calendar::{day_out_of_range, day_out_of_range_message, Day, DayOfMonth};
use crate::date::{add_months, pred, replace_day, succ, today, weekday_of, Date, MAX_YEAR, MIN_YEAR};

verus! {

/// The last day of the window that starts on `d`: the end of `d`'s month for
/// `FirstOfMonth`, and for `NthDay(n)` the day before the `n`th of the next month.
pub open spec fn window_end(d: Date, policy: DayOfMonth) -> Date {
    match policy {
        DayOfMonth::FirstOfMonth => d.month_end(),
        DayOfMonth::NthDay(n) => d.plus_months(1).with_day(n).prev(),
    }
}

/// Day `day` of the month with index `mi` (months counted from January of year 0).
pub open spec fn month_start(mi: int, day: u32) -> Date {
    Date { year: (mi / 12) as i32, month: (mi % 12 + 1) as u32, day }
}

/// How many dates from `x` to `to`, both included, fall on weekday `w`.
pub open spec fn count_weekday(w: Day, x: Date, to: Date) -> nat
    decreases to.key() + 512 - x.key(),
    via count_weekday_decreases
{
    if !x.wf() || x.key() > to.key() {
        0
    } else {
        (if x.weekday() == w { 1nat } else { 0nat }) + count_weekday(w, x.next(), to)
    }
}

#[via_fn]
proof fn count_weekday_decreases(w: Day, x: Date, to: Date) {
    if x.wf() && x.key() <= to.key() {
        lemma_next_key(x);
    }
}

/// The next day comes later, and exists unless `x` is the last date.
pub proof fn lemma_next_key(x: Date)
    requires
        x.wf(),
    ensures
        !x.is_max() ==> x.next().wf(),
        x.key() < x.next().key(),
        x.next().key() <= x.key() + 512,
{
}

/// `t` maps weekdays to counts: each weekday at most once, only watched
/// weekdays, each with its count `f`, which is positive; and every watched
/// weekday with a positive count is there.
pub open spec fn tally_is(t: Seq<(Day, u32)>, watched: Set<Day>, f: spec_fn(Day) -> int) -> bool {
    &&& forall|i: int, j: int| 0 <= i < j < t.len() ==> t[i].0 != t[j].0
    &&& forall|i: int|
        0 <= i < t.len() ==> watched.contains(#[trigger] t[i].0) && t[i].1 == f(t[i].0) && t[i].1 > 0
    &&& forall|w: Day| watched.contains(w) && f(w) > 0 ==> exists|i: int| 0 <= i < t.len() && t[i].0 == w
}

/// Stepping a month index by one moves to the next month, and from December
/// to January of the next year.
pub proof fn lemma_month_step(mi: int)
    ensures
        0 <= mi % 12 < 12,
        mi == (mi / 12) * 12 + mi % 12,
        mi % 12 < 11 ==> (mi + 1) / 12 == mi / 12 && (mi + 1) % 12 == mi % 12 + 1,
        mi % 12 == 11 ==> (mi + 1) / 12 == mi / 12 + 1 && (mi + 1) % 12 == 0,
{
}

/// A date's month index leads back to its own year and month.
pub proof fn lemma_month_index(d: Date)
    requires
        1 <= d.month <= 12,
    ensures
        d.month_index() / 12 == d.year,
        d.month_index() % 12 == d.month - 1,
{
    let mi = d.month_index();
    assert(mi == d.year * 12 + (d.month - 1));
}

/// The last day of the window that starts on `d` exists, lies on or after `d`,
/// and comes before the date two months after `d`.
pub proof fn lemma_nth_day_window_bounds(d: Date, n: u32)
    requires
        d.wf(),
        1 <= n <= 28,
        !(d.year == MAX_YEAR && d.month == 12),
    ensures
        window_end(d, DayOfMonth::NthDay(n)).wf(),
        d.key() <= window_end(d, DayOfMonth::NthDay(n)).key(),
        window_end(d, DayOfMonth::NthDay(n)).key() < d.plus_months(2).key(),
{
    lemma_month_index(d);
    lemma_month_step(d.month_index());
    lemma_month_step(d.month_index() + 1);
}

/// With `FirstOfMonth` the window ends on the true last day of its month: a
/// date of the same month, on or after the start, whose next day falls in
/// another month.
pub proof fn lemma_first_of_month_window_end(d: Date)
    requires
        d.wf(),
    ensures
        window_end(d, DayOfMonth::FirstOfMonth).wf(),
        window_end(d, DayOfMonth::FirstOfMonth).year == d.year,
        window_end(d, DayOfMonth::FirstOfMonth).month == d.month,
        d.key() <= window_end(d, DayOfMonth::FirstOfMonth).key(),
        window_end(d, DayOfMonth::FirstOfMonth).next().month != d.month,
{
}

/// The window that starts on the anchor day of month `mi` ends the day before
/// the anchor day of month `mi + 1`.
pub proof fn lemma_window_chain(mi: int, policy: DayOfMonth)
    requires
        policy.is_valid(),
        MIN_YEAR * 12 <= mi < MAX_YEAR * 12 + 11,
    ensures
        month_start(mi, policy.anchor()).wf(),
        month_start(mi, policy.anchor()).month_index() == mi,
        !(month_start(mi, policy.anchor()).year == MAX_YEAR && month_start(mi, policy.anchor()).month == 12),
        window_end(month_start(mi, policy.anchor()), policy).wf(),
        !window_end(month_start(mi, policy.anchor()), policy).is_max(),
        month_start(mi, policy.anchor()).key() <= window_end(month_start(mi, policy.anchor()), policy).key(),
        window_end(month_start(mi, policy.anchor()), policy).key() <= month_start(mi, policy.anchor()).key() + 1024,
        window_end(month_start(mi, policy.anchor()), policy).next() == month_start(mi + 1, policy.anchor()),
{
    lemma_month_step(mi);
    lemma_month_step(mi + 1);
    let s = month_start(mi, policy.anchor());
    lemma_month_index(s);
}

/// Where no watched weekday occurs in a window, its tally is empty.
pub proof fn lemma_no_occurrence_empty_tally(m: MontheyMonth, watched: Set<Day>)
    requires
        m.counts_days(watched),
        forall|w: Day| watched.contains(w) ==> count_weekday(w, m.from, m.to) == 0,
    ensures
        m.days@.len() == 0,
{
    if m.days@.len() > 0 {
        assert(watched.contains(m.days@[0].0));
    }
}

/// One window: its first and last day, and how often each watched weekday
/// falls in it.
pub struct MontheyMonth {
    pub from: Date,
    pub to: Date,
    pub days: Vec<(Day, u32)>,
}

impl MontheyMonth {
    /// The tally holds, for each watched weekday that occurs from `from` to
    /// `to`, the number of its occurrences, and nothing else.
    pub open spec fn counts_days(&self, watched: Set<Day>) -> bool {
        tally_is(self.days@, watched, |w: Day| count_weekday(w, self.from, self.to) as int)
    }
}

/// The windows, in the order of their dates.
pub struct MontheyResult {
    pub months: Vec<MontheyMonth>,
}

/// The settings of a count: the weekdays to track, where windows begin, and
/// the date to start from.
pub struct MontheyBuilder {
    days_to_check: Vec<Day>,
    start_of_month: DayOfMonth,
    from_date: Date,
}

impl MontheyBuilder {
    pub closed spec fn watched(&self) -> Set<Day> {
        Set::new(|d: Day| self.days_to_check@.contains(d))
    }

    pub closed spec fn policy(&self) -> DayOfMonth {
        self.start_of_month
    }

    pub closed spec fn start(&self) -> Date {
        self.from_date
    }

    pub closed spec fn wf(&self) -> bool {
        &&& self.days_to_check@.no_duplicates()
        &&& self.start_of_month.is_valid()
        &&& self.from_date.wf()
    }

    /// The first day of the first window.
    pub open spec fn first_window_start(&self) -> Date {
        self.start().with_day(self.policy().anchor())
    }

    /// Settings that track no weekday, follow calendar months, and start on
    /// the first of the current local month.
    pub fn from_this_month() -> (r: Self)
        ensures
            r.wf(),
            r.watched() == Set::<Day>::empty(),
            r.policy() == DayOfMonth::FirstOfMonth,
            r.start().day == 1,
    {
        Self::from_month_of(today())
    }

    /// Settings that track no weekday, follow calendar months, and start on
    /// the first of the month of `today`.
    pub fn from_month_of(today: Date) -> (r: Self)
        requires
            today.wf(),
        ensures
            r.wf(),
            r.watched() == Set::<Day>::empty(),
            r.policy() == DayOfMonth::FirstOfMonth,
            r.start() == today.with_day(1),
    {
        let first = replace_day(today, 1).unwrap();
        let r = MontheyBuilder {
            days_to_check: Vec::new(),
            start_of_month: DayOfMonth::FirstOfMonth,
            from_date: first,
        };
        assert(r.watched() =~= Set::<Day>::empty());
        r
    }

    /// Settings that track no weekday, follow calendar months, and start in
    /// the month of `date`.
    pub fn from_date(date: Date) -> (r: Self)
        requires
            date.wf(),
        ensures
            r.wf(),
            r.watched() == Set::<Day>::empty(),
            r.policy() == DayOfMonth::FirstOfMonth,
            r.start() == date,
    {
        let r = MontheyBuilder {
            days_to_check: Vec::new(),
            start_of_month: DayOfMonth::FirstOfMonth,
            from_date: date,
        };
        assert(r.watched() =~= Set::<Day>::empty());
        r
    }

    /// The date that the settings start from.
    pub fn start_date(&self) -> (r: Date)
        ensures
            r == self.start(),
    {
        self.from_date
    }

    /// Adds a weekday to track; adding one twice changes nothing.
    pub fn check_day(self, day: Day) -> (r: Self)
        requires
            self.wf(),
        ensures
            r.wf(),
            r.watched() == self.watched().insert(day),
            r.policy() == self.policy(),
            r.start() == self.start(),
    {
        let ghost old_days = self.days_to_check@;
        let mut s = self;
        if !contains_day(&s.days_to_check, day) {
            s.days_to_check.push(day);
            proof {
                assert(s.days_to_check@ == old_days.push(day));
                assert forall|d: Day| s.days_to_check@.contains(d) <==> (old_days.contains(d) || d == day) by {
                    if old_days.contains(d) {
                        let k = choose|k: int| 0 <= k < old_days.len() && old_days[k] == d;
                        assert(s.days_to_check@[k] == d);
                    }
                    if d == day {
                        assert(s.days_to_check@[old_days.len() as int] == d);
                    }
                }
            }
        }
        assert(s.watched() =~= self.watched().insert(day));
        s
    }

    /// Sets where windows begin; a numbered day outside 1..=28 is refused.
    pub fn between_date(self, date: DayOfMonth) -> (r: Result<Self, String>)
        requires
            self.wf(),
        ensures
            r is Ok <==> date.is_valid(),
            r is Ok ==> r->Ok_0.wf() && r->Ok_0.policy() == date
                && r->Ok_0.watched() == self.watched() && r->Ok_0.start() == self.start(),
            r is Err ==> date is NthDay && r->Err_0@ == day_out_of_range_message(date->NthDay_0),
    {
        if let DayOfMonth::NthDay(day) = date {
            if day < 1 || day > 28 {
                return Err(day_out_of_range(day));
            }
        }
        let mut s = self;
        s.start_of_month = date;
        Ok(s)
    }
}

/// The last day of the window that starts on `date`.
pub fn get_to_date(date: Date, between_date: &DayOfMonth) -> (r: Date)
    requires
        date.wf(),
        between_date.is_valid(),
        !(date.year == MAX_YEAR && date.month == 12),
    ensures
        r == window_end(date, *between_date),
        r.wf(),
{
    match between_date {
        DayOfMonth::FirstOfMonth => date.last_of_month(),
        DayOfMonth::NthDay(day) => {
            proof {
                lemma_month_index(date);
                lemma_month_step(date.month_index());
            }
            let next_month = add_months(date, 1).unwrap();
            let anchored = replace_day(next_month, *day).unwrap();
            pred(anchored).unwrap()
        },
    }
}

impl MontheyBuilder {
    /// The windows: the first starts on the anchor day of the start date's
    /// month, each next one on the day after the previous one ends; each holds
    /// how often every watched weekday falls in it.
    pub fn for_months(self, months: u32) -> (r: MontheyResult)
        requires
            self.wf(),
            months == 0 || self.start().month_index() + months <= MAX_YEAR * 12 + 11,
        ensures
            r.months.len() == months,
            months > 0 ==> r.months@[0].from == self.first_window_start(),
            forall|i: int| 0 <= i < months ==> {
                &&& (#[trigger] r.months@[i]).from
                    == month_start(self.start().month_index() + i, self.policy().anchor())
                &&& r.months@[i].to == window_end(r.months@[i].from, self.policy())
                &&& r.months@[i].counts_days(self.watched())
            },
    {
        let ghost mi0 = self.from_date.month_index();
        let ghost anchor = self.start_of_month.anchor();
        let mut monthey_months: Vec<MontheyMonth> = Vec::new();
        proof {
            lemma_month_index(self.from_date);
        }
        let mut date = match self.start_of_month {
            DayOfMonth::FirstOfMonth => replace_day(self.from_date, 1).unwrap(),
            DayOfMonth::NthDay(day) => replace_day(self.from_date, day).unwrap(),
        };
        let mut month_counter: u32 = 0;
        while month_counter < months
            invariant
                self.wf(),
                mi0 == self.start().month_index(),
                anchor == self.policy().anchor(),
                months == 0 || mi0 + months <= MAX_YEAR * 12 + 11,
                month_counter <= months,
                monthey_months.len() == month_counter,
                date == month_start(mi0 + month_counter, anchor),
                forall|i: int| 0 <= i < month_counter ==> {
                    &&& (#[trigger] monthey_months@[i]).from == month_start(mi0 + i, anchor)
                    &&& monthey_months@[i].to == window_end(monthey_months@[i].from, self.policy())
                    &&& monthey_months@[i].counts_days(self.watched())
                },
            decreases months - month_counter,
        {
            proof {
                lemma_window_chain(mi0 + month_counter, self.start_of_month);
            }
            let from_date = date;
            let to_date = get_to_date(date, &self.start_of_month);
            let days = self.tally(from_date, to_date);
            date = succ(to_date).unwrap();
            monthey_months.push(MontheyMonth { from: from_date, to: to_date, days });
            month_counter = month_counter + 1;
        }
        MontheyResult { months: monthey_months }
    }

    /// How often each watched weekday falls from `from` to `to`.
    fn tally(&self, from: Date, to: Date) -> (r: Vec<(Day, u32)>)
        requires
            self.wf(),
            from.wf(),
            to.wf(),
            !to.is_max(),
            from.key() <= to.key(),
            to.key() <= from.key() + 1024,
        ensures
            tally_is(r@, self.watched(), |w: Day| count_weekday(w, from, to) as int),
    {
        let mut days: Vec<(Day, u32)> = Vec::new();
        let mut date = from;
        while date.is_on_or_before(&to)
            invariant
                self.wf(),
                from.wf(),
                to.wf(),
                !to.is_max(),
                from.key() <= to.key(),
                to.key() <= from.key() + 1024,
                date.wf(),
                from.key() <= date.key() <= to.key() + 512,
                tally_is(days@, self.watched(),
                    |w: Day| count_weekday(w, from, to) - count_weekday(w, date, to)),
                forall|i: int| 0 <= i < days.len() ==> (#[trigger] days@[i]).1 <= date.key() - from.key(),
                forall|w: Day| #[trigger] count_weekday(w, date, to) <= count_weekday(w, from, to),
            decreases to.key() + 512 - date.key(),
        {
            let ghost before = days@;
            let ghost f_old = |w: Day| count_weekday(w, from, to) - count_weekday(w, date, to);
            let wd = weekday_of(date);
            let ghost nd = date.next();
            let ghost f_new = |w: Day| count_weekday(w, from, to) - count_weekday(w, nd, to);
            proof {
                lemma_next_key(date);
                assert forall|w: Day| #[trigger] f_new(w) == f_old(w) + (if w == wd { 1int } else { 0int }) by {
                    assert(count_weekday(w, date, to) == (if date.weekday() == w { 1nat } else { 0nat })
                        + count_weekday(w, nd, to));
                }
                assert forall|w: Day| #[trigger] count_weekday(w, nd, to) <= count_weekday(w, from, to) by {
                    assert(f_new(w) == f_old(w) + (if w == wd { 1int } else { 0int }));
                }
            }
            if contains_day(&self.days_to_check, wd) {
                match find_day(&days, wd) {
                    Some(i) => {
                        let c = days[i].1;
                        days.set(i, (wd, c + 1));
                        proof {
                            lemma_tally_bump(before, days@, self.watched(), f_old, f_new, wd, i as int);
                        }
                    },
                    None => {
                        days.push((wd, 1));
                        proof {
                            lemma_tally_first(before, days@, self.watched(), f_old, f_new, wd);
                        }
                    },
                }
            } else {
                proof {
                    lemma_tally_unwatched(before, self.watched(), f_old, f_new, wd);
                }
            }
            date = succ(date).unwrap();
        }
        proof {
            assert forall|w: Day| count_weekday(w, date, to) == 0 by {}
            assert(tally_is(days@, self.watched(), |w: Day| count_weekday(w, from, to) as int));
        }
        days
    }
}

/// A weekday that is not watched leaves the tally as it is.
proof fn lemma_tally_unwatched(
    t: Seq<(Day, u32)>,
    watched: Set<Day>,
    f_old: spec_fn(Day) -> int,
    f_new: spec_fn(Day) -> int,
    wd: Day,
)
    requires
        tally_is(t, watched, f_old),
        !watched.contains(wd),
        forall|w: Day| #[trigger] f_new(w) == f_old(w) + (if w == wd { 1int } else { 0int }),
    ensures
        tally_is(t, watched, f_new),
{
    assert forall|w: Day| watched.contains(w) && f_new(w) > 0 implies exists|i: int|
        0 <= i < t.len() && t[i].0 == w by {
        assert(f_old(w) > 0);
    }
}

/// A watched weekday already in the tally has its count raised by one.
proof fn lemma_tally_bump(
    t: Seq<(Day, u32)>,
    u: Seq<(Day, u32)>,
    watched: Set<Day>,
    f_old: spec_fn(Day) -> int,
    f_new: spec_fn(Day) -> int,
    wd: Day,
    k: int,
)
    requires
        tally_is(t, watched, f_old),
        forall|w: Day| #[trigger] f_new(w) == f_old(w) + (if w == wd { 1int } else { 0int }),
        0 <= k < t.len(),
        t[k].0 == wd,
        u.len() == t.len(),
        u[k].0 == wd,
        u[k].1 == t[k].1 + 1,
        forall|i: int| 0 <= i < t.len() && i != k ==> u[i] == t[i],
    ensures
        tally_is(u, watched, f_new),
{
    assert forall|i: int| 0 <= i < u.len() implies watched.contains(#[trigger] u[i].0)
        && u[i].1 == f_new(u[i].0) && u[i].1 > 0 by {
        if i != k {
            assert(u[i] == t[i]);
            assert(t[i].0 != t[k].0);
        }
    }
    assert forall|w: Day| watched.contains(w) && f_new(w) > 0 implies exists|i: int|
        0 <= i < u.len() && u[i].0 == w by {
        if w == wd {
            assert(u[k].0 == w);
        } else {
            assert(f_old(w) > 0);
            let i = choose|i: int| 0 <= i < t.len() && t[i].0 == w;
            assert(u[i].0 == w);
        }
    }
}

/// A watched weekday seen for the first time enters the tally with count one.
proof fn lemma_tally_first(
    t: Seq<(Day, u32)>,
    u: Seq<(Day, u32)>,
    watched: Set<Day>,
    f_old: spec_fn(Day) -> int,
    f_new: spec_fn(Day) -> int,
    wd: Day,
)
    requires
        tally_is(t, watched, f_old),
        forall|w: Day| #[trigger] f_new(w) == f_old(w) + (if w == wd { 1int } else { 0int }),
        watched.contains(wd),
        f_old(wd) >= 0,
        forall|i: int| 0 <= i < t.len() ==> t[i].0 != wd,
        u == t.push((wd, 1u32)),
    ensures
        tally_is(u, watched, f_new),
{
    assert(f_old(wd) <= 0) by {
        if f_old(wd) > 0 {
            let i = choose|i: int| 0 <= i < t.len() && t[i].0 == wd;
        }
    }
    assert forall|i: int| 0 <= i < u.len() implies watched.contains(#[trigger] u[i].0)
        && u[i].1 == f_new(u[i].0) && u[i].1 > 0 by {
        if i < t.len() {
            assert(u[i] == t[i]);
        }
    }
    assert forall|w: Day| watched.contains(w) && f_new(w) > 0 implies exists|i: int|
        0 <= i < u.len() && u[i].0 == w by {
        if w == wd {
            assert(u[t.len() as int].0 == w);
        } else {
            assert(f_old(w) > 0);
            let i = choose|i: int| 0 <= i < t.len() && t[i].0 == w;
            assert(u[i].0 == w);
        }
    }
}

/// Whether `d` is among `v`.
fn contains_day(v: &Vec<Day>, d: Day) -> (r: bool)
    ensures
        r == v@.contains(d),
{
    let mut i: usize = 0;
    while i < v.len()
        invariant
            i <= v.len(),
            forall|k: int| 0 <= k < i ==> v@[k] != d,
        decreases v.len() - i,
    {
        if v[i] == d {
            return true;
        }
        i = i + 1;
    }
    false
}

/// Where `d` stands in a tally, if it does.
fn find_day(t: &Vec<(Day, u32)>, d: Day) -> (r: Option<usize>)
    ensures
        r is Some ==> r->0 < t.len() && t@[r->0 as int].0 == d,
        r is None ==> forall|k: int| 0 <= k < t.len() ==> t@[k].0 != d,
{
    let mut i: usize = 0;
    while i < t.len()
        invariant
            i <= t.len(),
            forall|k: int| 0 <= k < i ==> t@[k].0 != d,
        decreases t.len() - i,
    {
        if t[i].0 == d {
            return Some(i);
        }
        i = i + 1;
    }
    None
}

} // verus!
