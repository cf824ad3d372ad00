//! Weekdays, months and the day-of-month policy that anchors each window.

use vstd::prelude::*;
use vstd::string::StringExecFns;
use crate::text::{
    decimal, is_digit, lemma_decimal_value, lemma_parse_decimal, parse_u32, parse_u32_spec, str_eq,
    u32_parse_error,
    u32_to_string,
};

verus! {

/// A day of the week, ordered from Monday to Sunday.
#[derive(Clone, Copy, PartialEq, Eq, Structural, PartialOrd, Ord, Hash, Debug)]
pub enum Day {
    Monday,
    Tuesday,
    Wednesday,
    Thursday,
    Friday,
    Saturday,
    Sunday,
}

/// The weekday at position `i` (taken modulo seven), counting Monday as 0.
pub open spec fn day_of_index(i: int) -> Day {
    let k = i % 7;
    if k == 0 { Day::Monday }
    else if k == 1 { Day::Tuesday }
    else if k == 2 { Day::Wednesday }
    else if k == 3 { Day::Thursday }
    else if k == 4 { Day::Friday }
    else if k == 5 { Day::Saturday }
    else { Day::Sunday }
}

/// The English name of a weekday.
pub open spec fn day_name(d: Day) -> Seq<char> {
    match d {
        Day::Monday => "Monday"@,
        Day::Tuesday => "Tuesday"@,
        Day::Wednesday => "Wednesday"@,
        Day::Thursday => "Thursday"@,
        Day::Friday => "Friday"@,
        Day::Saturday => "Saturday"@,
        Day::Sunday => "Sunday"@,
    }
}

/// The weekday whose name is exactly `s`, if any.
pub open spec fn day_named(s: Seq<char>) -> Option<Day> {
    if s == day_name(Day::Monday) { Some(Day::Monday) }
    else if s == day_name(Day::Tuesday) { Some(Day::Tuesday) }
    else if s == day_name(Day::Wednesday) { Some(Day::Wednesday) }
    else if s == day_name(Day::Thursday) { Some(Day::Thursday) }
    else if s == day_name(Day::Friday) { Some(Day::Friday) }
    else if s == day_name(Day::Saturday) { Some(Day::Saturday) }
    else if s == day_name(Day::Sunday) { Some(Day::Sunday) }
    else { None }
}

impl Day {
    /// The weekday's English name, capitalised.
    pub fn name(&self) -> (r: &'static str)
        ensures
            r@ == day_name(*self),
    {
        match self {
            Day::Monday => "Monday",
            Day::Tuesday => "Tuesday",
            Day::Wednesday => "Wednesday",
            Day::Thursday => "Thursday",
            Day::Friday => "Friday",
            Day::Saturday => "Saturday",
            Day::Sunday => "Sunday",
        }
    }

    /// The weekday's English name as an owned string.
    pub fn to_string(&self) -> (r: String)
        ensures
            r@ == day_name(*self),
    {
        String::from_str(self.name())
    }

    /// Reads a weekday from its exact English name.
    pub fn from_str(s: &str) -> (r: Result<Day, String>)
        ensures
            r is Ok <==> day_named(s@) is Some,
            r is Ok ==> day_named(s@) == Some(r->Ok_0),
            r is Err ==> r->Err_0@ == s@ + " is not a valid day"@,
    {
        if str_eq(s, "Monday") {
            Ok(Day::Monday)
        } else if str_eq(s, "Tuesday") {
            Ok(Day::Tuesday)
        } else if str_eq(s, "Wednesday") {
            Ok(Day::Wednesday)
        } else if str_eq(s, "Thursday") {
            Ok(Day::Thursday)
        } else if str_eq(s, "Friday") {
            Ok(Day::Friday)
        } else if str_eq(s, "Saturday") {
            Ok(Day::Saturday)
        } else if str_eq(s, "Sunday") {
            Ok(Day::Sunday)
        } else {
            Err(String::from_str(s).concat(" is not a valid day"))
        }
    }
}

/// Every weekday's name reads back as that weekday, and a name that reads as
/// a weekday is exactly that weekday's name.
pub proof fn lemma_day_name_round_trip(d: Day, s: Seq<char>)
    ensures
        day_named(day_name(d)) == Some(d),
        day_named(s) == Some(d) ==> s == day_name(d),
{
    reveal_strlit("Monday");
    reveal_strlit("Tuesday");
    reveal_strlit("Wednesday");
    reveal_strlit("Thursday");
    reveal_strlit("Friday");
    reveal_strlit("Saturday");
    reveal_strlit("Sunday");
    assert(day_name(Day::Monday)[0] == 'M' && day_name(Day::Monday).len() == 6);
    assert(day_name(Day::Tuesday)[0] == 'T' && day_name(Day::Tuesday).len() == 7);
    assert(day_name(Day::Wednesday)[0] == 'W' && day_name(Day::Wednesday).len() == 9);
    assert(day_name(Day::Thursday)[0] == 'T' && day_name(Day::Thursday).len() == 8);
    assert(day_name(Day::Friday)[0] == 'F' && day_name(Day::Friday).len() == 6);
    assert(day_name(Day::Saturday)[0] == 'S' && day_name(Day::Saturday).len() == 8);
    assert(day_name(Day::Sunday)[0] == 'S' && day_name(Day::Sunday).len() == 6);
}

/// A month of the year.
#[derive(Clone, Copy, PartialEq, Eq, Structural, PartialOrd, Ord, Hash, Debug)]
pub enum Month {
    January,
    Feburary,
    March,
    April,
    May,
    June,
    July,
    August,
    September,
    October,
    November,
    December,
}

/// The month with number `n` (January is 1), if `1 <= n <= 12`.
pub open spec fn month_of_num(n: int) -> Option<Month> {
    if n == 1 { Some(Month::January) }
    else if n == 2 { Some(Month::Feburary) }
    else if n == 3 { Some(Month::March) }
    else if n == 4 { Some(Month::April) }
    else if n == 5 { Some(Month::May) }
    else if n == 6 { Some(Month::June) }
    else if n == 7 { Some(Month::July) }
    else if n == 8 { Some(Month::August) }
    else if n == 9 { Some(Month::September) }
    else if n == 10 { Some(Month::October) }
    else if n == 11 { Some(Month::November) }
    else if n == 12 { Some(Month::December) }
    else { None }
}

/// The English name of a month.
pub open spec fn month_name(m: Month) -> Seq<char> {
    match m {
        Month::January => "January"@,
        Month::Feburary => "Feburary"@,
        Month::March => "March"@,
        Month::April => "April"@,
        Month::May => "May"@,
        Month::June => "June"@,
        Month::July => "July"@,
        Month::August => "August"@,
        Month::September => "September"@,
        Month::October => "October"@,
        Month::November => "November"@,
        Month::December => "December"@,
    }
}

impl Month {
    /// The month with the given number, January being 1.
    pub fn from_month_num(num: u32) -> (r: Result<Self, String>)
        ensures
            r is Ok <==> 1 <= num <= 12,
            r is Ok ==> month_of_num(num as int) == Some(r->Ok_0),
            r is Err ==> r->Err_0@ == decimal(num as nat) + " is not a valid month number"@,
    {
        match num {
            1 => Ok(Month::January),
            2 => Ok(Month::Feburary),
            3 => Ok(Month::March),
            4 => Ok(Month::April),
            5 => Ok(Month::May),
            6 => Ok(Month::June),
            7 => Ok(Month::July),
            8 => Ok(Month::August),
            9 => Ok(Month::September),
            10 => Ok(Month::October),
            11 => Ok(Month::November),
            12 => Ok(Month::December),
            _ => Err(u32_to_string(num).concat(" is not a valid month number")),
        }
    }

    /// The month's English name.
    pub fn name(&self) -> (r: &'static str)
        ensures
            r@ == month_name(*self),
    {
        match self {
            Month::January => "January",
            Month::Feburary => "Feburary",
            Month::March => "March",
            Month::April => "April",
            Month::May => "May",
            Month::June => "June",
            Month::July => "July",
            Month::August => "August",
            Month::September => "September",
            Month::October => "October",
            Month::November => "November",
            Month::December => "December",
        }
    }
}

/// Where windows begin: on the first of each calendar month, or on a fixed
/// numbered day of each month.
#[derive(Clone, Copy, PartialEq, Eq, Structural, Debug)]
pub enum DayOfMonth {
    FirstOfMonth,
    NthDay(u32),
}

impl Default for DayOfMonth {
    fn default() -> (r: Self)
        ensures
            r == DayOfMonth::FirstOfMonth,
    {
        DayOfMonth::FirstOfMonth
    }
}

/// The highest day that every month has.
pub const MAX_NTH_DAY: u32 = 28;

impl DayOfMonth {
    /// A numbered day is usable in every month only from 1 to 28.
    pub open spec fn is_valid(self) -> bool {
        match self {
            DayOfMonth::FirstOfMonth => true,
            DayOfMonth::NthDay(n) => 1 <= n <= MAX_NTH_DAY,
        }
    }

    /// The day of the month on which each window starts.
    pub open spec fn anchor(self) -> u32 {
        match self {
            DayOfMonth::FirstOfMonth => 1,
            DayOfMonth::NthDay(n) => n,
        }
    }

    /// The policy for windows anchored on `day`, which must lie in 1..=28.
    pub fn nth_day(day: u32) -> (r: Result<Self, String>)
        ensures
            r is Ok <==> 1 <= day <= MAX_NTH_DAY,
            r is Ok ==> r->Ok_0 == DayOfMonth::NthDay(day),
            r is Err ==> r->Err_0@ == day_out_of_range_message(day),
    {
        if day < 1 || day > MAX_NTH_DAY {
            Err(day_out_of_range(day))
        } else {
            Ok(DayOfMonth::NthDay(day))
        }
    }

    /// Reads a policy: `first`, or the decimal number of a day from 1 to 28.
    pub fn from_str(s: &str) -> (r: Result<Self, String>)
        ensures
            r is Ok <==> parse_policy(s@) is Some,
            r is Ok ==> parse_policy(s@) == Some(r->Ok_0),
            r is Err && s@ != FIRST_OF_MONTH_STR@ && parse_u32_spec(s@) is Some
                ==> r->Err_0@ == day_out_of_range_message(parse_u32_spec(s@)->0),
            s@ != FIRST_OF_MONTH_STR@ && parse_u32_spec(s@) is None
                ==> r is Err && r->Err_0@ == u32_parse_error(s@),
    {
        if str_eq(s, FIRST_OF_MONTH_STR) {
            Ok(DayOfMonth::FirstOfMonth)
        } else {
            match parse_u32(s) {
                Ok(n) => DayOfMonth::nth_day(n),
                Err(e) => Err(e),
            }
        }
    }

    /// The policy written as `from_str` reads it.
    pub fn to_string(&self) -> (r: String)
        ensures
            r@ == policy_text(*self),
    {
        match self {
            DayOfMonth::FirstOfMonth => String::from_str(FIRST_OF_MONTH_STR),
            DayOfMonth::NthDay(n) => u32_to_string(*n),
        }
    }
}

/// The token that stands for `FirstOfMonth`.
pub const FIRST_OF_MONTH_STR: &'static str = "first";

/// The policy that a token names, if it names a valid one.
pub open spec fn parse_policy(s: Seq<char>) -> Option<DayOfMonth> {
    if s == FIRST_OF_MONTH_STR@ {
        Some(DayOfMonth::FirstOfMonth)
    } else {
        match parse_u32_spec(s) {
            Some(n) => if 1 <= n <= MAX_NTH_DAY { Some(DayOfMonth::NthDay(n)) } else { None },
            None => None,
        }
    }
}

/// A valid policy reads back from how it is written.
pub proof fn lemma_policy_round_trip(p: DayOfMonth)
    requires
        p.is_valid(),
    ensures
        parse_policy(policy_text(p)) == Some(p),
{
    if let DayOfMonth::NthDay(n) = p {
        lemma_parse_decimal(n);
        lemma_first_not_decimal(n as nat);
    }
}

/// Day 0 and days past 28 are refused, written in decimal or given as a policy.
pub proof fn lemma_day_out_of_range_refused(n: u32)
    requires
        n == 0 || n > MAX_NTH_DAY,
    ensures
        parse_policy(decimal(n as nat)) is None,
        !DayOfMonth::NthDay(n).is_valid(),
{
    lemma_parse_decimal(n);
    lemma_first_not_decimal(n as nat);
}

/// The token `first` is no number.
proof fn lemma_first_not_decimal(n: nat)
    ensures
        decimal(n) != FIRST_OF_MONTH_STR@,
{
    lemma_decimal_value(n);
    reveal_strlit("first");
    if decimal(n) == FIRST_OF_MONTH_STR@ {
        assert(is_digit(decimal(n)[0]));
    }
}

/// How a policy is written.
pub open spec fn policy_text(p: DayOfMonth) -> Seq<char> {
    match p {
        DayOfMonth::FirstOfMonth => FIRST_OF_MONTH_STR@,
        DayOfMonth::NthDay(n) => decimal(n as nat),
    }
}

/// The refusal of a day that not every month has.
pub open spec fn day_out_of_range_message(day: u32) -> Seq<char> {
    "Cannot go between "@ + decimal(day as nat) + ". Highest date is 28th due to Feburary"@
}

pub(crate) fn day_out_of_range(day: u32) -> (r: String)
    ensures
        r@ == day_out_of_range_message(day),
{
    String::from_str("Cannot go between ").concat(u32_to_string(day).as_str()).concat(
        ". Highest date is 28th due to Feburary",
    )
}

/// Makes a numbered-day policy from an integer, keeping its low 32 bits.
pub trait NthDayExtension {
    /// The day number that the integer stands for.
    spec fn day_number(&self) -> u32;

    fn nth(&self) -> (r: DayOfMonth)
        ensures
            r == DayOfMonth::NthDay(self.day_number()),
    ;
}

impl NthDayExtension for usize {
    open spec fn day_number(&self) -> u32 {
        *self as u32
    }

    fn nth(&self) -> (r: DayOfMonth) {
        DayOfMonth::NthDay(*self as u32)
    }
}

impl NthDayExtension for i32 {
    open spec fn day_number(&self) -> u32 {
        *self as u32
    }

    fn nth(&self) -> (r: DayOfMonth) {
        DayOfMonth::NthDay(*self as u32)
    }
}

} // verus!
