use crate::date::chinese::animal::Animal;
use crate::date::chinese::constellation::Constellation;
use crate::date::chinese::solarterm::{Solarterm, SolartermTable};
use crate::date::chinese::utils::{order_mod, order_mod_spec};
use crate::date::utc::{
    civil_day, civil_month, civil_weekday, civil_year, clock_hour, clock_minute, clock_second, day_number, day_of,
    hour_of, lemma_signed_remainder, minute_of, month_of, second_of, weekday_of, year_of, UtcInstant,
};
use vstd::prelude::*;

verus! {

/// Whether `year` is a leap year of the Gregorian calendar.
pub open spec fn is_leap_year(year: int) -> bool {
    year % 4 == 0 && year % 100 != 0 || year % 400 == 0
}

/// The written name of the day of the week of number `number`, Sunday being
/// day 0.
pub open spec fn week_alias_spec(number: int) -> Seq<char> {
    if number == 0 {
        "日"@
    } else if number == 1 {
        "一"@
    } else if number == 2 {
        "二"@
    } else if number == 3 {
        "三"@
    } else if number == 4 {
        "四"@
    } else if number == 5 {
        "五"@
    } else {
        "六"@
    }
}

/// Whether `year` is a leap year of the Gregorian calendar: a year that 4
/// divides and 100 does not, or that 400 divides.
pub fn leap_year(year: i32) -> (r: bool)
    ensures
        r == is_leap_year(year as int),
{
    proof {
        if year < 0 {
            lemma_signed_remainder(year as int, 4);
            lemma_signed_remainder(year as int, 100);
            lemma_signed_remainder(year as int, 400);
        }
    }
    year % 4 == 0 && year % 100 != 0 || year % 400 == 0
}

/// The written name of the day of the week of number `number`, Sunday being
/// day 0.
pub fn weekday_alias(number: usize) -> (r: &'static str)
    ensures
        r@ == week_alias_spec(number as int),
{
    match number {
        0 => "日",
        1 => "一",
        2 => "二",
        3 => "三",
        4 => "四",
        5 => "五",
        _ => "六",
    }
}

/// The zodiac animal of the civil year `year`: the animal at the place
/// that the years counted from year 3 take in the cycle of twelve. Every
/// year has one.
pub fn year_animal(year: i32) -> (r: Option<Animal>)
    ensures
        r is Some,
        r.unwrap()@ == order_mod_spec(year - 3, 12),
{
    Animal::new(order_mod(year as i64 - 3, 12))
}

/// The solar terms of a solar view, by their indices: the current one, if
/// any, the previous and the next.
pub struct TermIndices {
    pub current: Option<int>,
    pub prev: int,
    pub next: int,
}

/// Whether the boundary of the solar term of index `index` falls on the UTC
/// day of the instant `ts`.
pub open spec fn falls_on_day(terms: SolartermTable, index: int, ts: int) -> bool {
    day_number(terms@[index] as int) == day_number(ts)
}

/// The solar terms around the instant `ts`, or nothing where they cannot be
/// told. They are the two that straddle the instant, unless these follow one
/// upon the other and the boundary of one of them falls on the day of the
/// instant: that one is then the current solar term, and the previous and
/// the next are those on either side of it. The later of the two has the
/// last word. Nothing is told where the table lacks one of the two, the
/// solar term before an earlier one that falls on the day, or the solar term
/// after a later one that does.
pub open spec fn terms_around(terms: SolartermTable, ts: int) -> Option<TermIndices> {
    let p = terms.prev_index(ts);
    let n = terms.next_index(ts);
    if !terms.has_term(p) || !terms.has_term(n) {
        None
    } else if n - p != 1 {
        Some(TermIndices { current: None, prev: p, next: n })
    } else if falls_on_day(terms, p, ts) && !terms.has_term(p - 1) {
        None
    } else if falls_on_day(terms, n, ts) {
        if terms.has_term(n + 1) {
            Some(TermIndices { current: Some(n), prev: n - 1, next: n + 1 })
        } else {
            None
        }
    } else if falls_on_day(terms, p, ts) {
        Some(TermIndices { current: Some(p), prev: p - 1, next: n })
    } else {
        Some(TermIndices { current: None, prev: p, next: n })
    }
}

/// A solar instant with the solar terms around it.
#[derive(Debug, Clone, Copy, PartialEq, Eq)]
pub struct Solar {
    t: UtcInstant,
    current_solarterm: Option<Solarterm>,
    prev_solarterm: Solarterm,
    next_solarterm: Solarterm,
}

impl Solar {
    /// The instant of the view.
    pub closed spec fn instant(self) -> UtcInstant {
        self.t
    }

    /// The solar term whose boundary falls on the day of the instant, if
    /// there is one.
    pub closed spec fn current(self) -> Option<Solarterm> {
        self.current_solarterm
    }

    /// The solar term before the instant, or before the current one.
    pub closed spec fn prev(self) -> Solarterm {
        self.prev_solarterm
    }

    /// The solar term after the instant, or after the current one.
    pub closed spec fn next(self) -> Solarterm {
        self.next_solarterm
    }

    /// Whether the view holds, of the table `terms`, the solar terms of the
    /// indices `around`.
    pub open spec fn shows(self, terms: SolartermTable, around: TermIndices) -> bool {
        &&& terms.holds(self.prev())
        &&& self.prev().index_spec() == around.prev
        &&& terms.holds(self.next())
        &&& self.next().index_spec() == around.next
        &&& self.current() is Some <==> around.current is Some
        &&& self.current() is Some ==> terms.holds(self.current().unwrap()) && self.current().unwrap().index_spec()
            == around.current.unwrap()
    }

    /// The solar view of the instant `t` by the solar terms of `terms`, or
    /// nothing where the solar terms around `t` cannot be told.
    pub fn new(t: UtcInstant, terms: &SolartermTable) -> (r: Option<Self>)
        ensures
            r is Some <==> terms_around(*terms, t.seconds()) is Some,
            r is Some ==> r.unwrap().instant() == t && r.unwrap().shows(
                *terms,
                terms_around(*terms, t.seconds()).unwrap(),
            ),
    {
        let (p, n) = terms.calc_solarterm(&t);
        let (mut p, mut n) = match (p, n) {
            (Some(p), Some(n)) => (p, n),
            _ => {
                return None;
            },
        };
        let mut c: Option<Solarterm> = None;
        if n.index() - p.index() == 1 {
            if p.is_in_day(&t) {
                c = Some(p);
                p = match terms.prev(&p) {
                    Some(before) => before,
                    None => {
                        return None;
                    },
                };
            }
            if n.is_in_day(&t) {
                c = Some(n);
                p = match terms.prev(&n) {
                    Some(before) => before,
                    None => {
                        return None;
                    },
                };
                n = match terms.next(&n) {
                    Some(after) => after,
                    None => {
                        return None;
                    },
                };
            }
        }
        Some(Self { t, current_solarterm: c, prev_solarterm: p, next_solarterm: n })
    }

    /// The instant of the view.
    pub fn get_instant(&self) -> (r: UtcInstant)
        ensures
            r == self.instant(),
    {
        self.t
    }

    /// The solar term whose boundary falls on the day of the instant, if
    /// there is one.
    pub fn current_solarterm(&self) -> (r: Option<Solarterm>)
        ensures
            r == self.current(),
    {
        self.current_solarterm
    }

    /// The solar term before the instant, or before the current one.
    pub fn prev_solarterm(&self) -> (r: Solarterm)
        ensures
            r == self.prev(),
    {
        self.prev_solarterm
    }

    /// The solar term after the instant, or after the current one.
    pub fn next_solarterm(&self) -> (r: Solarterm)
        ensures
            r == self.next(),
    {
        self.next_solarterm
    }

    /// Whether the civil year of the instant is a leap year.
    pub fn is_leap(&self) -> (r: bool)
        ensures
            r == is_leap_year(year_of(self.instant().seconds())),
    {
        leap_year(civil_year(self.t.timestamp()))
    }

    /// The day of the week of the instant, Sunday being day 0.
    pub fn week_number(&self) -> (r: usize)
        ensures
            r == weekday_of(self.instant().seconds()),
            r < 7,
    {
        civil_weekday(self.t.timestamp()) as usize
    }

    /// The written name of the day of the week of the instant.
    pub fn week_alias(&self) -> (r: &'static str)
        ensures
            r@ == week_alias_spec(weekday_of(self.instant().seconds())),
    {
        weekday_alias(self.week_number())
    }

    /// The zodiac animal of the civil year of the instant.
    pub fn animal(&self) -> (r: Option<Animal>)
        ensures
            r is Some,
            r.unwrap()@ == order_mod_spec(year_of(self.instant().seconds()) - 3, 12),
    {
        year_animal(civil_year(self.t.timestamp()))
    }

    /// The sign of the zodiac of the instant.
    pub fn constellation(&self) -> (r: Constellation)
        ensures
            r.instant() == self.instant(),
    {
        Constellation::new(self.t)
    }

    /// The civil year of the instant.
    pub fn get_year(&self) -> (r: i32)
        ensures
            r == year_of(self.instant().seconds()),
    {
        civil_year(self.t.timestamp())
    }

    /// The month of the civil year, from 1 to 12.
    pub fn get_month(&self) -> (r: u32)
        ensures
            r == month_of(self.instant().seconds()),
            1 <= r <= 12,
    {
        civil_month(self.t.timestamp())
    }

    /// The day of the month, from 1 to 31.
    pub fn get_day(&self) -> (r: u32)
        ensures
            r == day_of(self.instant().seconds()),
            1 <= r <= 31,
    {
        civil_day(self.t.timestamp())
    }

    /// The hour of the day, from 0 to 23.
    pub fn get_hour(&self) -> (r: u32)
        ensures
            r == hour_of(self.instant().seconds()),
            r < 24,
    {
        clock_hour(self.t.timestamp())
    }

    /// The minute of the hour, from 0 to 59.
    pub fn get_minute(&self) -> (r: u32)
        ensures
            r == minute_of(self.instant().seconds()),
            r < 60,
    {
        clock_minute(self.t.timestamp())
    }

    /// The second of the minute, from 0 to 59.
    pub fn get_second(&self) -> (r: u32)
        ensures
            r == second_of(self.instant().seconds()),
            r < 60,
    {
        clock_second(self.t.timestamp())
    }

    /// The nanoseconds past the second.
    pub fn get_nanosecond(&self) -> (r: u32)
        ensures
            r == self.instant().nanoseconds(),
    {
        self.t.nanosecond()
    }
}

} // verus!
