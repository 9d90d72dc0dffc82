use crate::date::chinese::animal::Animal;
use crate::date::chinese::gan::Gan;
use crate::date::chinese::solarterm::{Solarterm, SolartermTable, SOLARTERM_FROM_YEAR};
use crate::date::chinese::utils::{lemma_order_mod_range, order_mod, order_mod_spec};
use crate::date::chinese::zhi::Zhi;
use crate::date::utc::{
    civil_midnight, civil_year, clock_hour, day_number, hour_of, is_timestamp, year_of, UtcInstant, SECONDS_PER_DAY,
};
use vstd::prelude::*;
use vstd::string::StringExecFns;

verus! {

/// The timestamp of 1904-01-01 00:00:00 UTC, the midnight from which the
/// days of the sexagenary day count are counted.
pub const SOLARTERM_EPOCH_TIMESTAMP: i64 = -2_082_844_800;

/// The day, counted from 1970-01-01, of 1904-01-01.
pub const SOLARTERM_EPOCH_DAY: i64 = -24_107;

/// What is added to the days since 1904-01-01 to place a day in the cycle of
/// sixty: 1904-01-01 itself stands at place 31.
pub const DAY_ORDER_OFFSET: i64 = 31;

/// A pillar: a stem and a branch, each by its order.
pub struct Pillar {
    pub stem: int,
    pub branch: int,
}

/// The pillar of the given stem and branch.
pub open spec fn pillar_of(gan: Gan, zhi: Zhi) -> Pillar {
    Pillar { stem: gan@, branch: zhi@ }
}

/// Whether a stem order and a branch order can stand together in a pillar:
/// each lies in its cycle, and the two are both odd or both even.
pub open spec fn is_pillar(stem: int, branch: int) -> bool {
    &&& Gan::is_supported_spec(stem)
    &&& Zhi::is_supported_spec(branch)
    &&& (stem - branch) % 2 == 0
}

/// The place, from 1 to 60, of the pillar of the given stem and branch in
/// the cycle of sixty.
pub open spec fn ganzhi_order_spec(stem: int, branch: int) -> int {
    order_mod_spec(((stem + 10 - branch) % 10) / 2 * 12 + branch, 60)
}

/// The year whose pillar an instant carries: the civil year, or the year
/// before it where the instant comes before the Start of Spring.
pub open spec fn pillar_year(year: int, ts: int, spring: int) -> int {
    if ts < spring {
        year - 1
    } else {
        year
    }
}

/// The pillar of the year `year`, which is already turned at the Start of
/// Spring.
pub open spec fn year_pillar(year: int) -> Pillar {
    Pillar { stem: order_mod_spec(year - 3, 10), branch: order_mod_spec(year - 3, 12) }
}

/// The place of the month in the cycle of twelve, told by the indices of
/// the two solar terms that straddle the instant. Where the two lie two
/// apart the instant is itself the boundary of the solar term between them,
/// and that one counts.
pub open spec fn month_cycle(prev_index: int, next_index: int) -> int {
    let i = if next_index - prev_index == 2 {
        prev_index + 1
    } else {
        prev_index
    };
    order_mod_spec((i % 24) / 2, 12)
}

/// The pillar of the month, told by its place in the cycle of twelve and the
/// stem of the year.
pub open spec fn month_pillar(cycle: int, year_stem: int) -> Pillar {
    Pillar { stem: order_mod_spec(cycle + year_stem * 2, 10), branch: order_mod_spec(cycle + 2, 12) }
}

/// The place, from 1 to 60, of the UTC day of the instant `ts` in the cycle
/// of sixty.
pub open spec fn day_order(ts: int) -> int {
    order_mod_spec(day_number(ts) - SOLARTERM_EPOCH_DAY + DAY_ORDER_OFFSET, 60)
}

/// The pillar of the UTC day of the instant `ts`.
pub open spec fn day_pillar(ts: int) -> Pillar {
    Pillar { stem: order_mod_spec(day_order(ts), 10), branch: order_mod_spec(day_order(ts), 12) }
}

/// The branch of the hour `hour` of the day: the twelve branches take two
/// hours each, the first of them from 23:00 to 00:59.
pub open spec fn hour_branch(hour: int) -> int {
    order_mod_spec((hour + 1) / 2 + 1, 12)
}

/// The pillar of the hour `hour` of a day whose stem is `day_stem`.
pub open spec fn hour_pillar(hour: int, day_stem: int) -> Pillar {
    Pillar { stem: order_mod_spec(hour_branch(hour) - 2 + day_stem * 2, 10), branch: hour_branch(hour) }
}

/// Whether the years of the solar-term table take in `year`.
pub open spec fn is_supported_spec(year: int, terms: SolartermTable) -> bool {
    SOLARTERM_FROM_YEAR <= year < terms.to_year_spec()
}

/// Whether the four pillars of the instant `ts` can be told: its civil year
/// `year` lies within the years of the table, and the table holds a solar
/// term before it and one after it.
pub open spec fn has_pillars(ts: int, year: int, terms: SolartermTable) -> bool {
    &&& is_supported_spec(year, terms)
    &&& terms.has_term(terms.prev_index(ts))
    &&& terms.has_term(terms.next_index(ts))
}

/// The four pillars of an instant, and the two solar terms that straddle
/// it.
#[derive(Debug, Clone, Copy, PartialEq, Eq, Structural)]
pub struct Ganzhi {
    pub t: UtcInstant,
    pub year_gan: Gan,
    pub year_zhi: Zhi,
    pub month_gan: Gan,
    pub month_zhi: Zhi,
    pub day_gan: Gan,
    pub day_zhi: Zhi,
    pub hour_gan: Gan,
    pub hour_zhi: Zhi,
    pub prev_solarterm: Solarterm,
    pub next_solarterm: Solarterm,
}

impl Ganzhi {
    /// The pillar of the year.
    pub open spec fn year(self) -> Pillar {
        pillar_of(self.year_gan, self.year_zhi)
    }

    /// The pillar of the month.
    pub open spec fn month(self) -> Pillar {
        pillar_of(self.month_gan, self.month_zhi)
    }

    /// The pillar of the day.
    pub open spec fn day(self) -> Pillar {
        pillar_of(self.day_gan, self.day_zhi)
    }

    /// The pillar of the hour.
    pub open spec fn hour(self) -> Pillar {
        pillar_of(self.hour_gan, self.hour_zhi)
    }

    /// Whether each of the four is a pillar: a stem and a branch that are
    /// both odd or both even.
    pub open spec fn has_parity(self) -> bool {
        &&& is_pillar(self.year_gan@, self.year_zhi@)
        &&& is_pillar(self.month_gan@, self.month_zhi@)
        &&& is_pillar(self.day_gan@, self.day_zhi@)
        &&& is_pillar(self.hour_gan@, self.hour_zhi@)
    }

    /// Whether these are the pillars of the instant `t`, whose civil year is
    /// `year`, by the solar terms of `terms`.
    pub open spec fn is_of(self, t: UtcInstant, year: int, terms: SolartermTable) -> bool {
        let ts = t.seconds();
        let prev = terms.prev_index(ts);
        let next = terms.next_index(ts);
        let spring = terms@[(year - SOLARTERM_FROM_YEAR) * 24 + 2] as int;
        &&& self.t == t
        &&& self.prev_solarterm.index_spec() == prev
        &&& terms.holds(self.prev_solarterm)
        &&& self.next_solarterm.index_spec() == next
        &&& terms.holds(self.next_solarterm)
        &&& self.year() == year_pillar(pillar_year(year, ts, spring))
        &&& self.month() == month_pillar(month_cycle(prev, next), self.year().stem)
        &&& self.day() == day_pillar(ts)
        &&& self.hour() == hour_pillar(hour_of(ts), self.day().stem)
    }

    /// The four pillars of the instant `t` by the solar terms of `terms`, or
    /// nothing where they cannot be told.
    pub fn new(t: UtcInstant, terms: &SolartermTable) -> (r: Option<Self>)
        ensures
            r is Some <==> has_pillars(t.seconds(), year_of(t.seconds()), *terms),
            r is Some ==> r.unwrap().is_of(t, year_of(t.seconds()), *terms),
            r is Some ==> r.unwrap().has_parity(),
    {
        let year = civil_year(t.timestamp()) as i64;
        Self::with_year(t, year, terms)
    }

    /// The four pillars of the instant `t`, whose civil year is `year`, by
    /// the solar terms of `terms`, or nothing where they cannot be told.
    pub fn with_year(t: UtcInstant, year: i64, terms: &SolartermTable) -> (r: Option<Self>)
        ensures
            r is Some <==> has_pillars(t.seconds(), year as int, *terms),
            r is Some ==> r.unwrap().is_of(t, year as int, *terms),
            r is Some ==> r.unwrap().has_parity(),
    {
        let ts = t.timestamp();
        if !Self::is_supported(year, terms) {
            return None;
        }
        let spring = match terms.spring_timestamp(year) {
            Some(spring) => spring,
            None => {
                return None;
            },
        };
        let pillar_year = if ts < spring {
            year - 1
        } else {
            year
        };
        let (year_gan, year_zhi) = Self::year_pillar_of(pillar_year);
        let (p, n) = terms.calc_solarterm(&t);
        let (p, n) = match (p, n) {
            (Some(p), Some(n)) => (p, n),
            _ => {
                return None;
            },
        };
        let (month_gan, month_zhi) = Self::month_pillar_of(p.index(), n.index(), &year_gan);
        let (day_gan, day_zhi) = Self::day_pillar_of(ts);
        let (hour_gan, hour_zhi) = Self::hour_pillar_of(clock_hour(ts) as i64, &day_gan);
        Some(
            Ganzhi {
                t,
                year_gan,
                year_zhi,
                month_gan,
                month_zhi,
                day_gan,
                day_zhi,
                hour_gan,
                hour_zhi,
                prev_solarterm: p,
                next_solarterm: n,
            },
        )
    }

    /// The stem and branch of the year `year`.
    fn year_pillar_of(year: i64) -> (r: (Gan, Zhi))
        requires
            year - 3 >= i64::MIN,
        ensures
            pillar_of(r.0, r.1) == year_pillar(year as int),
            is_pillar(r.0@, r.1@),
    {
        proof {
            lemma_order_mod_range(year - 3, 10);
            lemma_order_mod_range(year - 3, 12);
        }
        let gan = Gan::new(order_mod(year - 3, 10)).unwrap();
        let zhi = Zhi::new(order_mod(year - 3, 12)).unwrap();
        (gan, zhi)
    }

    /// The stem and branch of the month between the solar terms of the given
    /// indices, in a year of stem `year_gan`.
    fn month_pillar_of(prev_index: i64, next_index: i64, year_gan: &Gan) -> (r: (Gan, Zhi))
        requires
            0 <= prev_index <= i32::MAX,
            0 <= next_index <= i32::MAX,
        ensures
            pillar_of(r.0, r.1) == month_pillar(
                month_cycle(prev_index as int, next_index as int),
                year_gan@,
            ),
            is_pillar(r.0@, r.1@),
    {
        let mut i = prev_index;
        if next_index - prev_index == 2 {
            i += 1;
        }
        proof {
            lemma_order_mod_range((i % 24) / 2, 12);
        }
        let cycle = order_mod((i % 24) / 2, 12);
        let stem = year_gan.order();
        proof {
            lemma_order_mod_range(cycle + 2, 12);
            lemma_order_mod_range(cycle + stem * 2, 10);
        }
        let zhi = Zhi::new(order_mod(cycle + 2, 12)).unwrap();
        let gan = Gan::new(order_mod(cycle + stem * 2, 10)).unwrap();
        (gan, zhi)
    }

    /// The stem and branch of the UTC day of the timestamp `ts`.
    fn day_pillar_of(ts: i64) -> (r: (Gan, Zhi))
        requires
            is_timestamp(ts as int),
        ensures
            pillar_of(r.0, r.1) == day_pillar(ts as int),
            is_pillar(r.0@, r.1@),
    {
        let days = (civil_midnight(ts) - SOLARTERM_EPOCH_TIMESTAMP) / SECONDS_PER_DAY;
        proof {
            assert(days == day_number(ts as int) - SOLARTERM_EPOCH_DAY);
            lemma_order_mod_range(days + 31, 60);
        }
        let order = order_mod(days + DAY_ORDER_OFFSET, 60);
        proof {
            lemma_order_mod_range(order as int, 10);
            lemma_order_mod_range(order as int, 12);
        }
        let gan = Gan::new(order_mod(order, 10)).unwrap();
        let zhi = Zhi::new(order_mod(order, 12)).unwrap();
        (gan, zhi)
    }

    /// The stem and branch of the hour `hour` of a day of stem `day_gan`.
    fn hour_pillar_of(hour: i64, day_gan: &Gan) -> (r: (Gan, Zhi))
        requires
            0 <= hour < 24,
        ensures
            pillar_of(r.0, r.1) == hour_pillar(hour as int, day_gan@),
            is_pillar(r.0@, r.1@),
    {
        proof {
            lemma_order_mod_range((hour + 1) / 2 + 1, 12);
        }
        let zhi = Zhi::new(order_mod((hour + 1) / 2 + 1, 12)).unwrap();
        let stem = day_gan.order();
        proof {
            lemma_order_mod_range(zhi@ - 2 + stem * 2, 10);
        }
        let gan = Gan::new(order_mod(zhi.order() - 2 + stem * 2, 10)).unwrap();
        (gan, zhi)
    }

    /// The zodiac animal of the year: the animal whose order is that of the
    /// branch of the year.
    pub fn animal(&self) -> (r: Animal)
        ensures
            r@ == self.year_zhi@,
    {
        Animal::new(self.year_zhi.order()).unwrap()
    }

    /// The written name of the pillar of the year.
    pub fn year_ganzhi_alias(&self) -> (r: String)
        ensures
            r@ == Gan::alias_spec(self.year_gan@) + Zhi::alias_spec(self.year_zhi@),
    {
        String::from_str(self.year_gan.alias()).concat(self.year_zhi.alias())
    }

    /// The written name of the pillar of the month.
    pub fn month_ganzhi_alias(&self) -> (r: String)
        ensures
            r@ == Gan::alias_spec(self.month_gan@) + Zhi::alias_spec(self.month_zhi@),
    {
        String::from_str(self.month_gan.alias()).concat(self.month_zhi.alias())
    }

    /// The written name of the pillar of the day.
    pub fn day_ganzhi_alias(&self) -> (r: String)
        ensures
            r@ == Gan::alias_spec(self.day_gan@) + Zhi::alias_spec(self.day_zhi@),
    {
        String::from_str(self.day_gan.alias()).concat(self.day_zhi.alias())
    }

    /// The written name of the pillar of the hour.
    pub fn hour_ganzhi_alias(&self) -> (r: String)
        ensures
            r@ == Gan::alias_spec(self.hour_gan@) + Zhi::alias_spec(self.hour_zhi@),
    {
        String::from_str(self.hour_gan.alias()).concat(self.hour_zhi.alias())
    }

    /// The place of the pillar of the year in the cycle of sixty.
    pub fn year_ganzhi_order(&self) -> (r: i64)
        requires
            is_pillar(self.year_gan@, self.year_zhi@),
        ensures
            r == ganzhi_order_spec(self.year_gan@, self.year_zhi@),
    {
        Self::ganzhi_order(self.year_gan.order(), self.year_zhi.order())
    }

    /// The place of the pillar of the month in the cycle of sixty.
    pub fn month_ganzhi_order(&self) -> (r: i64)
        requires
            is_pillar(self.month_gan@, self.month_zhi@),
        ensures
            r == ganzhi_order_spec(self.month_gan@, self.month_zhi@),
    {
        Self::ganzhi_order(self.month_gan.order(), self.month_zhi.order())
    }

    /// The place of the pillar of the day in the cycle of sixty.
    pub fn day_ganzhi_order(&self) -> (r: i64)
        requires
            is_pillar(self.day_gan@, self.day_zhi@),
        ensures
            r == ganzhi_order_spec(self.day_gan@, self.day_zhi@),
    {
        Self::ganzhi_order(self.day_gan.order(), self.day_zhi.order())
    }

    /// The place of the pillar of the hour in the cycle of sixty.
    pub fn hour_ganzhi_order(&self) -> (r: i64)
        requires
            is_pillar(self.hour_gan@, self.hour_zhi@),
        ensures
            r == ganzhi_order_spec(self.hour_gan@, self.hour_zhi@),
    {
        Self::ganzhi_order(self.hour_gan.order(), self.hour_zhi.order())
    }

    /// Whether the years of the solar-term table take in `year`.
    pub fn is_supported(year: i64, terms: &SolartermTable) -> (r: bool)
        ensures
            r == is_supported_spec(year as int, *terms),
    {
        SOLARTERM_FROM_YEAR <= year && year < terms.to_year()
    }

    /// The place, from 1 to 60, of the pillar of the given stem and branch
    /// in the cycle of sixty.
    pub fn ganzhi_order(gan_order: i64, zhi_order: i64) -> (r: i64)
        requires
            is_pillar(gan_order as int, zhi_order as int),
        ensures
            r == ganzhi_order_spec(gan_order as int, zhi_order as int),
            1 <= r <= 60,
    {
        proof {
            lemma_order_mod_range(((gan_order + 10 - zhi_order) % 10) / 2 * 12 + zhi_order, 60);
        }
        order_mod(((gan_order + 10 - zhi_order) % 10) / 2 * 12 + zhi_order, 60)
    }
}

/// The pillar that stands at place `place` of the cycle of sixty.
pub open spec fn pillar_at(place: int) -> Pillar {
    Pillar { stem: order_mod_spec(place, 10), branch: order_mod_spec(place, 12) }
}

/// A pillar has a place from 1 to 60 in the cycle of sixty, and it is the
/// pillar that stands at that place: no two pillars share a place.
pub proof fn lemma_ganzhi_order_of_pillar(stem: int, branch: int)
    requires
        is_pillar(stem, branch),
    ensures
        1 <= ganzhi_order_spec(stem, branch) <= 60,
        pillar_at(ganzhi_order_spec(stem, branch)) == (Pillar { stem, branch }),
{
    let gap = ((stem + 10 - branch) % 10) / 2;
    assert(0 <= gap <= 4);
    lemma_order_mod_range(gap * 12 + branch, 60);
}

/// At every place from 1 to 60 of the cycle of sixty stands a pillar, whose
/// place it is: the sixty pillars take up the sixty places.
pub proof fn lemma_pillar_at_place(place: int)
    requires
        1 <= place <= 60,
    ensures
        is_pillar(pillar_at(place).stem, pillar_at(place).branch),
        ganzhi_order_spec(pillar_at(place).stem, pillar_at(place).branch) == place,
{
    lemma_order_mod_range(place, 10);
    lemma_order_mod_range(place, 12);
    let stem = pillar_at(place).stem;
    let branch = pillar_at(place).branch;
    let tens = (place - stem) / 10;
    let dozens = (place - branch) / 12;
    assert(place == 10 * tens + stem && 0 <= tens <= 5);
    assert(place == 12 * dozens + branch && 0 <= dozens <= 4);
    assert(stem + 10 - branch == 12 * dozens - 10 * tens + 10);
    assert((stem + 10 - branch) % 10 == 2 * dozens) by {
        vstd::arithmetic::div_mod::lemma_fundamental_div_mod_converse(
            stem + 10 - branch,
            10,
            dozens - tens + 1,
            2 * dozens,
        );
    }
    lemma_order_mod_range(dozens * 12 + branch, 60);
}

} // verus!
