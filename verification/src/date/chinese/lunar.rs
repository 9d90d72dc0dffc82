use crate::date::chinese::animal::Animal;
use crate::date::chinese::utils::{order_mod, order_mod_spec};
use crate::date::utc::{civil_midnight, day_number, UtcInstant, SECONDS_PER_DAY};
use crate::ikigai_error::IkigaiError;
use vstd::prelude::*;
use vstd::string::StringExecFns;

verus! {

/// The first lunar year that the calendar table describes.
pub const LUNAR_FROM_YEAR: i64 = 1900;

/// The last lunar year that the calendar table describes.
pub const LUNAR_TO_YEAR: i64 = 2100;

/// The calendar table, one entry per lunar year from 1900 to 2100. The lowest
/// four bits of an entry name the month after which the leap month is
/// inserted, or are zero where the year has none; the bit of weight
/// `0x10000 >> m` is set where regular month `m` has 30 days; the bit of
/// weight `0x10000` is set where the leap month has 30 days.
pub const LUNARS: [u32; 201] = [
    0x04bd8, 0x04ae0, 0x0a570, 0x054d5, 0x0d260, 0x0d950, 0x16554, 0x056a0, 0x09ad0, 0x055d2,
    0x04ae0, 0x0a5b6, 0x0a4d0, 0x0d250, 0x1d255, 0x0b540, 0x0d6a0, 0x0ada2, 0x095b0, 0x14977,
    0x04970, 0x0a4b0, 0x0b4b5, 0x06a50, 0x06d40, 0x1ab54, 0x02b60, 0x09570, 0x052f2, 0x04970,
    0x06566, 0x0d4a0, 0x0ea50, 0x06e95, 0x05ad0, 0x02b60, 0x186e3, 0x092e0, 0x1c8d7, 0x0c950,
    0x0d4a0, 0x1d8a6, 0x0b550, 0x056a0, 0x1a5b4, 0x025d0, 0x092d0, 0x0d2b2, 0x0a950, 0x0b557,
    0x06ca0, 0x0b550, 0x15355, 0x04da0, 0x0a5b0, 0x14573, 0x052b0, 0x0a9a8, 0x0e950, 0x06aa0,
    0x0aea6, 0x0ab50, 0x04b60, 0x0aae4, 0x0a570, 0x05260, 0x0f263, 0x0d950, 0x05b57, 0x056a0,
    0x096d0, 0x04dd5, 0x04ad0, 0x0a4d0, 0x0d4d4, 0x0d250, 0x0d558, 0x0b540, 0x0b6a0, 0x195a6,
    0x095b0, 0x049b0, 0x0a974, 0x0a4b0, 0x0b27a, 0x06a50, 0x06d40, 0x0af46, 0x0ab60, 0x09570,
    0x04af5, 0x04970, 0x064b0, 0x074a3, 0x0ea50, 0x06b58, 0x055c0, 0x0ab60, 0x096d5, 0x092e0,
    0x0c960, 0x0d954, 0x0d4a0, 0x0da50, 0x07552, 0x056a0, 0x0abb7, 0x025d0, 0x092d0, 0x0cab5,
    0x0a950, 0x0b4a0, 0x0baa4, 0x0ad50, 0x055d9, 0x04ba0, 0x0a5b0, 0x15176, 0x052b0, 0x0a930,
    0x07954, 0x06aa0, 0x0ad50, 0x05b52, 0x04b60, 0x0a6e6, 0x0a4e0, 0x0d260, 0x0ea65, 0x0d530,
    0x05aa0, 0x076a3, 0x096d0, 0x04afb, 0x04ad0, 0x0a4d0, 0x1d0b6, 0x0d250, 0x0d520, 0x0dd45,
    0x0b5a0, 0x056d0, 0x055b2, 0x049b0, 0x0a577, 0x0a4b0, 0x0aa50, 0x1b255, 0x06d20, 0x0ada0,
    0x14b63, 0x09370, 0x049f8, 0x04970, 0x064b0, 0x168a6, 0x0ea50, 0x06b20, 0x1a6c4, 0x0aae0,
    0x0a2e0, 0x0d2e3, 0x0c960, 0x0d557, 0x0d4a0, 0x0da50, 0x05d55, 0x056a0, 0x0a6d0, 0x055d4,
    0x052d0, 0x0a9b8, 0x0a950, 0x0b4a0, 0x0b6a6, 0x0ad50, 0x055a0, 0x0aba4, 0x0a5b0, 0x052b0,
    0x0b273, 0x06930, 0x07337, 0x06aa0, 0x0ad50, 0x14b55, 0x04b60, 0x0a570, 0x054e4, 0x0d160,
    0x0e968, 0x0d520, 0x0daa0, 0x16aa6, 0x056d0, 0x04ae0, 0x0a9d4, 0x0a2d0, 0x0d150, 0x0f252,
    0x0d520,
];

/// The day, counted from 1970-01-01, on which lunar year 1900 begins:
/// 1900-01-31.
pub const LUNAR_EPOCH_DAY: i64 = -25_537;

/// The timestamp of 1900-01-31 00:00:00 UTC, the midnight from which the days
/// of the lunar calendar are counted when a solar instant is read.
pub const LUNAR_EPOCH_TIMESTAMP: i64 = -2_206_396_800;

/// The timestamp from which the days of the lunar calendar are counted when a
/// solar instant is built: midnight of 1900-01-30 on a clock eight hours
/// ahead of UTC. It is one calendar day before the epoch that reading uses.
pub const SOLAR_EPOCH_TIMESTAMP: i64 = -2_206_512_000;

/// The timestamp of 2101-01-29 00:00:00 UTC, the midnight that ends the
/// last day of lunar year 2100 and with it the table.
pub const LUNAR_END_TIMESTAMP: i64 = 4_136_400_000;

/// Whether the calendar table describes lunar year `year`.
pub open spec fn in_table(year: int) -> bool {
    LUNAR_FROM_YEAR <= year <= LUNAR_TO_YEAR
}

/// The table entry of lunar year `year`.
pub open spec fn table_entry(year: int) -> int
    recommends
        in_table(year),
{
    LUNARS[year - LUNAR_FROM_YEAR] as int
}

/// The month after which lunar year `year` inserts its leap month, or zero
/// where the year has no leap month.
pub open spec fn leap_month_of(year: int) -> int {
    table_entry(year) % 16
}

/// The weight, within a table entry, of the bit that tells the length of
/// regular month `month`.
pub open spec fn month_weight(month: int) -> int
    recommends
        1 <= month <= 12,
{
    if month == 1 {
        0x8000
    } else if month == 2 {
        0x4000
    } else if month == 3 {
        0x2000
    } else if month == 4 {
        0x1000
    } else if month == 5 {
        0x800
    } else if month == 6 {
        0x400
    } else if month == 7 {
        0x200
    } else if month == 8 {
        0x100
    } else if month == 9 {
        0x80
    } else if month == 10 {
        0x40
    } else if month == 11 {
        0x20
    } else {
        0x10
    }
}

/// The number of days of regular month `month` of lunar year `year`: 29 or
/// 30, and none for a month number outside 1 to 12.
pub open spec fn month_length(year: int, month: int) -> int {
    if month < 1 || month > 12 {
        0
    } else if (table_entry(year) / month_weight(month)) % 2 == 1 {
        30
    } else {
        29
    }
}

/// The number of days of the leap month of lunar year `year`: none where the
/// year has no leap month, else 29 or 30.
pub open spec fn leap_length(year: int) -> int {
    if leap_month_of(year) == 0 {
        0
    } else if (table_entry(year) / 0x10000) % 2 == 1 {
        30
    } else {
        29
    }
}

/// The days of the regular months of lunar year `year` that come before
/// regular month `month`.
pub open spec fn regular_days_before(year: int, month: int) -> int
    decreases month,
{
    if month <= 1 {
        0
    } else {
        regular_days_before(year, month - 1) + month_length(year, month - 1)
    }
}

/// The number of days of lunar year `year`: those of its twelve regular
/// months and those of its leap month.
pub open spec fn year_length(year: int) -> int {
    regular_days_before(year, 13) + leap_length(year)
}

/// The days of the lunar years from 1900 on that come before lunar year
/// `year`.
pub open spec fn days_before_year(year: int) -> int
    decreases year,
{
    if year <= LUNAR_FROM_YEAR {
        0
    } else {
        days_before_year(year - 1) + year_length(year - 1)
    }
}

/// The days that come before regular month `month` within lunar year `year`:
/// those of the regular months before it, and those of the leap month where
/// it follows one of them.
pub open spec fn days_before_month(year: int, month: int) -> int {
    regular_days_before(year, month) + if 0 < leap_month_of(year) < month {
        leap_length(year)
    } else {
        0
    }
}

/// The number of days of the month that a date names: the leap month where
/// `leap` holds, else regular month `month`.
pub open spec fn slot_length(year: int, month: int, leap: bool) -> int {
    if leap {
        leap_length(year)
    } else {
        month_length(year, month)
    }
}

/// The days that come, within lunar year `year`, before the month that a
/// date names. The leap month follows the regular month whose number it
/// shares.
pub open spec fn slot_start(year: int, month: int, leap: bool) -> int {
    days_before_month(year, month) + if leap {
        month_length(year, month)
    } else {
        0
    }
}

/// Whether the four coordinates name a day of the lunar calendar: a year of
/// the table, a month from 1 to 12, the leap flag only on the month that the
/// year repeats, and a day that the month has.
pub open spec fn is_lunar_date(year: int, month: int, day: int, leap: bool) -> bool {
    &&& in_table(year)
    &&& 1 <= month <= 12
    &&& leap ==> leap_month_of(year) == month
    &&& 1 <= day <= slot_length(year, month, leap)
}

/// The number of days from the first day of lunar year 1900 to the given
/// lunar date.
pub open spec fn day_index(year: int, month: int, day: int, leap: bool) -> int {
    days_before_year(year) + slot_start(year, month, leap) + day - 1
}

/// Whether the table holds a lunar date `offset` days after the first day of
/// lunar year 1900.
pub open spec fn covers_day(offset: int) -> bool {
    0 <= offset < days_before_year(LUNAR_TO_YEAR + 1)
}

/// The lunar date `offset` days after the first day of lunar year 1900, as
/// year, month, day and leap flag.
pub open spec fn lunar_date_at(offset: int) -> (int, int, int, bool) {
    choose|d: (int, int, int, bool)| is_lunar_date(d.0, d.1, d.2, d.3) && day_index(d.0, d.1, d.2, d.3) == offset
}

/// The number of days from 1900-01-31 to the UTC day of the instant `secs`.
pub open spec fn day_offset(secs: int) -> int {
    day_number(secs) - LUNAR_EPOCH_DAY
}

/// Whether the table holds the lunar date of the UTC day of `secs`: the
/// instant lies between 1900-01-31 00:00:00 and 2101-01-28 23:59:59.
pub open spec fn covers_timestamp(secs: int) -> bool {
    LUNAR_EPOCH_TIMESTAMP <= secs < LUNAR_END_TIMESTAMP
}

/// Whether a request for the solar instant of a lunar date is granted. It
/// is refused for a year outside the table, for the two stretches at the
/// table's ends that it does not reach (month 12 of 2100 after its first
/// day, and month 1 of 1900 before a day 31), and for a day beyond the end of
/// the month; the leap flag counts only on the month that the year repeats.
pub open spec fn is_encodable(year: int, month: int, day: int, leap: bool) -> bool {
    &&& in_table(year)
    &&& !(year == 2100 && month == 12 && day > 1)
    &&& !(year == 1900 && month == 1 && day < 31)
    &&& day <= slot_length(year, month, leap && leap_month_of(year) == month)
}

/// The timestamp of the given time of day on the given lunar date: the days
/// up to and including the date, counted from the solar epoch, and the
/// seconds of the time of day.
pub open spec fn solar_timestamp(
    year: int,
    month: int,
    day: int,
    hour: int,
    minute: int,
    second: int,
    leap: bool,
) -> int {
    (days_before_year(year) + slot_start(year, month, leap && leap_month_of(year) == month) + day) * 86_400
        + SOLAR_EPOCH_TIMESTAMP + hour * 3600 + minute * 60 + second
}

/// The numeral that writes the decimal digit `digit`.
pub open spec fn numeral(digit: int) -> Seq<char> {
    if digit == 0 {
        "零"@
    } else if digit == 1 {
        "一"@
    } else if digit == 2 {
        "二"@
    } else if digit == 3 {
        "三"@
    } else if digit == 4 {
        "四"@
    } else if digit == 5 {
        "五"@
    } else if digit == 6 {
        "六"@
    } else if digit == 7 {
        "七"@
    } else if digit == 8 {
        "八"@
    } else {
        "九"@
    }
}

/// The decimal digits of `n`, each written as its numeral.
pub open spec fn numeral_string(n: int) -> Seq<char>
    decreases n,
{
    if n < 10 {
        numeral(n)
    } else {
        numeral_string(n / 10) + numeral(n % 10)
    }
}

/// The name of lunar month `month`, without the word for month.
pub open spec fn month_name(month: int) -> Seq<char> {
    if month == 1 {
        "正"@
    } else if month == 2 {
        "二"@
    } else if month == 3 {
        "三"@
    } else if month == 4 {
        "四"@
    } else if month == 5 {
        "五"@
    } else if month == 6 {
        "六"@
    } else if month == 7 {
        "七"@
    } else if month == 8 {
        "八"@
    } else if month == 9 {
        "九"@
    } else if month == 10 {
        "十"@
    } else if month == 11 {
        "冬"@
    } else {
        "腊"@
    }
}

/// How lunar month `month` is written: its name and the word for month,
/// after the word for leap where the month is the leap month.
pub open spec fn month_alias_spec(month: int, leap: bool) -> Seq<char> {
    if leap {
        "闰"@ + month_name(month) + "月"@
    } else {
        month_name(month) + "月"@
    }
}

/// The word that opens the name of a day in the given ten of the month.
pub open spec fn decade_name(tens: int) -> Seq<char> {
    if tens == 0 {
        "初"@
    } else if tens == 1 {
        "十"@
    } else if tens == 2 {
        "廿"@
    } else {
        "卅"@
    }
}

/// How day `day` of a lunar month is written: the tenth, twentieth and
/// thirtieth have names of their own, every other day the word of its ten
/// and the numeral of its unit.
pub open spec fn day_alias_spec(day: int) -> Seq<char> {
    if day == 10 {
        "初十"@
    } else if day == 20 {
        "二十"@
    } else if day == 30 {
        "三十"@
    } else {
        decade_name(day / 10) + numeral(day % 10)
    }
}

/// Every year of the table names a leap month between 1 and 12, or none.
pub proof fn lemma_leap_month_range(year: int)
    requires
        in_table(year),
    ensures
        0 <= leap_month_of(year) <= 12,
        0 <= table_entry(year) < 0x20000,
{
}

/// A regular month has 29 or 30 days, and a month number outside 1 to 12 has
/// none; a leap month, where the year has one, has 29 or 30 days.
pub proof fn lemma_month_lengths(year: int, month: int)
    ensures
        1 <= month <= 12 ==> 29 <= month_length(year, month) <= 30,
        !(1 <= month <= 12) ==> month_length(year, month) == 0,
        leap_month_of(year) == 0 ==> leap_length(year) == 0,
        leap_month_of(year) != 0 ==> 29 <= leap_length(year) <= 30,
{
}

/// What is tested with a mask on a table entry is what the model reads off
/// it by division: the low four bits are the residue modulo 16, and the bit
/// of a given weight is set where the quotient by that weight is odd.
proof fn lemma_entry_bits(e: u32, shift: u32)
    requires
        e < 0x20000,
        0 <= shift <= 12,
    ensures
        (e & 0xf) == e % 16,
        shift == 0 ==> (0x10000u32 >> shift) == 0x10000,
        1 <= shift <= 12 ==> (0x10000u32 >> shift) == month_weight(shift as int),
        ((e & (0x10000u32 >> shift)) != 0) == ((e / (0x10000u32 >> shift)) % 2 == 1),
{
    assert((e & 0xf) == e % 16) by (bit_vector);
    assert((shift == 0 ==> (0x10000u32 >> shift) == 0x10000) && (shift == 1 ==> (0x10000u32 >> shift) == 0x8000)
        && (shift == 2 ==> (0x10000u32 >> shift) == 0x4000) && (shift == 3 ==> (0x10000u32 >> shift) == 0x2000)
        && (shift == 4 ==> (0x10000u32 >> shift) == 0x1000) && (shift == 5 ==> (0x10000u32 >> shift) == 0x800)
        && (shift == 6 ==> (0x10000u32 >> shift) == 0x400) && (shift == 7 ==> (0x10000u32 >> shift) == 0x200)
        && (shift == 8 ==> (0x10000u32 >> shift) == 0x100) && (shift == 9 ==> (0x10000u32 >> shift) == 0x80)
        && (shift == 10 ==> (0x10000u32 >> shift) == 0x40) && (shift == 11 ==> (0x10000u32 >> shift) == 0x20)
        && (shift == 12 ==> (0x10000u32 >> shift) == 0x10)) by (bit_vector);
    assert(((e & (0x10000u32 >> shift)) != 0) == ((e / (0x10000u32 >> shift)) % 2 == 1)) by (bit_vector)
        requires
            shift <= 12,
    ;
}

/// The days of the regular months do not grow past month 12.
pub proof fn lemma_regular_days_saturate(year: int, month: int)
    requires
        month >= 13,
    ensures
        regular_days_before(year, month) == regular_days_before(year, 13),
    decreases month,
{
    if month > 13 {
        lemma_regular_days_saturate(year, month - 1);
    }
}

/// The days of the regular months before `month` lie between 29 and 30 for
/// each month counted.
pub proof fn lemma_regular_days_bounds(year: int, month: int)
    requires
        1 <= month <= 13,
    ensures
        29 * (month - 1) <= regular_days_before(year, month) <= 30 * (month - 1),
    decreases month,
{
    if month > 1 {
        lemma_regular_days_bounds(year, month - 1);
    }
}

/// The days of a lunar year are those of its months: of the twelve regular
/// months, one by one, and of the leap month.
pub proof fn lemma_year_length_is_sum_of_months(year: int)
    ensures
        year_length(year) == month_length(year, 1) + month_length(year, 2) + month_length(year, 3) + month_length(
            year,
            4,
        ) + month_length(year, 5) + month_length(year, 6) + month_length(year, 7) + month_length(year, 8)
            + month_length(year, 9) + month_length(year, 10) + month_length(year, 11) + month_length(year, 12)
            + leap_length(year),
{
    reveal_with_fuel(regular_days_before, 13);
}

/// A lunar year has between 348 and 390 days.
pub proof fn lemma_year_length_bounds(year: int)
    ensures
        348 <= year_length(year) <= 390,
{
    lemma_regular_days_bounds(year, 13);
    lemma_month_lengths(year, 0);
}

/// The days before a lunar year grow with the year, by at least the length
/// of each year passed: by at least 348 and at most 390 days a year.
pub proof fn lemma_days_before_year_monotone(from: int, to: int)
    requires
        LUNAR_FROM_YEAR <= from <= to,
    ensures
        days_before_year(from) <= days_before_year(to),
        from < to ==> days_before_year(from) + year_length(from) <= days_before_year(to),
        348 * (to - from) <= days_before_year(to) - days_before_year(from) <= 390 * (to - from),
        0 <= days_before_year(from),
    decreases to - from,
{
    if from < to {
        lemma_days_before_year_monotone(from, to - 1);
        lemma_year_length_bounds(to - 1);
    }
    lemma_days_before_year_nonnegative(from);
}

/// No lunar year begins before the first.
pub proof fn lemma_days_before_year_nonnegative(year: int)
    ensures
        0 <= days_before_year(year),
    decreases year,
{
    if year > LUNAR_FROM_YEAR {
        lemma_days_before_year_nonnegative(year - 1);
        lemma_year_length_bounds(year - 1);
    }
}

/// The days before a regular month grow with the month.
pub proof fn lemma_days_before_month_monotone(year: int, from: int, to: int)
    requires
        from <= to,
    ensures
        days_before_month(year, from) <= days_before_month(year, to),
    decreases to - from,
{
    lemma_month_lengths(year, 0);
    if from < to {
        lemma_days_before_month_monotone(year, from, to - 1);
        lemma_month_lengths(year, to - 1);
    }
}

/// Within a year the months follow one another without gap or overlap: a
/// month ends where the next begins, the leap month being next to the
/// regular month whose number it shares, and the last month ends with the
/// year.
pub proof fn lemma_slot_order(year: int, month: int, leap: bool, later: int, later_leap: bool)
    requires
        in_table(year),
        1 <= month <= 12,
        leap ==> leap_month_of(year) == month,
        later_leap ==> leap_month_of(year) == later,
        month < later || (month == later && !leap && later_leap),
    ensures
        slot_start(year, month, leap) + slot_length(year, month, leap) <= slot_start(year, later, later_leap),
        slot_start(year, month, leap) + slot_length(year, month, leap) <= year_length(year),
        0 <= slot_start(year, month, leap),
{
    lemma_leap_month_range(year);
    lemma_month_lengths(year, month);
    lemma_month_lengths(year, later);
    lemma_regular_days_bounds(year, month);
    lemma_days_before_month_monotone(year, month + 1, 13);
    if month < later {
        lemma_days_before_month_monotone(year, month + 1, later);
    }
}

/// The last day of a month lies within its year.
pub proof fn lemma_slot_within_year(year: int, month: int, leap: bool)
    requires
        in_table(year),
        1 <= month <= 12,
        leap ==> leap_month_of(year) == month,
    ensures
        0 <= slot_start(year, month, leap),
        slot_start(year, month, leap) + slot_length(year, month, leap) <= year_length(year),
{
    lemma_slot_order(year, month, leap, 13, false);
}

/// A lunar date lies within the days that the table covers.
pub proof fn lemma_day_index_covered(year: int, month: int, day: int, leap: bool)
    requires
        is_lunar_date(year, month, day, leap),
    ensures
        covers_day(day_index(year, month, day, leap)),
        days_before_year(year) <= day_index(year, month, day, leap) < days_before_year(year) + year_length(year),
{
    lemma_slot_within_year(year, month, leap);
    lemma_days_before_year_monotone(LUNAR_FROM_YEAR as int, year);
    lemma_days_before_year_monotone(year, LUNAR_TO_YEAR + 1);
}

/// No two lunar dates fall on the same day.
pub proof fn lemma_day_index_injective(
    year: int,
    month: int,
    day: int,
    leap: bool,
    other_year: int,
    other_month: int,
    other_day: int,
    other_leap: bool,
)
    requires
        is_lunar_date(year, month, day, leap),
        is_lunar_date(other_year, other_month, other_day, other_leap),
        day_index(year, month, day, leap) == day_index(other_year, other_month, other_day, other_leap),
    ensures
        year == other_year,
        month == other_month,
        day == other_day,
        leap == other_leap,
{
    lemma_day_index_covered(year, month, day, leap);
    lemma_day_index_covered(other_year, other_month, other_day, other_leap);
    if year < other_year {
        lemma_days_before_year_monotone(year, other_year);
    } else if other_year < year {
        lemma_days_before_year_monotone(other_year, year);
    } else {
        if month < other_month || (month == other_month && !leap && other_leap) {
            lemma_slot_order(year, month, leap, other_month, other_leap);
        } else if other_month < month || (month == other_month && !other_leap && leap) {
            lemma_slot_order(year, other_month, other_leap, month, leap);
        }
    }
}

/// The lunar date at a day is the one date whose day index is that day.
pub proof fn lemma_lunar_date_at(year: int, month: int, day: int, leap: bool)
    requires
        is_lunar_date(year, month, day, leap),
    ensures
        lunar_date_at(day_index(year, month, day, leap)) == (year, month, day, leap),
{
    let offset = day_index(year, month, day, leap);
    let witness = (year, month, day, leap);
    assert(is_lunar_date(witness.0, witness.1, witness.2, witness.3) && day_index(
        witness.0,
        witness.1,
        witness.2,
        witness.3,
    ) == offset);
    let found = lunar_date_at(offset);
    lemma_day_index_injective(found.0, found.1, found.2, found.3, year, month, day, leap);
}

/// Reading gives back the date from which a solar instant was built: for
/// every lunar date that can be built into an instant, and every time of day
/// from 08:00:00 on, the lunar date of the UTC day of the instant built is
/// the date itself.
pub proof fn lemma_solar_round_trip(year: int, month: int, day: int, hour: int, minute: int, second: int, leap: bool)
    requires
        is_lunar_date(year, month, day, leap),
        is_encodable(year, month, day, leap),
        8 <= hour < 24,
        0 <= minute < 60,
        0 <= second < 60,
    ensures
        covers_timestamp(solar_timestamp(year, month, day, hour, minute, second, leap)),
        lunar_date_at(day_offset(solar_timestamp(year, month, day, hour, minute, second, leap))) == (
            year,
            month,
            day,
            leap,
        ),
{
    let index = day_index(year, month, day, leap);
    let ts = solar_timestamp(year, month, day, hour, minute, second, leap);
    let time = hour * 3600 + minute * 60 + second;
    assert(ts == (index - 25_537) * 86_400 + (time - 28_800));
    vstd::arithmetic::div_mod::lemma_fundamental_div_mod_converse(ts, 86_400, index - 25_537, time - 28_800);
    assert(day_offset(ts) == index);
    lemma_day_index_covered(year, month, day, leap);
    lemma_lunar_date_at(year, month, day, leap);
    lemma_covers_timestamp(ts);
}

/// The number of long months among the twelve regular months of lunar year
/// `year`.
pub open spec fn long_month_count(year: int) -> int {
    let e = table_entry(year);
    (e / 0x8000) % 2 + (e / 0x4000) % 2 + (e / 0x2000) % 2 + (e / 0x1000) % 2 + (e / 0x800) % 2 + (e / 0x400) % 2 + (e
        / 0x200) % 2 + (e / 0x100) % 2 + (e / 0x80) % 2 + (e / 0x40) % 2 + (e / 0x20) % 2 + (e / 0x10) % 2
}

/// A lunar year has 29 days for each of its twelve regular months, one more
/// for each of them that is long, and the days of its leap month.
pub proof fn lemma_year_length(year: int)
    ensures
        year_length(year) == 348 + long_month_count(year) + leap_length(year),
{
    reveal_with_fuel(regular_days_before, 13);
}

/// The days of ten lunar years in a row, year by year.
proof fn lemma_decade_length(year: int)
    requires
        year >= LUNAR_FROM_YEAR,
    ensures
        days_before_year(year + 10) == days_before_year(year) + 3480 + long_month_count(year) + leap_length(year)
            + long_month_count(year + 1) + leap_length(year + 1) + long_month_count(year + 2) + leap_length(year + 2)
            + long_month_count(year + 3) + leap_length(year + 3) + long_month_count(year + 4) + leap_length(year + 4)
            + long_month_count(year + 5) + leap_length(year + 5) + long_month_count(year + 6) + leap_length(year + 6)
            + long_month_count(year + 7) + leap_length(year + 7) + long_month_count(year + 8) + leap_length(year + 8)
            + long_month_count(year + 9) + leap_length(year + 9),
{
    reveal_with_fuel(days_before_year, 11);
    lemma_year_length(year);
    lemma_year_length(year + 1);
    lemma_year_length(year + 2);
    lemma_year_length(year + 3);
    lemma_year_length(year + 4);
    lemma_year_length(year + 5);
    lemma_year_length(year + 6);
    lemma_year_length(year + 7);
    lemma_year_length(year + 8);
    lemma_year_length(year + 9);
}

// The days before the lunar years that open a decade, each told from the
// one before by the ten years between.
proof fn lemma_days_before_1910()
    ensures
        days_before_year(1910) == 3662,
{
    lemma_decade_length(1900);
}

proof fn lemma_days_before_1920()
    ensures
        days_before_year(1920) == 7324,
{
    lemma_days_before_1910();
    lemma_decade_length(1910);
}

proof fn lemma_days_before_1930()
    ensures
        days_before_year(1930) == 10956,
{
    lemma_days_before_1920();
    lemma_decade_length(1920);
}

proof fn lemma_days_before_1940()
    ensures
        days_before_year(1940) == 14617,
{
    lemma_days_before_1930();
    lemma_decade_length(1930);
}

proof fn lemma_days_before_1950()
    ensures
        days_before_year(1950) == 18279,
{
    lemma_days_before_1940();
    lemma_decade_length(1940);
}

proof fn lemma_days_before_1960()
    ensures
        days_before_year(1960) == 21911,
{
    lemma_days_before_1950();
    lemma_decade_length(1950);
}

proof fn lemma_days_before_1970()
    ensures
        days_before_year(1970) == 25573,
{
    lemma_days_before_1960();
    lemma_decade_length(1960);
}

proof fn lemma_days_before_1980()
    ensures
        days_before_year(1980) == 29235,
{
    lemma_days_before_1970();
    lemma_decade_length(1970);
}

proof fn lemma_days_before_1990()
    ensures
        days_before_year(1990) == 32868,
{
    lemma_days_before_1980();
    lemma_decade_length(1980);
}

proof fn lemma_days_before_2000()
    ensures
        days_before_year(2000) == 36529,
{
    lemma_days_before_1990();
    lemma_decade_length(1990);
}

proof fn lemma_days_before_2010()
    ensures
        days_before_year(2010) == 40191,
{
    lemma_days_before_2000();
    lemma_decade_length(2000);
}

proof fn lemma_days_before_2020()
    ensures
        days_before_year(2020) == 43823,
{
    lemma_days_before_2010();
    lemma_decade_length(2010);
}

proof fn lemma_days_before_2030()
    ensures
        days_before_year(2030) == 47485,
{
    lemma_days_before_2020();
    lemma_decade_length(2020);
}

proof fn lemma_days_before_2040()
    ensures
        days_before_year(2040) == 51146,
{
    lemma_days_before_2030();
    lemma_decade_length(2030);
}

proof fn lemma_days_before_2050()
    ensures
        days_before_year(2050) == 54779,
{
    lemma_days_before_2040();
    lemma_decade_length(2040);
}

proof fn lemma_days_before_2060()
    ensures
        days_before_year(2060) == 58441,
{
    lemma_days_before_2050();
    lemma_decade_length(2050);
}

proof fn lemma_days_before_2070()
    ensures
        days_before_year(2070) == 62103,
{
    lemma_days_before_2060();
    lemma_decade_length(2060);
}

proof fn lemma_days_before_2080()
    ensures
        days_before_year(2080) == 65735,
{
    lemma_days_before_2070();
    lemma_decade_length(2070);
}

proof fn lemma_days_before_2090()
    ensures
        days_before_year(2090) == 69396,
{
    lemma_days_before_2080();
    lemma_decade_length(2080);
}

proof fn lemma_days_before_2100()
    ensures
        days_before_year(2100) == 73058,
{
    lemma_days_before_2090();
    lemma_decade_length(2090);
}

/// The table holds 73412 days: it ends with the last day of lunar year 2100.
pub proof fn lemma_table_days()
    ensures
        days_before_year(LUNAR_TO_YEAR + 1) == 73_412,
{
    lemma_days_before_2100();
    lemma_year_length(2100);
}

/// The instants whose lunar date the table holds are those of the days that
/// it covers.
pub proof fn lemma_covers_timestamp(secs: int)
    ensures
        covers_timestamp(secs) <==> covers_day(day_offset(secs)),
{
    lemma_table_days();
}

/// A lunar date whose day index is `offset` is the lunar date at `offset`.
pub proof fn lemma_lunar_date_found(year: int, month: int, day: int, leap: bool, offset: int)
    requires
        is_lunar_date(year, month, day, leap),
        day_index(year, month, day, leap) == offset,
    ensures
        lunar_date_at(offset) == (year, month, day, leap),
        covers_day(offset),
{
    lemma_lunar_date_at(year, month, day, leap);
    lemma_day_index_covered(year, month, day, leap);
}

/// The lunar date of a solar instant: the instant, and the year, month, day
/// and leap flag of the lunar calendar on its UTC day.
#[derive(Debug, Clone, Copy, PartialEq, Eq, Structural)]
pub struct Lunar {
    t: UtcInstant,
    year: i64,
    month: i64,
    day: i64,
    month_is_leap: bool,
}

impl Lunar {
    #[verifier::type_invariant]
    spec fn wf(self) -> bool {
        &&& is_lunar_date(self.year as int, self.month as int, self.day as int, self.month_is_leap)
        &&& day_index(self.year as int, self.month as int, self.day as int, self.month_is_leap) == day_offset(
            self.t.seconds(),
        )
    }

    /// The instant whose lunar date this is.
    pub closed spec fn instant(self) -> UtcInstant {
        self.t
    }

    /// The lunar date as year, month, day and leap flag.
    pub closed spec fn date(self) -> (int, int, int, bool) {
        (self.year as int, self.month as int, self.day as int, self.month_is_leap)
    }

    /// The lunar date of the instant `t`.
    pub fn new(t: UtcInstant) -> (r: Lunar)
        requires
            covers_timestamp(t.seconds()),
        ensures
            r.instant() == t,
            r.date() == lunar_date_at(day_offset(t.seconds())),
    {
        let (year, month, day, is_leap) = Self::from_solar_timestamp(t.timestamp());
        Lunar { t, year, month, day, month_is_leap: is_leap }
    }

    /// The lunar date of the instant `t`, or the error where the table does
    /// not reach the day of `t`.
    pub fn try_new(t: UtcInstant) -> (r: Result<Lunar, IkigaiError>)
        ensures
            r is Ok <==> covers_timestamp(t.seconds()),
            r is Ok ==> r.unwrap().instant() == t && r.unwrap().date() == lunar_date_at(day_offset(t.seconds())),
            r is Err ==> r.unwrap_err() == IkigaiError::InvalidDate,
    {
        if !Self::covers(t.timestamp()) {
            return Err(IkigaiError::InvalidDate);
        }
        Ok(Self::new(t))
    }

    /// The instant whose lunar date this is.
    pub fn get_instant(&self) -> (r: UtcInstant)
        ensures
            r == self.instant(),
    {
        self.t
    }

    /// Whether the table holds the lunar date of the UTC day of `ts`.
    pub fn covers(ts: i64) -> (r: bool)
        ensures
            r == covers_timestamp(ts as int),
    {
        LUNAR_EPOCH_TIMESTAMP <= ts && ts < LUNAR_END_TIMESTAMP
    }

    /// The lunar date of the UTC day of the timestamp `ts`, as year, month,
    /// day and leap flag, or the error where `ts` lies before 1900-01-31 or
    /// after the last day of lunar year 2100.
    pub fn from_solar(ts: i64) -> (r: Result<(i64, i64, i64, bool), IkigaiError>)
        ensures
            r is Ok <==> covers_timestamp(ts as int),
            r is Ok ==> ({
                let d = r.unwrap();
                &&& is_lunar_date(d.0 as int, d.1 as int, d.2 as int, d.3)
                &&& day_index(d.0 as int, d.1 as int, d.2 as int, d.3) == day_offset(ts as int)
                &&& (d.0 as int, d.1 as int, d.2 as int, d.3) == lunar_date_at(day_offset(ts as int))
            }),
            r is Err ==> r.unwrap_err() == IkigaiError::InvalidDate,
    {
        if !Self::covers(ts) {
            return Err(IkigaiError::InvalidDate);
        }
        Ok(Self::from_solar_timestamp(ts))
    }

    /// The lunar date of the UTC day of the timestamp `ts`, as year, month,
    /// day and leap flag.
    pub fn from_solar_timestamp(ts: i64) -> (r: (i64, i64, i64, bool))
        requires
            covers_timestamp(ts as int),
        ensures
            is_lunar_date(r.0 as int, r.1 as int, r.2 as int, r.3),
            day_index(r.0 as int, r.1 as int, r.2 as int, r.3) == day_offset(ts as int),
            (r.0 as int, r.1 as int, r.2 as int, r.3) == lunar_date_at(day_offset(ts as int)),
    {
        proof {
            lemma_covers_timestamp(ts as int);
        }
        let midnight = civil_midnight(ts);
        let offset = (midnight - LUNAR_EPOCH_TIMESTAMP) / SECONDS_PER_DAY;
        let found = Self::locate(offset);
        let r = found.unwrap();
        proof {
            lemma_lunar_date_found(r.0 as int, r.1 as int, r.2 as int, r.3, offset as int);
        }
        r
    }

    /// The lunar date `offset` days after the first day of lunar year 1900,
    /// or nothing where the table does not reach that day. The years are
    /// walked from 1900 on and the months from the first on, each taking its
    /// days off the count, until the count falls within one.
    fn locate(offset: i64) -> (r: Option<(i64, i64, i64, bool)>)
        ensures
            r is Some <==> covers_day(offset as int),
            r is Some ==> ({
                let d = r.unwrap();
                &&& is_lunar_date(d.0 as int, d.1 as int, d.2 as int, d.3)
                &&& day_index(d.0 as int, d.1 as int, d.2 as int, d.3) == offset
            }),
    {
        if offset < 0 {
            return None;
        }
        let mut year: i64 = LUNAR_FROM_YEAR;
        let mut rest: i64 = offset;
        while year <= LUNAR_TO_YEAR
            invariant
                LUNAR_FROM_YEAR <= year <= LUNAR_TO_YEAR + 1,
                0 <= rest <= offset,
                days_before_year(year as int) + rest == offset,
            decreases LUNAR_TO_YEAR + 1 - year,
        {
            let days_of_year = Self::days_of_lunar_year(year);
            if rest < days_of_year {
                proof {
                    lemma_days_before_year_monotone(year + 1, LUNAR_TO_YEAR + 1);
                }
                let (month, day, is_leap) = Self::locate_in_year(year, rest);
                return Some((year, month, day, is_leap));
            }
            rest -= days_of_year;
            year += 1;
        }
        None
    }

    /// The month, day and leap flag of the day `rest` days after the first
    /// day of lunar year `year`.
    fn locate_in_year(year: i64, day_of_year: i64) -> (r: (i64, i64, bool))
        requires
            in_table(year as int),
            0 <= day_of_year < year_length(year as int),
        ensures
            is_lunar_date(year as int, r.0 as int, r.1 as int, r.2),
            slot_start(year as int, r.0 as int, r.2) + r.1 - 1 == day_of_year,
    {
        let leap = Self::leap_month(year);
        let mut month: i64 = 1;
        let mut is_leap = false;
        let mut rest = day_of_year;
        while month <= 12
            invariant
                in_table(year as int),
                leap == leap_month_of(year as int),
                1 <= month <= 13,
                is_leap ==> leap == month,
                0 <= rest,
                slot_start(year as int, month as int, is_leap) + rest == day_of_year,
                day_of_year < year_length(year as int),
            decreases 26 - 2 * month - if is_leap { 1int } else { 0int },
        {
            let days_of_month = if is_leap {
                Self::leap_days(year)
            } else {
                Self::lunar_days(year, month)
            };
            proof {
                lemma_month_lengths(year as int, month as int);
            }
            if rest < days_of_month {
                return (month, rest + 1, is_leap);
            }
            rest -= days_of_month;
            if !is_leap && month == leap {
                is_leap = true;
            } else {
                is_leap = false;
                month += 1;
            }
        }
        proof {
            lemma_leap_month_range(year as int);
            lemma_month_lengths(year as int, 0);
        }
        (12, rest + 1, false)
    }

    /// The timestamp of the given time of day on the given lunar date, or
    /// the error where the date cannot be built into an instant. A leap flag
    /// on a month that the year does not repeat is taken as not set.
    pub fn to_solar(
        year: i64,
        month: i64,
        day: i64,
        hour: i64,
        minute: i64,
        second: i64,
        is_leap_month: bool,
    ) -> (r: Result<i64, IkigaiError>)
        requires
            i32::MIN <= day,
            i32::MIN <= hour <= i32::MAX,
            i32::MIN <= minute <= i32::MAX,
            i32::MIN <= second <= i32::MAX,
        ensures
            r is Ok <==> is_encodable(year as int, month as int, day as int, is_leap_month),
            r is Ok ==> r.unwrap() == solar_timestamp(
                year as int,
                month as int,
                day as int,
                hour as int,
                minute as int,
                second as int,
                is_leap_month,
            ),
            r is Err ==> r.unwrap_err() == IkigaiError::InvalidDate,
    {
        if year < LUNAR_FROM_YEAR || year > LUNAR_TO_YEAR {
            return Err(IkigaiError::InvalidDate);
        }
        let leap = Self::leap_month(year);
        let is_leap_month = is_leap_month && leap == month;
        if (year == 2100 && month == 12 && day > 1) || (year == 1900 && month == 1 && day < 31) {
            return Err(IkigaiError::InvalidDate);
        }
        let days = Self::lunar_days(year, month);
        let max_days = if is_leap_month {
            Self::leap_days(year)
        } else {
            days
        };
        if day > max_days {
            return Err(IkigaiError::InvalidDate);
        }
        let mut offset: i64 = 0;
        let mut i: i64 = LUNAR_FROM_YEAR;
        while i < year
            invariant
                LUNAR_FROM_YEAR <= i <= year <= LUNAR_TO_YEAR,
                offset == days_before_year(i as int),
                0 <= offset <= 390 * (i - LUNAR_FROM_YEAR),
            decreases year - i,
        {
            offset += Self::days_of_lunar_year(i);
            i += 1;
        }
        let ghost years = offset;
        let mut is_add = false;
        let mut i: i64 = 1;
        while i < month && i <= 12
            invariant
                in_table(year as int),
                leap == leap_month_of(year as int),
                0 <= leap <= 12,
                1 <= i <= 13,
                i <= month || i == 1,
                is_add == (0 < leap < i),
                offset == years + days_before_month(year as int, i as int),
                0 <= years <= 390 * 200,
                0 <= offset - years <= 30 * i,
                !is_add ==> offset - years <= 30 * (i - 1),
            decreases 13 - i,
        {
            proof {
                lemma_month_lengths(year as int, i as int);
            }
            if !is_add {
                if leap <= i && leap > 0 {
                    offset += Self::leap_days(year);
                    is_add = true;
                }
            }
            offset += Self::lunar_days(year, i);
            i += 1;
        }
        proof {
            lemma_month_lengths(year as int, month as int);
            if month >= 13 {
                lemma_regular_days_saturate(year as int, month as int);
            }
            assert(offset == years + days_before_month(year as int, month as int));
        }
        if is_leap_month {
            offset += days;
        }
        Ok((offset + day) * SECONDS_PER_DAY + SOLAR_EPOCH_TIMESTAMP + hour * 3600 + minute * 60 + second)
    }

    /// The timestamp of the given time of day on the given lunar date, or
    /// zero where the date cannot be built into an instant.
    pub fn to_solar_timestamp(
        year: i64,
        month: i64,
        day: i64,
        hour: i64,
        minute: i64,
        second: i64,
        is_leap_month: bool,
    ) -> (r: i64)
        requires
            i32::MIN <= day,
            i32::MIN <= hour <= i32::MAX,
            i32::MIN <= minute <= i32::MAX,
            i32::MIN <= second <= i32::MAX,
        ensures
            r == if is_encodable(year as int, month as int, day as int, is_leap_month) {
                solar_timestamp(
                    year as int,
                    month as int,
                    day as int,
                    hour as int,
                    minute as int,
                    second as int,
                    is_leap_month,
                )
            } else {
                0
            },
    {
        match Self::to_solar(year, month, day, hour, minute, second, is_leap_month) {
            Ok(ts) => ts,
            Err(_) => 0,
        }
    }

    /// Whether the lunar year of the date has a leap month.
    pub fn is_leap(&self) -> (r: bool)
        ensures
            r == (leap_month_of(self.date().0) != 0),
    {
        proof {
            use_type_invariant(self);
        }
        Self::leap_month(self.year) != 0
    }

    /// Whether the date lies in the leap month of its year.
    pub fn is_leap_month(&self) -> (r: bool)
        ensures
            r == self.date().3,
            r ==> leap_month_of(self.date().0) == self.date().1,
    {
        proof {
            use_type_invariant(self);
        }
        self.month_is_leap
    }

    /// The lunar year, a year of the table.
    pub fn get_year(&self) -> (r: i64)
        ensures
            r == self.date().0,
            in_table(r as int),
    {
        proof {
            use_type_invariant(self);
        }
        self.year
    }

    /// The lunar month, from 1 to 12.
    pub fn get_month(&self) -> (r: i64)
        ensures
            r == self.date().1,
            1 <= r <= 12,
    {
        proof {
            use_type_invariant(self);
        }
        self.month
    }

    /// The day of the lunar month, from 1 to the length of the month.
    pub fn get_day(&self) -> (r: i64)
        ensures
            r == self.date().2,
            1 <= r <= slot_length(self.date().0, self.date().1, self.date().3),
    {
        proof {
            use_type_invariant(self);
        }
        self.day
    }

    /// The zodiac animal of the lunar year: the animal whose order is the
    /// branch of the year.
    pub fn animal(&self) -> (r: Animal)
        ensures
            r@ == order_mod_spec(self.date().0 - 3, 12),
    {
        proof {
            use_type_invariant(self);
        }
        let index = order_mod(self.year - 3, 12);
        Animal::new(index).unwrap()
    }

    /// The lunar year written digit by digit in numerals.
    pub fn year_alias(&self) -> (r: String)
        ensures
            r@ == numeral_string(self.date().0),
    {
        proof {
            use_type_invariant(self);
            reveal_with_fuel(numeral_string, 4);
        }
        let year = self.year;
        let mut alias = String::new();
        alias.append(Self::numeral_alias(year / 1000));
        alias.append(Self::numeral_alias(year / 100 % 10));
        alias.append(Self::numeral_alias(year / 10 % 10));
        alias.append(Self::numeral_alias(year % 10));
        proof {
            assert(alias@ =~= numeral_string(year as int));
        }
        alias
    }

    /// The lunar month as it is written.
    pub fn month_alias(&self) -> (r: String)
        ensures
            r@ == month_alias_spec(self.date().1, self.date().3),
    {
        let mut alias = String::new();
        if self.month_is_leap {
            alias.append("闰");
        }
        alias.append(Self::month_name_alias(self.month));
        alias.append("月");
        proof {
            assert(alias@ =~= month_alias_spec(self.month as int, self.month_is_leap));
        }
        alias
    }

    /// The day of the lunar month as it is written.
    pub fn day_alias(&self) -> (r: String)
        ensures
            r@ == day_alias_spec(self.date().2),
    {
        proof {
            use_type_invariant(self);
            lemma_month_lengths(self.year as int, self.month as int);
        }
        let mut alias = String::new();
        match self.day {
            10 => alias.append("初十"),
            20 => alias.append("二十"),
            30 => alias.append("三十"),
            _ => {
                alias.append(Self::decade_alias(self.day / 10));
                alias.append(Self::numeral_alias(self.day % 10));
            },
        }
        proof {
            assert(alias@ =~= day_alias_spec(self.day as int));
        }
        alias
    }

    fn numeral_alias(digit: i64) -> (r: &'static str)
        requires
            0 <= digit <= 9,
        ensures
            r@ == numeral(digit as int),
    {
        match digit {
            0 => "零",
            1 => "一",
            2 => "二",
            3 => "三",
            4 => "四",
            5 => "五",
            6 => "六",
            7 => "七",
            8 => "八",
            _ => "九",
        }
    }

    fn month_name_alias(month: i64) -> (r: &'static str)
        ensures
            r@ == month_name(month as int),
    {
        match month {
            1 => "正",
            2 => "二",
            3 => "三",
            4 => "四",
            5 => "五",
            6 => "六",
            7 => "七",
            8 => "八",
            9 => "九",
            10 => "十",
            11 => "冬",
            _ => "腊",
        }
    }

    fn decade_alias(tens: i64) -> (r: &'static str)
        ensures
            r@ == decade_name(tens as int),
    {
        match tens {
            0 => "初",
            1 => "十",
            2 => "廿",
            _ => "卅",
        }
    }

    /// The month after which `year` inserts its leap month, or zero where it
    /// has none.
    pub fn leap_month(year: i64) -> (r: i64)
        requires
            in_table(year as int),
        ensures
            r == leap_month_of(year as int),
            0 <= r <= 12,
    {
        let e = LUNARS[(year - LUNAR_FROM_YEAR) as usize];
        proof {
            lemma_leap_month_range(year as int);
            lemma_entry_bits(e, 0);
        }
        (e & 0xf) as i64
    }

    /// The number of days of the leap month of `year`, or zero where it has
    /// none.
    pub fn leap_days(year: i64) -> (r: i64)
        requires
            in_table(year as int),
        ensures
            r == leap_length(year as int),
    {
        let leap = Self::leap_month(year);
        let e = LUNARS[(year - LUNAR_FROM_YEAR) as usize];
        proof {
            lemma_leap_month_range(year as int);
            lemma_entry_bits(e, 0);
        }
        if leap == 0 {
            0
        } else if e & 0x10000 != 0 {
            30
        } else {
            29
        }
    }

    /// The number of days of regular month `month` of `year`, or zero where
    /// `month` is no month number.
    pub fn lunar_days(year: i64, month: i64) -> (r: i64)
        requires
            1 <= month <= 12 ==> in_table(year as int),
        ensures
            r == month_length(year as int, month as int),
    {
        if month > 12 || month < 1 {
            0
        } else {
            let e = LUNARS[(year - LUNAR_FROM_YEAR) as usize];
            proof {
                lemma_leap_month_range(year as int);
                lemma_entry_bits(e, month as u32);
            }
            if e & (0x10000u32 >> (month as u32)) != 0 {
                30
            } else {
                29
            }
        }
    }

    /// The number of days of lunar year `year`: 29 for each of its twelve
    /// regular months, one more for each of them that is long, and the days
    /// of its leap month.
    pub fn days_of_lunar_year(year: i64) -> (r: i64)
        requires
            in_table(year as int),
        ensures
            r == year_length(year as int),
            r == regular_days_before(year as int, 13) + leap_length(year as int),
            348 <= r <= 390,
    {
        let e = LUNARS[(year - LUNAR_FROM_YEAR) as usize];
        let mut sum: i64 = 29 * 12;
        let mut mask: u32 = 0x8000;
        let ghost mut month: int = 1;
        proof {
            lemma_leap_month_range(year as int);
            lemma_entry_bits(e, 1);
        }
        while mask > 0x8
            invariant
                in_table(year as int),
                e == table_entry(year as int),
                e < 0x20000,
                1 <= month <= 13,
                month <= 12 ==> mask == (0x10000u32 >> (month as u32)),
                month == 13 ==> mask == 0x8,
                sum == 348 + regular_days_before(year as int, month) - 29 * (month - 1),
                348 <= sum <= 347 + month,
            decreases 13 - month,
        {
            proof {
                lemma_entry_bits(e, month as u32);
                if month < 12 {
                    lemma_entry_bits(e, (month + 1) as u32);
                }
                let shift = month as u32;
                assert(((0x10000u32 >> shift) >> 1) == (0x10000u32 >> ((shift + 1) as u32))) by (bit_vector)
                    requires
                        1 <= shift <= 12,
                ;
                assert((0x10000u32 >> 13u32) == 0x8) by (bit_vector);
            }
            if e & mask != 0 {
                sum += 1;
            }
            mask >>= 1;
            proof {
                month = month + 1;
            }
        }
        proof {
            if month <= 12 {
                lemma_entry_bits(e, month as u32);
            }
            lemma_month_lengths(year as int, 0);
        }
        sum + Self::leap_days(year)
    }
}

} // verus!
