use crate::date::utc::{civil_day, civil_month, day_of, month_of, UtcInstant};
use vstd::prelude::*;

verus! {

/// The day of the month `month` on which a sign of the zodiac begins.
pub open spec fn sign_start(month: int) -> int {
    if month == 1 {
        20
    } else if month == 2 {
        19
    } else if month == 3 {
        21
    } else if month == 4 {
        20
    } else if month == 5 {
        21
    } else if month == 6 {
        22
    } else if month == 7 {
        23
    } else if month == 8 {
        23
    } else if month == 9 {
        23
    } else if month == 10 {
        24
    } else if month == 11 {
        23
    } else {
        22
    }
}

/// The name of the sign of the zodiac that begins in the month `month`.
pub open spec fn sign_name(month: int) -> Seq<char> {
    if month == 1 {
        "水瓶"@
    } else if month == 2 {
        "双鱼"@
    } else if month == 3 {
        "白羊"@
    } else if month == 4 {
        "金牛"@
    } else if month == 5 {
        "双子"@
    } else if month == 6 {
        "巨蟹"@
    } else if month == 7 {
        "狮子"@
    } else if month == 8 {
        "处女"@
    } else if month == 9 {
        "天秤"@
    } else if month == 10 {
        "天蝎"@
    } else if month == 11 {
        "射手"@
    } else {
        "摩羯"@
    }
}

/// The month before `month` in the round of the year.
pub open spec fn month_before(month: int) -> int {
    if month == 1 {
        12
    } else {
        month - 1
    }
}

/// The name of the sign of the zodiac of the given day of the given month:
/// the sign that begins in the month from the day on which it begins, the
/// sign that began in the month before until then, and none where `month` is
/// no month.
pub open spec fn constellation_alias_spec(month: int, day: int) -> Option<Seq<char>> {
    if 1 <= month <= 12 {
        if day >= sign_start(month) {
            Some(sign_name(month))
        } else {
            Some(sign_name(month_before(month)))
        }
    } else {
        None
    }
}

/// Whether `found` is the name that `wanted` tells, or both are none.
pub open spec fn is_alias(found: Option<&'static str>, wanted: Option<Seq<char>>) -> bool {
    match found {
        Some(name) => wanted == Some(name@),
        None => wanted is None,
    }
}

/// The name of the sign of the zodiac of the given day of the given month.
pub fn constellation_alias(month: u32, day: u32) -> (r: Option<&'static str>)
    ensures
        is_alias(r, constellation_alias_spec(month as int, day as int)),
{
    if month < 1 || month > 12 {
        return None;
    }
    let start: u32 = match month {
        1 => 20,
        2 => 19,
        3 => 21,
        4 => 20,
        5 => 21,
        6 => 22,
        7 => 23,
        8 => 23,
        9 => 23,
        10 => 24,
        11 => 23,
        _ => 22,
    };
    let sign = if day >= start {
        month
    } else if month == 1 {
        12
    } else {
        month - 1
    };
    Some(sign_alias(sign))
}

fn sign_alias(month: u32) -> (r: &'static str)
    ensures
        r@ == sign_name(month as int),
{
    match month {
        1 => "水瓶",
        2 => "双鱼",
        3 => "白羊",
        4 => "金牛",
        5 => "双子",
        6 => "巨蟹",
        7 => "狮子",
        8 => "处女",
        9 => "天秤",
        10 => "天蝎",
        11 => "射手",
        _ => "摩羯",
    }
}

/// The sign of the zodiac of an instant.
#[derive(Debug, Clone, Copy, PartialEq, Eq, Structural)]
pub struct Constellation {
    t: UtcInstant,
}

impl Constellation {
    /// The instant whose sign this is.
    pub closed spec fn instant(self) -> UtcInstant {
        self.t
    }

    /// The sign of the zodiac of the instant `t`.
    pub fn new(t: UtcInstant) -> (r: Constellation)
        ensures
            r.instant() == t,
    {
        Constellation { t }
    }

    /// The name of the sign, told by the month and the day of the month of
    /// the instant in UTC.
    pub fn alias(&self) -> (r: Option<&'static str>)
        ensures
            is_alias(
                r,
                constellation_alias_spec(month_of(self.instant().seconds()), day_of(self.instant().seconds())),
            ),
            r is Some,
    {
        let ts = self.t.timestamp();
        constellation_alias(civil_month(ts), civil_day(ts))
    }
}

} // verus!
