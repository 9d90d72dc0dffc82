use chrono::{DateTime, Datelike, Duration, TimeZone, Utc};
use ikigai_core::date::chinese::animal::Animal;
use ikigai_core::date::chinese::gan::Gan;
use ikigai_core::date::chinese::gan_zhi::Ganzhi;
use ikigai_core::date::chinese::solarterm::{SolartermTable, SOLARTERM_FROM_YEAR};
use ikigai_core::date::chinese::zhi::Zhi;
use ikigai_core::date::utc::UtcInstant;

/// The day of the year, as month and day, on which each of the 24 solar
/// terms falls in most years, on the clock that the table keeps.
const USUAL_DAYS: [(u32, u32); 24] = [
    (1, 5),
    (1, 20),
    (2, 4),
    (2, 19),
    (3, 5),
    (3, 21),
    (4, 5),
    (4, 20),
    (5, 5),
    (5, 21),
    (6, 6),
    (6, 21),
    (7, 7),
    (7, 23),
    (8, 7),
    (8, 23),
    (9, 8),
    (9, 23),
    (10, 8),
    (10, 23),
    (11, 7),
    (11, 22),
    (12, 7),
    (12, 22),
];

/// A table of solar terms from 1904 up to 2100, with every boundary at noon
/// of its usual day, but for the Start of Spring of 2018, which is set to
/// the second.
fn solar_terms() -> SolartermTable {
    let mut instants = Vec::new();
    for year in 1904..2100 {
        for (month, day) in USUAL_DAYS {
            instants.push(Utc.with_ymd_and_hms(year, month, day, 12, 0, 0).unwrap().timestamp());
        }
    }
    instants[(2018 - 1904) * 24 + 2] = Utc.with_ymd_and_hms(2018, 2, 4, 5, 28, 29).unwrap().timestamp();
    SolartermTable::new(instants).unwrap()
}

fn instant(t: DateTime<Utc>) -> UtcInstant {
    UtcInstant::new(t.timestamp(), t.timestamp_subsec_nanos()).unwrap()
}

fn ymd_hms(year: i32, month: u32, day: u32, hour: u32, minute: u32, second: u32) -> DateTime<Utc> {
    Utc.with_ymd_and_hms(year, month, day, hour, minute, second).unwrap()
}

fn ganzhi(t: DateTime<Utc>) -> Option<Ganzhi> {
    Ganzhi::new(instant(t), &solar_terms())
}

struct Expected {
    year_gan: Gan,
    year_zhi: Zhi,
    month_gan: Gan,
    month_zhi: Zhi,
    day_gan: Gan,
    day_zhi: Zhi,
    hour_gan: Gan,
    hour_zhi: Zhi,
    prev_order: i64,
    next_order: i64,
}

fn maker(yg: i64, yz: i64, mg: i64, mz: i64, dg: i64, dz: i64, hg: i64, hz: i64, p: i64, n: i64) -> Expected {
    Expected {
        year_gan: Gan::new(yg).unwrap(),
        year_zhi: Zhi::new(yz).unwrap(),
        month_gan: Gan::new(mg).unwrap(),
        month_zhi: Zhi::new(mz).unwrap(),
        day_gan: Gan::new(dg).unwrap(),
        day_zhi: Zhi::new(dz).unwrap(),
        hour_gan: Gan::new(hg).unwrap(),
        hour_zhi: Zhi::new(hz).unwrap(),
        prev_order: solar_terms().term(p).unwrap().order(),
        next_order: solar_terms().term(n).unwrap().order(),
    }
}

#[test]
fn test_new_ganzhi() {
    let terms = solar_terms();
    let t1 = ymd_hms((SOLARTERM_FROM_YEAR - 1) as i32, 6, 1, 0, 0, 0);
    let t2 = ymd_hms((terms.to_year() + 1) as i32, 6, 1, 0, 0, 0);
    let t3 = ymd_hms(2018, 1, 1, 0, 0, 0);
    let t4 = ymd_hms(2018, 2, 4, 5, 28, 28);
    let t5 = ymd_hms(2018, 2, 4, 5, 28, 29);
    let t6 = ymd_hms(2018, 2, 4, 5, 28, 30);

    let test_cases = vec![
        (t1, None),
        (t2, None),
        (t3, Some(maker(4, 10, 9, 1, 10, 6, 9, 1, 23, 0))),
        (t4, Some(maker(4, 10, 10, 2, 4, 4, 10, 4, 1, 2))),
        (t5, Some(maker(5, 11, 1, 3, 4, 4, 10, 4, 1, 3))),
        (t6, Some(maker(5, 11, 1, 3, 4, 4, 10, 4, 2, 3))),
    ];

    for (t, expected) in test_cases {
        let got = Ganzhi::new(instant(t), &terms);
        match got {
            Some(got) => {
                let expected = expected.unwrap();
                assert_eq!(got.year_gan, expected.year_gan, "For yg: {}", t);
                assert_eq!(got.year_zhi, expected.year_zhi, "For yz: {}", t);
                assert_eq!(got.month_gan, expected.month_gan, "For mg: {}", t);
                assert_eq!(got.month_zhi, expected.month_zhi, "For mz: {}", t);
                assert_eq!(got.day_gan, expected.day_gan, "For dg: {}", t);
                assert_eq!(got.day_zhi, expected.day_zhi, "For dz: {}", t);
                assert_eq!(got.hour_gan, expected.hour_gan, "For hg: {}", t);
                assert_eq!(got.hour_zhi, expected.hour_zhi, "For hz: {}", t);
                assert_eq!(got.prev_solarterm.order(), expected.prev_order, "For p: {}", t);
                assert_eq!(got.next_solarterm.order(), expected.next_order, "For n: {}", t);
            }
            None => assert!(expected.is_none(), "For date: {}", t),
        }
    }
}

#[test]
fn test_ganzhi_animal() {
    let t1 = ymd_hms(2018, 1, 1, 0, 0, 0);
    let t2 = ymd_hms(2018, 2, 5, 0, 0, 0);
    let tests = vec![("test_1", ganzhi(t1), Animal::new(10)), ("test_2", ganzhi(t2), Animal::new(11))];

    for (name, gz, want) in tests {
        println!("{}", name);
        let got = gz.unwrap().animal();
        assert_eq!(got, want.clone().unwrap(), "Ganzhi::animal() = {:?}, want {:?}", got, want.unwrap());
    }
}

#[test]
fn test_ganzhi_year_ganzhi_alias() {
    let t1 = ymd_hms(2018, 1, 1, 0, 0, 0);
    let t2 = ymd_hms(2018, 2, 5, 0, 0, 0);
    let tests = vec![("test_1", ganzhi(t1), "丁酉"), ("test_2", ganzhi(t2), "戊戌")];

    for (name, gz, want) in tests {
        println!("{}", name);
        let got = gz.unwrap().year_ganzhi_alias();
        assert_eq!(got, want, "Ganzhi::year_ganzhi_alias() = {}, want {}", got, want);
    }
}

#[test]
fn test_ganzhi_month_ganzhi_alias() {
    let t1 = ymd_hms(2018, 1, 1, 0, 0, 0);
    let t2 = ymd_hms(2018, 2, 5, 0, 0, 0);
    let tests = vec![("test_1", ganzhi(t1), "壬子"), ("test_2", ganzhi(t2), "甲寅")];

    for (name, gz, want) in tests {
        println!("{}", name);
        let got = gz.unwrap().month_ganzhi_alias();
        assert_eq!(got, want, "Ganzhi::month_ganzhi_alias() = {}, want {}", got, want);
    }
}

#[test]
fn test_ganzhi_day_ganzhi_alias() {
    let t1 = ymd_hms(2018, 1, 1, 0, 0, 0);
    let t2 = ymd_hms(2018, 2, 5, 0, 0, 0);
    let tests = vec![("test_1", ganzhi(t1), "癸巳"), ("test_2", ganzhi(t2), "戊辰")];

    for (name, gz, want) in tests {
        println!("{}", name);
        let got = gz.unwrap().day_ganzhi_alias();
        assert_eq!(got, want, "Ganzhi::day_ganzhi_alias() = {}, want {}", got, want);
    }
}

#[test]
fn test_ganzhi_hour_ganzhi_alias() {
    let t1 = ymd_hms(2018, 1, 1, 0, 0, 0);
    let t2 = ymd_hms(2018, 2, 5, 0, 0, 0);
    let tests = vec![("test_1", ganzhi(t1), "壬子"), ("test_2", ganzhi(t2), "壬子")];

    for (name, gz, want) in tests {
        println!("{}", name);
        let got = gz.unwrap().hour_ganzhi_alias();
        assert_eq!(got, want, "Ganzhi::hour_ganzhi_alias() = {}, want {}", got, want);
    }
}

#[test]
fn test_ganzhi_year_ganzhi_order() {
    let t1 = ymd_hms(2018, 1, 1, 0, 0, 0);
    let t2 = ymd_hms(2018, 2, 5, 0, 0, 0);
    let tests = vec![("test_1", ganzhi(t1), 34), ("test_2", ganzhi(t2), 35)];

    for (name, gz, want) in tests {
        println!("{}", name);
        let got = gz.unwrap().year_ganzhi_order();
        assert_eq!(got, want, "Ganzhi::year_ganzhi_order() = {}, want {}", got, want);
    }
}

#[test]
fn test_ganzhi_month_ganzhi_order() {
    let t1 = ymd_hms(2018, 1, 1, 0, 0, 0);
    let t2 = ymd_hms(2018, 2, 5, 0, 0, 0);
    let tests = vec![("test_1", ganzhi(t1), 49), ("test_2", ganzhi(t2), 51)];

    for (name, gz, want) in tests {
        println!("{}", name);
        let got = gz.unwrap().month_ganzhi_order();
        assert_eq!(got, want, "Ganzhi::month_ganzhi_order() = {}, want {}", got, want);
    }
}

#[test]
fn test_ganzhi_day_ganzhi_order() {
    let t1 = ymd_hms(2018, 1, 1, 0, 0, 0);
    let t2 = ymd_hms(2018, 2, 5, 0, 0, 0);
    let tests = vec![("test_1", ganzhi(t1), 30), ("test_2", ganzhi(t2), 5)];

    for (name, gz, want) in tests {
        println!("{}", name);
        let got = gz.unwrap().day_ganzhi_order();
        assert_eq!(got, want, "Ganzhi::day_ganzhi_order() = {}, want {}", got, want);
    }
}

#[test]
fn test_ganzhi_hour_ganzhi_order() {
    let t1 = ymd_hms(2018, 1, 1, 0, 0, 0);
    let t2 = ymd_hms(2018, 2, 5, 0, 0, 0);
    let tests = vec![("test_1", ganzhi(t1), 49), ("test_2", ganzhi(t2), 49)];

    for (name, gz, want) in tests {
        println!("{}", name);
        let got = gz.unwrap().hour_ganzhi_order();
        assert_eq!(got, want, "Ganzhi::hour_ganzhi_order() = {}, want {}", got, want);
    }
}

#[test]
fn test_ganzhi_equals() {
    let t1 = Utc::now();
    let t2 = t1 + Duration::days(1);
    let tests = vec![("test_1", ganzhi(t1), ganzhi(t1), true), ("test_2", ganzhi(t1), ganzhi(t2), false)];

    for (name, gz, gz2, want) in tests {
        println!("{}", name);
        assert_eq!(gz == gz2, want, "Ganzhi::equals() failed");
    }
}

#[test]
fn test_ganzhi_is_supported() {
    let terms = solar_terms();
    assert_eq!(terms.from_year(), 1904);
    assert_eq!(terms.to_year(), 2100);
    assert!(!Ganzhi::is_supported(1903, &terms));
    assert!(Ganzhi::is_supported(1904, &terms));
    assert!(Ganzhi::is_supported(2099, &terms));
    assert!(!Ganzhi::is_supported(2100, &terms));
    assert!(Ganzhi::new(instant(ymd_hms(1903, 12, 31, 23, 59, 59)), &terms).is_none());
    assert!(Ganzhi::new(instant(ymd_hms(2100, 1, 1, 0, 0, 0)), &terms).is_none());
}

#[test]
fn test_ganzhi_needs_a_solar_term_on_either_side() {
    let terms = solar_terms();
    // Before the first boundary of the table there is no solar term behind.
    assert!(Ganzhi::new(instant(ymd_hms(1904, 1, 1, 0, 0, 0)), &terms).is_none());
    assert!(Ganzhi::new(instant(ymd_hms(1904, 1, 5, 12, 0, 0)), &terms).is_none());
    assert!(Ganzhi::new(instant(ymd_hms(1904, 1, 5, 12, 0, 1)), &terms).is_some());
    // After the last boundary there is none ahead.
    assert!(Ganzhi::new(instant(ymd_hms(2099, 12, 22, 11, 59, 59)), &terms).is_some());
    assert!(Ganzhi::new(instant(ymd_hms(2099, 12, 22, 12, 0, 0)), &terms).is_none());
    assert!(Ganzhi::new(instant(ymd_hms(2099, 12, 31, 0, 0, 0)), &terms).is_none());
}

#[test]
fn test_ganzhi_with_year() {
    let terms = solar_terms();
    let t = ymd_hms(2018, 2, 5, 0, 0, 0);
    assert_eq!(Ganzhi::with_year(instant(t), 2018, &terms), Ganzhi::new(instant(t), &terms));
    assert!(Ganzhi::with_year(instant(t), 1903, &terms).is_none());
    assert!(Ganzhi::with_year(instant(t), 2100, &terms).is_none());
    // The year turns at its own Start of Spring: read as an instant of 2019,
    // this one comes before it.
    let got = Ganzhi::with_year(instant(t), 2019, &terms).unwrap();
    assert_eq!(got.year_ganzhi_alias(), "戊戌");
}

#[test]
fn test_ganzhi_order_is_a_bijection() {
    let mut seen = [false; 61];
    for gan in 1..=10i64 {
        for zhi in 1..=12i64 {
            if (gan - zhi) % 2 != 0 {
                continue;
            }
            let order = Ganzhi::ganzhi_order(gan, zhi);
            assert!((1..=60).contains(&order));
            assert!(!seen[order as usize], "{} is taken twice", order);
            seen[order as usize] = true;
            assert_eq!(gan, if order % 10 == 0 { 10 } else { order % 10 });
            assert_eq!(zhi, if order % 12 == 0 { 12 } else { order % 12 });
        }
    }
    assert!(seen[1..].iter().all(|taken| *taken));
    assert_eq!(Ganzhi::ganzhi_order(1, 1), 1);
    assert_eq!(Ganzhi::ganzhi_order(10, 12), 60);
    assert_eq!(Ganzhi::ganzhi_order(4, 10), 34);
    assert_eq!(Ganzhi::ganzhi_order(2, 12), 12);
}

#[test]
fn test_pillars_keep_parity() {
    let terms = solar_terms();
    let mut t = ymd_hms(1904, 2, 1, 0, 30, 0);
    let end = ymd_hms(2099, 12, 1, 0, 0, 0);
    let mut day_order = 0;
    while t < end {
        let got = Ganzhi::new(instant(t), &terms).unwrap();
        for (gan, zhi) in [
            (got.year_gan, got.year_zhi),
            (got.month_gan, got.month_zhi),
            (got.day_gan, got.day_zhi),
            (got.hour_gan, got.hour_zhi),
        ] {
            assert_eq!((gan.order() - zhi.order()) % 2, 0, "at {}", t);
        }
        if t.year() > 1904 {
            assert!(day_order != got.day_ganzhi_order());
        }
        day_order = got.day_ganzhi_order();
        t = t + Duration::hours(24 * 37 + 5);
    }
}

#[test]
fn test_day_pillar_advances_by_one_a_day() {
    let terms = solar_terms();
    let mut t = ymd_hms(2018, 1, 1, 0, 0, 0);
    let mut want = 30;
    for _ in 0..130 {
        let got = Ganzhi::new(instant(t), &terms).unwrap();
        assert_eq!(got.day_ganzhi_order(), want);
        assert_eq!(Ganzhi::new(instant(t + Duration::seconds(86399)), &terms).unwrap().day_ganzhi_order(), want);
        want = if want == 60 { 1 } else { want + 1 };
        t = t + Duration::days(1);
    }
}

#[test]
fn test_hour_pillar() {
    let terms = solar_terms();
    let want = [1, 2, 2, 3, 3, 4, 4, 5, 5, 6, 6, 7, 7, 8, 8, 9, 9, 10, 10, 11, 11, 12, 12, 1];
    for hour in 0..24u32 {
        let got = Ganzhi::new(instant(ymd_hms(2018, 2, 5, hour, 59, 59)), &terms).unwrap();
        assert_eq!(got.hour_zhi.order(), want[hour as usize], "hour {}", hour);
    }
    // 2018-02-05 is a day of stem 5: its first hour is of stem 9.
    let got = Ganzhi::new(instant(ymd_hms(2018, 2, 5, 3, 0, 0)), &terms).unwrap();
    assert_eq!(got.hour_ganzhi_alias(), "甲寅");
}
