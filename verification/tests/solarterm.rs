use chrono::{DateTime, TimeZone, Utc};
use ikigai_core::date::chinese::solarterm::{SolartermTable, SOLARTERM_FROM_YEAR};
use ikigai_core::date::utc::{floor_mod, UtcInstant, MAX_TIMESTAMP, MIN_TIMESTAMP};

fn instant(t: DateTime<Utc>) -> UtcInstant {
    UtcInstant::new(t.timestamp(), t.timestamp_subsec_nanos()).unwrap()
}

fn at(secs: i64) -> UtcInstant {
    UtcInstant::new(secs, 0).unwrap()
}

#[test]
fn test_table_wants_rising_instants() {
    assert!(SolartermTable::new(vec![]).is_some());
    assert!(SolartermTable::new(vec![5]).is_some());
    assert!(SolartermTable::new(vec![-5, 0, 5]).is_some());
    assert!(SolartermTable::new(vec![0, 5, 5]).is_none());
    assert!(SolartermTable::new(vec![0, 5, 4]).is_none());
    assert!(SolartermTable::new(vec![MIN_TIMESTAMP, MAX_TIMESTAMP]).is_some());
    assert!(SolartermTable::new(vec![MIN_TIMESTAMP - 1, 0]).is_none());
    assert!(SolartermTable::new(vec![0, MAX_TIMESTAMP + 1]).is_none());
}

#[test]
fn test_table_years() {
    let table = SolartermTable::new((0..50).map(|i| i * 1_000_000).collect()).unwrap();
    assert_eq!(table.len(), 50);
    assert_eq!(table.from_year(), SOLARTERM_FROM_YEAR);
    assert_eq!(table.to_year(), 1906);
    assert_eq!(table.spring_timestamp(1903), None);
    assert_eq!(table.spring_timestamp(1904), Some(2_000_000));
    assert_eq!(table.spring_timestamp(1905), Some(26_000_000));
    assert_eq!(table.spring_timestamp(1906), None);
    assert_eq!(table.spring_timestamp(i64::MAX), None);
    assert_eq!(table.spring_timestamp(i64::MIN), None);
    let short = SolartermTable::new((0..51).map(|i| i * 1_000_000).collect()).unwrap();
    assert_eq!(short.to_year(), 1906);
    assert_eq!(short.spring_timestamp(1906), Some(50_000_000));
}

#[test]
fn test_term_and_its_neighbours() {
    let table = SolartermTable::new(vec![100, 200, 300]).unwrap();
    assert!(table.term(-1).is_none());
    assert!(table.term(3).is_none());
    let first = table.term(0).unwrap();
    let second = table.term(1).unwrap();
    let third = table.term(2).unwrap();
    assert_eq!((first.index(), first.timestamp()), (0, 100));
    assert_eq!((second.index(), second.timestamp()), (1, 200));
    assert_eq!(table.prev(&first), None);
    assert_eq!(table.next(&first), Some(second));
    assert_eq!(table.prev(&third), Some(second));
    assert_eq!(table.next(&third), None);
    let late = SolartermTable::new((0..30).map(|i| i * 10).collect()).unwrap().term(25).unwrap();
    assert_eq!(late.order(), 1);
    assert_eq!(table.next(&late), None);
    assert_eq!(table.prev(&late), None);
}

#[test]
fn test_calc_solarterm() {
    let table = SolartermTable::new(vec![100, 200, 300]).unwrap();
    let indices = |secs: i64| {
        let (prev, next) = table.calc_solarterm(&at(secs));
        (prev.map(|term| term.index()), next.map(|term| term.index()))
    };
    assert_eq!(indices(99), (None, Some(0)));
    assert_eq!(indices(100), (None, Some(1)));
    assert_eq!(indices(101), (Some(0), Some(1)));
    assert_eq!(indices(199), (Some(0), Some(1)));
    assert_eq!(indices(200), (Some(0), Some(2)));
    assert_eq!(indices(201), (Some(1), Some(2)));
    assert_eq!(indices(300), (Some(1), None));
    assert_eq!(indices(301), (Some(2), None));
    let empty = SolartermTable::new(vec![]).unwrap();
    assert_eq!(empty.calc_solarterm(&at(0)), (None, None));
}

#[test]
fn test_is_in_day() {
    let noon = Utc.with_ymd_and_hms(2018, 3, 21, 12, 0, 0).unwrap();
    let table = SolartermTable::new(vec![noon.timestamp()]).unwrap();
    let term = table.term(0).unwrap();
    assert!(term.is_in_day(&instant(noon)));
    assert!(term.is_in_day(&instant(Utc.with_ymd_and_hms(2018, 3, 21, 0, 0, 0).unwrap())));
    assert!(term.is_in_day(&instant(Utc.with_ymd_and_hms(2018, 3, 21, 23, 59, 59).unwrap())));
    assert!(!term.is_in_day(&instant(Utc.with_ymd_and_hms(2018, 3, 20, 23, 59, 59).unwrap())));
    assert!(!term.is_in_day(&instant(Utc.with_ymd_and_hms(2018, 3, 22, 0, 0, 0).unwrap())));
    let early = SolartermTable::new(vec![-1]).unwrap().term(0).unwrap();
    assert!(early.is_in_day(&at(-86400)));
    assert!(!early.is_in_day(&at(0)));
}

#[test]
fn test_utc_instant() {
    assert!(UtcInstant::new(MIN_TIMESTAMP, 0).is_some());
    assert!(UtcInstant::new(MAX_TIMESTAMP, 999_999_999).is_some());
    assert!(UtcInstant::new(MIN_TIMESTAMP - 1, 0).is_none());
    assert!(UtcInstant::new(MAX_TIMESTAMP + 1, 0).is_none());
    assert!(UtcInstant::new(0, 1_000_000_000).is_none());
    assert!(UtcInstant::new(59, 1_999_999_999).is_some());
    assert!(UtcInstant::new(-1, 1_000_000_000).is_some());
    assert!(UtcInstant::new(59, 2_000_000_000).is_none());
    let t = UtcInstant::new(-7, 12).unwrap();
    assert_eq!((t.timestamp(), t.nanosecond()), (-7, 12));
    assert_eq!(Utc.timestamp_opt(MIN_TIMESTAMP, 0).unwrap(), DateTime::<Utc>::MIN_UTC);
    assert_eq!(Utc.timestamp_opt(MAX_TIMESTAMP, 999_999_999).unwrap(), DateTime::<Utc>::MAX_UTC);
    assert!(DateTime::from_timestamp(MIN_TIMESTAMP - 1, 0).is_none());
    assert!(DateTime::from_timestamp(MAX_TIMESTAMP + 1, 0).is_none());
    assert!(DateTime::from_timestamp(59, 1_999_999_999).is_some());
    assert!(DateTime::from_timestamp(58, 1_000_000_000).is_none());
}

#[test]
fn test_floor_mod() {
    assert_eq!(floor_mod(7, 60), 7);
    assert_eq!(floor_mod(60, 60), 0);
    assert_eq!(floor_mod(-1, 60), 59);
    assert_eq!(floor_mod(-60, 60), 0);
    assert_eq!(floor_mod(-61, 60), 59);
    assert_eq!(floor_mod(i64::MIN, 86400), i64::MIN.rem_euclid(86400));
}
