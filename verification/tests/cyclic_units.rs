use ikigai_core::date::chinese::animal::Animal;
use ikigai_core::date::chinese::gan::Gan;
use ikigai_core::date::chinese::utils::order_mod;
use ikigai_core::date::chinese::zhi::Zhi;
use ikigai_core::ikigai_error::{IkigaiError, IkigaiResult};

#[test]
fn test_new_animal() {
    assert!(Animal::new(1).is_some());
    assert!(Animal::new(12).is_some());
    assert!(Animal::new(13).is_none());
    assert!(Animal::new(0).is_none());
}

#[test]
fn test_animal_alias() {
    let animal_1 = Animal::new(1).unwrap();
    assert_eq!(animal_1.alias(), "鼠");

    let animal_12 = Animal::new(12).unwrap();
    assert_eq!(animal_12.alias(), "猪");

    let animal_13 = Animal::new(13);
    assert!(animal_13.is_none());
}

#[test]
fn test_animal_alias_all() {
    let want = ["鼠", "牛", "虎", "兔", "龙", "蛇", "马", "羊", "猴", "鸡", "狗", "猪"];
    for (i, alias) in want.iter().enumerate() {
        assert_eq!(Animal::new(i as i64 + 1).unwrap().alias(), *alias);
    }
}

#[test]
fn test_new_gan() {
    assert!(Gan::new(1).is_some());
    assert!(Gan::new(10).is_some());
    assert!(Gan::new(0).is_none());
    assert!(Gan::new(11).is_none());
}

#[test]
fn test_gan_alias() {
    let gan = Gan::new(1).unwrap();
    assert_eq!(gan.alias(), "甲");

    let gan = Gan::new(10).unwrap();
    assert_eq!(gan.alias(), "癸");
}

#[test]
fn test_gan_alias_all() {
    let want = ["甲", "乙", "丙", "丁", "戊", "己", "庚", "辛", "壬", "癸"];
    for (i, alias) in want.iter().enumerate() {
        assert_eq!(Gan::new(i as i64 + 1).unwrap().alias(), *alias);
    }
}

#[test]
fn test_gan_order() {
    let gan = Gan::new(1).unwrap();
    assert_eq!(gan.order(), 1);

    let gan = Gan::new(10).unwrap();
    assert_eq!(gan.order(), 10);
}

fn min_order() -> i64 {
    1
}

fn max_order() -> i64 {
    12
}

#[test]
fn test_new_zhi() {
    let tests = vec![
        ("nil_min", min_order() - 1, None),
        ("nil_max", max_order() + 1, None),
        ("test_min", min_order(), Some(min_order())),
        ("test_max", max_order(), Some(max_order())),
        ("test", 8, Some(8)),
    ];

    for (name, order, want) in tests {
        println!("Running test '{}'", name);
        let got = Zhi::new(order);
        assert_eq!(
            got.map(|zhi| zhi.order()),
            want,
            "Zhi::new({}) = {:?}, want {:?}",
            order,
            got,
            want
        );
        assert_eq!(got, want.and_then(Zhi::new));
    }
}

#[test]
fn test_zhi_alias() {
    let tests = vec![
        ("test_1", Zhi::new(min_order()).unwrap(), "子"),
        ("test_2", Zhi::new(max_order()).unwrap(), "亥"),
    ];

    for (name, zhi, want) in tests {
        println!("Running test '{}'", name);
        let got = zhi.alias();
        assert_eq!(got, want, "Zhi.alias() = {}, want {}", got, want);
    }
}

#[test]
fn test_zhi_alias_all() {
    let want = ["子", "丑", "寅", "卯", "辰", "巳", "午", "未", "申", "酉", "戌", "亥"];
    for (i, alias) in want.iter().enumerate() {
        assert_eq!(Zhi::new(i as i64 + 1).unwrap().alias(), *alias);
    }
}

#[test]
fn test_zhi_order() {
    let tests = vec![
        ("test_1", Zhi::new(min_order()).unwrap(), 1),
        ("test_2", Zhi::new(max_order()).unwrap(), 12),
    ];

    for (name, zhi, want) in tests {
        println!("Running test '{}'", name);
        let got = zhi.order();
        assert_eq!(got, want, "Zhi.order() = {}, want {}", got, want);
    }
}

#[test]
fn test_order_mod_values() {
    assert_eq!(order_mod(2015, 10), 5);
    assert_eq!(order_mod(2015, 12), 11);
    assert_eq!(order_mod(2016, 12), 12);
    assert_eq!(order_mod(60, 60), 60);
    assert_eq!(order_mod(0, 12), 12);
    assert_eq!(order_mod(1, 12), 1);
    assert_eq!(order_mod(13, 12), 1);
    assert_eq!(order_mod(7, 1), 1);
}

#[test]
fn test_order_mod_never_zero() {
    for b in 1..=61i64 {
        for a in 0..=500i64 {
            let got = order_mod(a, b);
            assert!(1 <= got && got <= b, "order_mod({}, {}) = {}", a, b, got);
            if a % b != 0 {
                assert_eq!(got, a % b);
            } else {
                assert_eq!(got, b);
            }
        }
    }
}

#[test]
fn test_order_mod_of_a_negative_number() {
    assert_eq!(order_mod(-1, 10), 9);
    assert_eq!(order_mod(-13, 12), 11);
    assert_eq!(order_mod(-24, 12), 12);
    assert_eq!(order_mod(-1, 1), 1);
    assert_eq!(order_mod(i64::MIN, 60), 52);
    assert_eq!(order_mod(i64::MAX, 60), 7);
    for b in 1..=61i64 {
        for a in -500..0i64 {
            let got = order_mod(a, b);
            assert!(1 <= got && got <= b, "order_mod({}, {}) = {}", a, b, got);
            assert_eq!((got - a) % b, 0);
            assert_eq!(got, order_mod(a + 8 * b, b));
        }
    }
}

#[test]
fn test_error_message() {
    assert_eq!(IkigaiError::InvalidDate.message(), "Invalid date");
    let failed: IkigaiResult<i64> = Err(IkigaiError::InvalidDate);
    assert_eq!(failed, Err(IkigaiError::InvalidDate));
}
