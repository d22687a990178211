use polymarket_arbitrage_bot::decimal::{held_product, held_sum, Decimal, LIMIT, ONE};

const NANO: i128 = 1_000_000_000;


fn nanos(text: &str) -> Option<i128> {
    units(text).map(|v| v / NANO)
}

fn units(text: &str) -> Option<i128> {
    Decimal::parse(text).map(|d| d.units())
}

#[test]
fn decimal_reads_plain_numerals() {
    assert_eq!(nanos("0.48"), Some(480_000_000));
    assert_eq!(nanos(".48"), Some(480_000_000));
    assert_eq!(nanos("5."), Some(5_000_000_000));
    assert_eq!(nanos("10"), Some(10_000_000_000));
    assert_eq!(nanos("+1.5"), Some(1_500_000_000));
    assert_eq!(nanos("-0.25"), Some(-250_000_000));
    assert_eq!(nanos("007.10"), Some(7_100_000_000));
}

#[test]
fn decimal_reads_exponents() {
    assert_eq!(nanos("1e-3"), Some(1_000_000));
    assert_eq!(nanos("4.8E-1"), Some(480_000_000));
    assert_eq!(nanos("12e2"), Some(1_200_000_000_000));
    assert_eq!(nanos("1e+1"), Some(10_000_000_000));
    assert_eq!(nanos("0e999999999999999999999999999999999999"), Some(0));
    assert_eq!(nanos("5e999999999999999999999999999999999999"), Some(LIMIT / NANO));
    assert_eq!(nanos("5e-999999999999999999999999999999999999"), Some(0));
    assert_eq!(nanos("123.456e-2"), Some(1_234_560_000));
}

#[test]
fn decimal_agrees_with_binary_floats() {
    for text in ["0.01", "0.57", "0.99", "1", "42.125", "97500.5", "3e4", "-7.5", "0.000001"] {
        let exact = nanos(text).unwrap() as f64 / 1e9;
        let float: f64 = text.parse().unwrap();
        assert!((exact - float).abs() < 1e-9, "{}", text);
    }
}

#[test]
fn decimal_accepts_what_floats_accept() {
    let texts = [
        "", ".", "+", "-", "e5", "1e", "1e+", "1.2.3", "1,000", " 1", "1 ", "0x10", "abc", "--1",
        "1e5.5", "nano", "inf", "-Infinity", "INF", "infinit", "1", "1.", ".1", "1e1", "1E-1", "+.5e2",
    ];
    for text in texts {
        assert_eq!(Decimal::parse(text).is_some(), text.parse::<f64>().is_ok(), "{:?}", text);
    }
}

#[test]
fn decimal_holds_what_is_out_of_range() {
    assert_eq!(LIMIT, 50 * ONE * ONE);
    assert_eq!(units("inf"), Some(LIMIT));
    assert_eq!(units("-inf"), Some(-LIMIT));
    assert_eq!(units("infinity"), Some(LIMIT));
    assert_eq!(units("-1e30"), Some(-LIMIT));
    assert_eq!(units("50000000000000000000"), Some(LIMIT));
    assert_eq!(units("49999999999999999999.999999999999999999"), Some(LIMIT - 1));
    assert_eq!(units("50000000000000000000.000000000000000001"), Some(LIMIT));
    assert_eq!(Decimal::from_units(i128::MAX).units(), LIMIT);
    assert_eq!(Decimal::from_units(i128::MIN).units(), -LIMIT);
}

#[test]
fn large_amounts_are_exact() {
    assert_eq!(nanos("2000000000"), Some(2_000_000_000_000_000_000));
    assert_eq!(nanos("-12345678901234567890.5"), Some(-12_345_678_901_234_567_890_500_000_000));
    assert_eq!(nanos("4e19"), Some(40_000_000_000_000_000_000_000_000_000));
}

#[test]
fn what_is_no_number_is_no_amount() {
    for text in ["nan", "NaN", "-nan", "+NAN"] {
        assert_eq!(nanos(text), None);
    }
}

#[test]
fn sums_and_products_are_held() {
    assert_eq!(held_sum(2, -5), -3);
    assert_eq!(held_sum(LIMIT, 1), LIMIT);
    assert_eq!(held_sum(-LIMIT, -1), -LIMIT);
    assert_eq!(held_sum(i128::MAX, i128::MAX), LIMIT);
    assert_eq!(held_sum(i128::MIN, -1), -LIMIT);
    assert_eq!(held_product(3 * ONE, -7 * ONE), -21 * ONE);
    assert_eq!(held_product(ONE / 2, ONE / 4), ONE / 8);
    assert_eq!(held_product(1, 1), 0);
    assert_eq!(held_product(-1, 1), -1);
    assert_eq!(held_product(-1, -1), 0);
    assert_eq!(held_product(123_456_789 * ONE + 1, 2 * ONE + 3), 246_913_578 * ONE + 370_370_369);
    assert_eq!(held_product(LIMIT, ONE), LIMIT);
    assert_eq!(held_product(LIMIT, ONE + 1), LIMIT);
    assert_eq!(held_product(LIMIT, 1), 50 * ONE);
    assert_eq!(held_product(i128::MIN, i128::MIN), LIMIT);
    assert_eq!(held_product(i128::MIN, i128::MAX), -LIMIT);
    assert_eq!(held_product(i128::MIN, 0), 0);
}

#[test]
fn decimal_cuts_below_a_unit() {
    assert_eq!(units("0.0000000005"), Some(500_000_000));
    assert_eq!(units("0.1234567890123456789"), Some(123_456_789_012_345_678));
    assert_eq!(units("-0.0000000000000000019"), Some(-1));
    assert_eq!(units("1e-18"), Some(1));
    assert_eq!(units("9e-19"), Some(0));
}

#[test]
fn fixed4_writes_four_places() {
    let text = |t: &str| Decimal::parse(t).unwrap().to_fixed4();
    assert_eq!(text("0.48"), "0.4800");
    assert_eq!(text("12"), "12.0000");
    assert_eq!(text("0.12345"), "0.1235");
    assert_eq!(text("0.00015"), "0.0001");
    assert_eq!(text("0.00025"), "0.0003");
    assert_eq!(text("0.03125"), "0.0312");
    assert_eq!(text("0.99996"), "1.0000");
    assert_eq!(text("-3.5"), "-3.5000");
    assert_eq!(text("-0.00001"), "-0.0000");
    assert_eq!(text("0"), "0.0000");
}

#[test]
fn fixed4_writes_what_double_precision_prints() {
    let same = |t: &str| {
        let float: f64 = t.parse().unwrap();
        assert_eq!(Decimal::parse(t).unwrap().to_fixed4(), format!("{:.4}", float), "{}", t);
    };
    for hundred_thousandths in (0..100_000u32).step_by(5) {
        same(&format!("0.{:05}", hundred_thousandths));
    }
    for text in [
        "0.000000001", "0.000049999", "0.00005", "0.000050001", "1.00005", "97500.12345",
        "123456789.98765", "9007199254740993", "9007199254740992.5", "4503599627370496.25",
        "4503599627370497.5", "12345678901234567890.123", "49999999999999999999", "9e-18",
        "0.000050000000000000001", "0.00004999999999999999", "0.9999499999", "0.999950001", "274877906943.9999",
    ] {
        same(text);
        same(&format!("-{}", text));
    }
}

#[test]
fn fixed4_reads_back() {
    for ticks in [0i128, 1, 9, 10, 99, 4_500, 9_999, 10_000, 123_456, 975_000_000] {
        let d = Decimal::from_units(ticks * 100_000 * NANO);
        assert_eq!(Decimal::parse(&d.to_fixed4()), Some(d));
        let negative = Decimal::from_units(-ticks * 100_000 * NANO);
        assert_eq!(nanos(&negative.to_fixed4()), Some(-ticks * 100_000));
    }
}
