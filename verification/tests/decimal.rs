use laya::decimal::Decimal;
use laya::text::NumberError;

fn text(d: Decimal) -> String {
    let mut out = Vec::new();
    d.write(&mut out);
    String::from_utf8(out).unwrap()
}

#[test]
fn reads_and_writes_a_fraction() {
    let d = Decimal::read(b"12.5").unwrap();
    assert_eq!(d.billionths(), 12_500_000_000);
    assert_eq!(text(d), "12.5");
}

#[test]
fn whole_numbers_have_no_point() {
    assert_eq!(Decimal::whole(0).billionths(), 0);
    assert_eq!(Decimal::whole(360).billionths(), 360_000_000_000);
    assert_eq!(text(Decimal::whole(0)), "0");
    assert_eq!(text(Decimal::whole(4294967295)), "4294967295");
    assert!(Decimal::whole(0).is_zero());
    assert!(!Decimal::whole(1).is_zero());
}

#[test]
fn trailing_zeros_are_not_written() {
    assert_eq!(text(Decimal::from_billionths(1_500_000_000)), "1.5");
    assert_eq!(text(Decimal::from_billionths(1)), "0.000000001");
    assert_eq!(text(Decimal::from_billionths(100_000_000)), "0.1");
    assert_eq!(text(Decimal::from_billionths(999_999_999)), "0.999999999");
    assert_eq!(text(Decimal::from_billionths(10_000_000_010)), "10.00000001");
}

#[test]
fn leading_and_trailing_zeros_are_read() {
    assert_eq!(Decimal::read(b"007.50"), Ok(Decimal::from_billionths(7_500_000_000)));
    assert_eq!(Decimal::read(b"0.000000001"), Ok(Decimal::from_billionths(1)));
    assert_eq!(Decimal::read(b"1.0"), Ok(Decimal::whole(1)));
}

#[test]
fn what_is_no_number_is_refused() {
    for bad in ["", ".", "1.", ".5", "1..5", "1.5.5", "-1", "+1", "1e3", "0x10", " 1", "1,5", "1.0000000000"] {
        assert_eq!(Decimal::read(bad.as_bytes()), Err(NumberError::Malformed), "text {:?}", bad);
    }
    assert_eq!(Decimal::read(b"4294967296"), Err(NumberError::TooLarge));
    assert_eq!(Decimal::read(b"4294967295.999999999").unwrap().billionths(), 4_294_967_295_999_999_999);
}

#[test]
fn every_written_number_is_read_back() {
    for units in [0u64, 1, 9, 10, 999_999_999, 1_000_000_000, 1_000_000_001, 12_345_678_912_345, 359_999_999_999] {
        let d = Decimal::from_billionths(units);
        assert_eq!(Decimal::read(text(d).as_bytes()), Ok(d));
    }
}
