use sheet_sync::decimal::{from_decimal, to_decimal};

#[test]
fn to_decimal_writes_without_leading_zeros() {
    assert_eq!(to_decimal(0), "0");
    assert_eq!(to_decimal(7), "7");
    assert_eq!(to_decimal(10), "10");
    assert_eq!(to_decimal(111), "111");
    assert_eq!(to_decimal(1_000_000), "1000000");
    assert_eq!(to_decimal(u64::MAX), "18446744073709551615");
}

#[test]
fn from_decimal_reads_what_to_decimal_writes() {
    for n in [0u64, 1, 9, 10, 99, 100, 111, 4096, 1 << 32, u64::MAX - 1, u64::MAX] {
        assert_eq!(from_decimal(&to_decimal(n)), Some(n));
    }
}

#[test]
fn from_decimal_takes_nothing_else() {
    for text in [
        "", " ", "007", "00", "01", "+7", "-7", "7 ", " 7", "7.0", "1e3", "0x10", "12a", "a12",
        "18446744073709551616", "99999999999999999999", "184467440737095516150", "٣",
    ] {
        assert_eq!(from_decimal(text), None, "{:?}", text);
    }
}
