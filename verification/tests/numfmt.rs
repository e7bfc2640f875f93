use gateway::numfmt::{latency_value, u64_to_decimal};

#[test]
fn decimal_rendering() {
    assert_eq!(u64_to_decimal(0), "0");
    assert_eq!(u64_to_decimal(7), "7");
    assert_eq!(u64_to_decimal(10), "10");
    assert_eq!(u64_to_decimal(12345), "12345");
    assert_eq!(u64_to_decimal(u64::MAX), "18446744073709551615");
}

#[test]
fn latency_has_two_decimals() {
    assert_eq!(latency_value(0), "0.00");
    assert_eq!(latency_value(5), "0.05");
    assert_eq!(latency_value(50), "0.50");
    assert_eq!(latency_value(100), "1.00");
    assert_eq!(latency_value(12340), "123.40");
    assert_eq!(latency_value(12345), "123.45");
}
