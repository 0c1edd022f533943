use taproot_vanity::render::format_number;
use taproot_vanity::render::format_record;
use taproot_vanity::render::to_decimal_string;
use taproot_vanity::worker::MatchResult;

#[test]
fn decimal_rendering() {
    assert_eq!(to_decimal_string(0), "0");
    assert_eq!(to_decimal_string(7), "7");
    assert_eq!(to_decimal_string(1234567890), "1234567890");
    assert_eq!(to_decimal_string(u64::MAX), "18446744073709551615");
}

#[test]
fn thousands_grouping() {
    assert_eq!(format_number(0), "0");
    assert_eq!(format_number(5), "5");
    assert_eq!(format_number(999), "999");
    assert_eq!(format_number(1000), "1,000");
    assert_eq!(format_number(32768), "32,768");
    assert_eq!(format_number(1234567), "1,234,567");
    assert_eq!(format_number(1073741824), "1,073,741,824");
    assert_eq!(format_number(u64::MAX), "18,446,744,073,709,551,615");
}

#[test]
fn record_text_has_stable_field_order() {
    let result = MatchResult {
        address: "bc1pkekexample".to_string(),
        exported_private_key: "KxExampleWif".to_string(),
        match_metric: 2,
        worker_id: 3,
    };
    let text = format_record(&result, 1, "2024-01-02 03:04:05 UTC");
    let expected = "MATCH #1 FOUND!\nTimestamp: 2024-01-02 03:04:05 UTC\nAddress: bc1pkekexample\nPrivate Key: KxExampleWif\nMatch Metric: 2\nFound by Worker: #3\n======================================================================\n\n";
    assert_eq!(text, expected);
}
