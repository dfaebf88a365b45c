use media_sync::{bucket_name, bucket_name_for_date};

#[test]
fn bucket_for_2023_11_05() {
    assert_eq!(bucket_name(1_699_142_400), Some("2023_11_05".to_string()));
    assert_eq!(bucket_name(1_699_142_400 + 86_399), Some("2023_11_05".to_string()));
    assert_eq!(bucket_name(1_699_142_400 + 86_400), Some("2023_11_06".to_string()));
}

#[test]
fn bucket_for_2024_03_07() {
    assert_eq!(bucket_name(1_709_816_700), Some("2024_03_07".to_string()));
}

#[test]
fn bucket_for_epoch() {
    assert_eq!(bucket_name(0), Some("1970_01_01".to_string()));
}

#[test]
fn bucket_out_of_range() {
    assert_eq!(bucket_name(u64::MAX), None);
    assert_eq!(bucket_name(i64::MAX as u64), None);
}

#[test]
fn bucket_text_of_dates() {
    assert_eq!(bucket_name_for_date(2023, 11, 5), "2023_11_05");
    assert_eq!(bucket_name_for_date(999, 1, 31), "0999_01_31");
    assert_eq!(bucket_name_for_date(12345, 12, 1), "+12345_12_01");
    assert_eq!(bucket_name_for_date(-44, 3, 15), "-0044_03_15");
    assert_eq!(bucket_name_for_date(0, 10, 10), "0000_10_10");
}

#[test]
fn bucket_at_end_of_year_9999() {
    assert_eq!(bucket_name(253_402_300_799), Some("9999_12_31".to_string()));
    assert_eq!(bucket_name(253_402_300_800), Some("+10000_01_01".to_string()));
}
