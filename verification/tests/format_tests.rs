use messier::size_format::format_items_count;
use messier::size_format::format_size;
use messier::size_format::u64_to_dec;
use messier::time_format::format_timestamp;
use messier::time_format::MAX_TIMESTAMP_SECS;

#[test]
fn size_zero() {
    assert_eq!(format_size(0), "0 Bytes");
}

#[test]
fn size_below_boundary() {
    assert_eq!(format_size(999), "999 Bytes");
    assert_eq!(format_size(1023), "1023 Bytes");
}

#[test]
fn size_kilobyte_boundary() {
    // The scaling rule divides exactly at the unit multiple.
    assert_eq!(format_size(1024), "1 kB");
}

#[test]
fn size_one_and_a_half() {
    assert_eq!(format_size(1536), "1.5 kB");
}

#[test]
fn size_gigabyte() {
    assert_eq!(format_size(1073741824), "1 GB");
}

#[test]
fn size_rounds_to_one_decimal() {
    // 1500000 / 1024^2 = 1.43..., shown with a single rounded decimal.
    assert_eq!(format_size(1500000), "1.4 MB");
}

#[test]
fn size_decimal_carries_into_whole() {
    // 1048575 / 1024 = 1023.999..., whose one-decimal rounding carries.
    assert_eq!(format_size(1048575), "1024.0 kB");
}

#[test]
fn size_large_units() {
    assert_eq!(format_size(1048576), "1 MB");
    assert_eq!(format_size(1099511627776), "1 TB");
    // The largest count is not an exact multiple, so it keeps its decimal.
    assert_eq!(format_size(u64::MAX), "16.0 EB");
}

#[test]
fn size_deterministic() {
    let a = format_size(123456789);
    let b = format_size(123456789);
    assert_eq!(a, b);
    assert_eq!(a, "117.7 MB");
}

#[test]
fn decimal_rendering() {
    assert_eq!(u64_to_dec(0), "0");
    assert_eq!(u64_to_dec(10), "10");
    assert_eq!(u64_to_dec(18446744073709551615), "18446744073709551615");
}

#[test]
fn items_count_rendering() {
    assert_eq!(format_items_count(0), "0 items");
    assert_eq!(format_items_count(1), "1 items");
    assert_eq!(format_items_count(2), "2 items");
}

#[test]
fn timestamp_epoch() {
    assert_eq!(format_timestamp(0), "01-01-1970 00:00");
}

#[test]
fn timestamp_known_instant() {
    // 2015-05-15 00:00:00 UTC.
    assert_eq!(format_timestamp(1431648000), "15-05-2015 00:00");
}

#[test]
fn timestamp_zero_padding() {
    // 2000-01-12 01:02:03 UTC.
    assert_eq!(format_timestamp(947638923), "12-01-2000 01:02");
}

#[test]
fn timestamp_clamped_past_calendar() {
    let last = format_timestamp(MAX_TIMESTAMP_SECS);
    assert_eq!(last, "31-12-9999 23:59");
    assert_eq!(format_timestamp(u64::MAX), last);
}
