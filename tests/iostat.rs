use iostat::poll::advance;
use iostat::record::{parse_decimal_u64, parse_stat_record, split_fields, StatError};
use iostat::render::{classify, format_io_stats, format_value, AlertClass};
use iostat::sampler::{aggregate, is_ignored_device, sample_records, starts_with};
use iostat::units::{IOStats, SectorCount};

fn stats(read: u64, written: u64) -> IOStats {
    IOStats { read: SectorCount(read), written: SectorCount(written) }
}

fn record(read: u64, written: u64) -> Vec<u8> {
    format!("  100 0 {} 30 40 0 {} 70 0 90 110 0 0 0 0\n", read, written).into_bytes()
}

#[test]
fn delta_is_componentwise_difference() {
    let a = stats(1000, 20);
    let b = stats(1500, 20);
    let d = b.sub(&a);
    assert_eq!(d.read.0, 500);
    assert_eq!(d.written.0, 0);
    let max = stats(u64::MAX, u64::MAX);
    let zero = stats(0, 0);
    assert_eq!(max.sub(&zero), max);
    assert!(b.not_before(&a));
    assert!(!a.not_before(&b));
}

#[test]
fn mib_thresholds_in_bytes() {
    assert_eq!(SectorCount::from_mib(128).as_bytes(), 128 * (1u64 << 20));
    assert_eq!(SectorCount::from_mib(1024).as_bytes(), 1024 * (1u64 << 20));
    assert_eq!(SectorCount::from_mib(128).0, 262144);
    assert_eq!(SectorCount(3).as_bytes(), 1536);
}

#[test]
fn classification_boundaries() {
    let warn = SectorCount::from_mib(128).0;
    let crit = SectorCount::from_mib(1024).0;
    assert_eq!(classify(&stats(warn, 0)), AlertClass::Warning);
    assert_eq!(classify(&stats(warn - 1, 0)), AlertClass::Normal);
    assert_eq!(classify(&stats(0, crit)), AlertClass::Critical);
    assert_eq!(classify(&stats(0, crit - 1)), AlertClass::Warning);
    assert_eq!(classify(&stats(warn - 1, crit)), AlertClass::Critical);
    assert_eq!(classify(&stats(0, 0)), AlertClass::Normal);
    assert_eq!(classify(&stats(u64::MAX, 0)), AlertClass::Critical);
}

#[test]
fn device_filter() {
    assert!(is_ignored_device("dm-0"));
    assert!(is_ignored_device("loop3"));
    assert!(!is_ignored_device("sda"));
    assert!(!is_ignored_device("nvme0n1"));
    assert!(!is_ignored_device("dm"));
    assert!(!is_ignored_device("xloop"));
    assert!(!is_ignored_device(""));
    assert!(starts_with("loop", "loop"));
    assert!(!starts_with("lo", "loop"));
}

#[test]
fn one_mib_renders_one_thousand_thousandths() {
    assert_eq!(format_value(SectorCount(2048)), "     1.000 MiB/s");
    assert_eq!(format_value(SectorCount(0)), "     0.000 MiB/s");
    assert_eq!(format_value(SectorCount(256)), "     0.125 MiB/s");
    assert_eq!(format_value(SectorCount(1)), "     0.000 MiB/s");
    assert_eq!(format_value(SectorCount(25)), "     0.012 MiB/s");
}

#[test]
fn large_values_are_grouped() {
    assert_eq!(format_value(SectorCount(25283949)), "12,345.678 MiB/s");
    assert_eq!(format_value(SectorCount(2048 * 1234)), " 1,234.000 MiB/s");
    assert_eq!(format_value(SectorCount(2048 * 999)), "   999.000 MiB/s");
    assert_eq!(format_value(SectorCount(2048 * 1234567)), "1,234,567.000 MiB/s");
    assert_eq!(
        format_value(SectorCount(u64::MAX)),
        "9,007,199,254,740,991.999 MiB/s"
    );
}

#[test]
fn formatted_text_and_class() {
    let f = format_io_stats(stats(2048, SectorCount::from_mib(1024).0));
    assert_eq!(f.text, "     1.000 MiB/s read  1,024.000 MiB/s write");
    assert_eq!(f.class, AlertClass::Critical);
}

#[test]
fn aggregation_sums_devices() {
    let total = aggregate(&vec![stats(100, 7), stats(250, 8)]).unwrap();
    assert_eq!(total.read.0, 350);
    assert_eq!(total.written.0, 15);
    assert_eq!(aggregate(&vec![]), Ok(stats(0, 0)));
    assert_eq!(
        aggregate(&vec![stats(u64::MAX, 0), stats(1, 0)]),
        Err(StatError::TotalOverflow)
    );
    assert_eq!(
        aggregate(&vec![stats(u64::MAX - 1, 0), stats(1, 0)]),
        Ok(stats(u64::MAX, 0))
    );
}

#[test]
fn repeated_sample_is_quiet() {
    let records = vec![record(2000, 4000), record(10, 20)];
    let first = sample_records(&records).unwrap();
    let second = sample_records(&records).unwrap();
    assert_eq!(first, second);
    let (_, out) = advance(Some(first), second);
    let out = out.unwrap();
    assert_eq!(out.class, AlertClass::Normal);
    assert_eq!(out.text, "     0.000 MiB/s read      0.000 MiB/s write");
}

#[test]
fn end_to_end_two_samples() {
    let devices = ["sda", "dm-0"];
    let first_records: Vec<Vec<u8>> = devices
        .iter()
        .filter(|d| !is_ignored_device(d))
        .map(|_| record(2000, 4000))
        .collect();
    assert_eq!(first_records.len(), 1);
    let first = sample_records(&first_records).unwrap();
    assert_eq!(first, stats(2000, 4000));
    let (baseline, out) = advance(None, first);
    assert!(out.is_none());

    let second = sample_records(&vec![record(2256, 4000)]).unwrap();
    let (next, out) = advance(Some(baseline), second);
    assert_eq!(next, stats(2256, 4000));
    let out = out.unwrap();
    assert_eq!(out.class, AlertClass::Normal);
    assert_eq!(out.text, "     0.125 MiB/s read      0.000 MiB/s write");
}

#[test]
fn counter_reset_skips_one_tick() {
    let (next, out) = advance(Some(stats(5000, 5000)), stats(10, 6000));
    assert_eq!(next, stats(10, 6000));
    assert!(out.is_none());
}

#[test]
fn stat_record_fields() {
    assert_eq!(parse_stat_record(&record(2000, 4000)), Ok(stats(2000, 4000)));
    assert_eq!(parse_stat_record(b"1 2 3 4 5 6 7"), Ok(stats(3, 7)));
    assert_eq!(parse_stat_record(b"\t1\n2  +3\r4 5 6 7 8"), Ok(stats(3, 7)));
    assert_eq!(parse_stat_record(b""), Err(StatError::MissingField(2)));
    assert_eq!(parse_stat_record(b"1 2"), Err(StatError::MissingField(2)));
    assert_eq!(parse_stat_record(b"1 2 x 4 5 6 7"), Err(StatError::InvalidNumber(2)));
    assert_eq!(parse_stat_record(b"1 2 3 4 5 6"), Err(StatError::MissingField(6)));
    assert_eq!(parse_stat_record(b"1 2 3 4 5 6 -7"), Err(StatError::InvalidNumber(6)));
    assert_eq!(parse_stat_record(b"1 2 x 4"), Err(StatError::InvalidNumber(2)));
}

#[test]
fn sample_fails_on_any_bad_record() {
    let records = vec![record(1, 2), b"1 2".to_vec(), record(3, 4)];
    assert_eq!(sample_records(&records), Err(StatError::MissingField(2)));
    assert_eq!(sample_records(&vec![]), Ok(stats(0, 0)));
    let big = vec![record(u64::MAX, 0), record(1, 0)];
    assert_eq!(sample_records(&big), Err(StatError::TotalOverflow));
}

#[test]
fn decimal_parsing() {
    assert_eq!(parse_decimal_u64(b"0"), Some(0));
    assert_eq!(parse_decimal_u64(b"+42"), Some(42));
    assert_eq!(parse_decimal_u64(b"007"), Some(7));
    assert_eq!(parse_decimal_u64(b"18446744073709551615"), Some(u64::MAX));
    assert_eq!(parse_decimal_u64(b"18446744073709551616"), None);
    assert_eq!(parse_decimal_u64(b"99999999999999999999x"), None);
    assert_eq!(parse_decimal_u64(b""), None);
    assert_eq!(parse_decimal_u64(b"+"), None);
    assert_eq!(parse_decimal_u64(b"-1"), None);
    assert_eq!(parse_decimal_u64(b"1a"), None);
    for s in ["0", "+17", "12345678901234567890", "x", "", "1 "] {
        assert_eq!(parse_decimal_u64(s.as_bytes()), s.parse::<u64>().ok());
    }
}

#[test]
fn fields_split_on_whitespace() {
    assert_eq!(split_fields(b"  a bc\t\nd "), vec![b"a".to_vec(), b"bc".to_vec(), b"d".to_vec()]);
    assert!(split_fields(b" \n ").is_empty());
}
