use gui_app::size::{extract_speed, extract_total_size, parse_size_string};

#[test]
fn parse_size_mebibytes_keeps_the_fraction() {
    assert_eq!(parse_size_string("1.5MiB"), 1_572_864);
}

#[test]
fn parse_size_kibibytes() {
    assert_eq!(parse_size_string("500KiB"), 512_000);
}

#[test]
fn parse_size_gigabytes_and_plain_bytes() {
    assert_eq!(parse_size_string("2GB"), 2 * 1_073_741_824);
    assert_eq!(parse_size_string("  42B "), 42);
    assert_eq!(parse_size_string("77"), 77);
}

#[test]
fn parse_size_unknown_texts_are_zero() {
    assert_eq!(parse_size_string(""), 0);
    assert_eq!(parse_size_string("N/A"), 0);
    assert_eq!(parse_size_string("~"), 0);
    assert_eq!(parse_size_string("Unknown"), 0);
    assert_eq!(parse_size_string("abcMiB"), 0);
}

#[test]
fn parse_size_speed_suffix() {
    assert_eq!(parse_size_string("2.3MiB/s"), 2_411_724);
    assert_eq!(parse_size_string("800KiB/s"), 800 * 1024);
}

#[test]
fn parse_size_float_forms() {
    assert_eq!(parse_size_string("1e3"), 1000);
    assert_eq!(parse_size_string("1.25e2KiB"), 125 * 1024);
    assert_eq!(parse_size_string("-5MiB"), 0);
    assert_eq!(parse_size_string("inf"), u64::MAX);
    assert_eq!(parse_size_string("NaN"), 0);
    assert_eq!(parse_size_string(".5"), 0);
    assert_eq!(parse_size_string(".5KiB"), 512);
    assert_eq!(parse_size_string("7."), 7);
    assert_eq!(parse_size_string("+12"), 12);
    assert_eq!(parse_size_string("1e-3MiB"), 1048);
    assert_eq!(parse_size_string("1e-7GiB"), 107);
    assert_eq!(parse_size_string("1e-30GiB"), 0);
}

#[test]
fn parse_size_saturates_at_the_largest_count() {
    assert_eq!(parse_size_string("infGiB"), u64::MAX);
    assert_eq!(parse_size_string("1e30"), u64::MAX);
    assert_eq!(parse_size_string("17179869184GiB"), u64::MAX);
    assert_eq!(parse_size_string("18446744073709551615"), u64::MAX);
    assert_eq!(parse_size_string("3KiB"), 3072);
}

#[test]
fn extract_sizes_from_progress_line() {
    let line = "[download]  45.2% of ~12.34MiB at 1.23MiB/s ETA 00:05";
    assert_eq!(extract_total_size(line), 12_939_427);
    assert_eq!(extract_speed(line), 1_289_748);
}

#[test]
fn extract_sizes_absent() {
    assert_eq!(extract_total_size("[download] Destination: a.mp4"), 0);
    assert_eq!(extract_speed("no speed here"), 0);
}

#[test]
fn parse_size_reads_the_exact_decimal() {
    assert_eq!(parse_size_string("9007199254740993"), 9_007_199_254_740_993);
    assert_eq!(parse_size_string("0.99999999999999999"), 0);
    assert_eq!(parse_size_string("0.99999999999999999KiB"), 1023);
    assert_eq!(parse_size_string("3.9999999999999999MiB"), 4 * 1_048_576 - 1);
    assert_eq!(parse_size_string("123.456"), 123);
    assert_eq!(parse_size_string("0.0009765625KiB"), 1);
}

#[test]
fn plain_counts_read_as_themselves() {
    assert_eq!(parse_size_string("0"), 0);
    assert_eq!(parse_size_string("123456789"), 123_456_789);
    assert_eq!(parse_size_string("9007199254740991"), 9_007_199_254_740_991);
    assert_eq!(parse_size_string("9007199254740991/s"), 9_007_199_254_740_991);
}

#[test]
fn speed_reads_as_its_size() {
    assert_eq!(parse_size_string("  3KiB/s "), parse_size_string("3KiB"));
    assert_eq!(parse_size_string("1.5MiB/s/s"), 1_572_864);
    assert_eq!(parse_size_string("12/s"), 12);
}
