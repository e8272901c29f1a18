use pagezest::cli::{default_options, parse_args, parse_bounded};
use pagezest::report::request_overhead;

fn args(list: &[&str]) -> Vec<String> {
    list.iter().map(|s| s.to_string()).collect()
}

#[test]
fn parse_bounded_reads_decimal_numbers() {
    assert_eq!(parse_bounded("8080", 65535), Some(8080));
    assert_eq!(parse_bounded("+12", 65535), Some(12));
    assert_eq!(parse_bounded("0", 65535), Some(0));
    assert_eq!(parse_bounded("65535", 65535), Some(65535));
    assert_eq!(parse_bounded("007", 10), Some(7));
}

#[test]
fn parse_bounded_refuses_what_std_refuses() {
    assert_eq!(parse_bounded("", 65535), None);
    assert_eq!(parse_bounded("+", 65535), None);
    assert_eq!(parse_bounded("-1", 65535), None);
    assert_eq!(parse_bounded("65536", 65535), None);
    assert_eq!(parse_bounded("12a", 65535), None);
    assert_eq!(parse_bounded(" 1", 65535), None);
    assert_eq!(parse_bounded("99999999999999999999999", u64::MAX), None);
}

#[test]
fn parse_bounded_agrees_with_std() {
    for s in ["1", "+9", "65535", "65536", "", "+", "-0", "1_0", "42"] {
        assert_eq!(parse_bounded(s, 65535).map(|v| v as u16), s.parse::<u16>().ok());
    }
}

#[test]
fn default_options_listen_everywhere() {
    let o = default_options(4);
    assert_eq!(o.host, "0.0.0.0");
    assert_eq!(o.port, 8080);
    assert_eq!(o.num_workers, 4);
    assert_eq!(o.pool_size, 4);
    assert_eq!(o.cache_size, 1024);
    assert!(!o.debug);
}

#[test]
fn parse_args_sets_each_option() {
    let a = args(&[
        "pagezest", "--port", "9000", "-h", "127.0.0.1", "--debug", "-w", "3", "-c", "5", "-z",
        "77",
    ]);
    let o = parse_args(&a, default_options(2));
    assert_eq!(o.host, "127.0.0.1");
    assert_eq!(o.port, 9000);
    assert_eq!(o.num_workers, 3);
    assert_eq!(o.pool_size, 5);
    assert_eq!(o.cache_size, 77);
    assert!(o.debug);
}

#[test]
fn parse_args_skips_bad_values_and_unknown_arguments() {
    let a = args(&["pagezest", "-p", "x", "--verbose", "--num_workers", "70000", "--host"]);
    let o = parse_args(&a, default_options(2));
    assert_eq!(o.port, 8080);
    assert_eq!(o.num_workers, 70000);
    assert_eq!(o.host, "0.0.0.0");
    assert!(!o.debug);
}

#[test]
fn parse_args_ignores_the_program_name() {
    let a = args(&["--debug"]);
    let o = parse_args(&a, default_options(1));
    assert!(!o.debug);
}

#[test]
fn request_overhead_reports_growth_only() {
    assert_eq!(request_overhead(100, 150), (150, Some(50)));
    assert_eq!(request_overhead(150, 150), (150, None));
    assert_eq!(request_overhead(150, 120), (120, None));
}
