use paycal::calculator::{PayInput, WorkSchedule};
use paycal::cli::{
    parse_args, parse_rates, resolve_args, usage, validate_positive_decimal, CliAction,
    OutputFormat, ParsedArgs,
};
use paycal::Decimal;

fn dec(mantissa: i64, scale: u32) -> Decimal {
    Decimal::new(mantissa, scale)
}

fn args(items: &[&str]) -> Vec<String> {
    items.iter().map(|s| s.to_string()).collect()
}

fn no_args() -> ParsedArgs {
    ParsedArgs {
        rate: None,
        hours_per_day: None,
        format: OutputFormat::Table,
        days_per_week: None,
        weeks_per_year: None,
        months_per_year: None,
        positional_rate: None,
        positional_hours_per_day: None,
        positional_days_per_week: None,
        positional_weeks_per_year: None,
        positional_months_per_year: None,
    }
}

#[test]
fn cli_parse_help_flag() {
    let action = parse_args(vec!["--help".to_string()]).unwrap();
    assert!(matches!(action, CliAction::Help));
}

#[test]
fn cli_parse_rejects_missing_args() {
    let err = parse_args(Vec::<String>::new()).unwrap_err();
    assert!(err
        .contains("either --rate <RATE[,RATE...]> or positional <RATE[,RATE...]> is required"));
}

#[test]
fn cli_parse_rejects_negative_rate() {
    let err = parse_args(vec![
        "--rate".to_string(),
        "-1".to_string(),
        "--hours".to_string(),
        "8".to_string(),
    ])
    .unwrap_err();
    assert_eq!(err, "rate must be non-negative");
}

#[test]
fn cli_parse_rejects_invalid_rate() {
    let err = parse_args(vec![
        "--rate".to_string(),
        "abc".to_string(),
        "--hours".to_string(),
        "8".to_string(),
    ])
    .unwrap_err();
    assert_eq!(err, "invalid rate 'abc' in comma-separated rate list");
}

#[test]
fn parse_rejects_invalid_rate_list() {
    let err = parse_args(vec![
        "--rate".to_string(),
        "20,,30".to_string(),
        "--hours".to_string(),
        "8".to_string(),
    ])
    .unwrap_err();
    assert_eq!(err, "rate must be a comma-separated list of numbers");
}

#[test]
fn cli_parse_rejects_invalid_hours() {
    let err = parse_args(vec![
        "--rate".to_string(),
        "20".to_string(),
        "--hours".to_string(),
        "abc".to_string(),
    ])
    .unwrap_err();
    assert!(err.contains("invalid value 'abc' for '--hours <HOURS_PER_DAY>'"));
}

#[test]
fn cli_parse_rejects_unrealistic_hours() {
    let err = parse_args(vec![
        "--rate".to_string(),
        "20".to_string(),
        "--hours".to_string(),
        "25".to_string(),
    ])
    .unwrap_err();
    assert_eq!(err, "hours_per_day must be between 0 and 24");
}

#[test]
fn parse_accepts_named_args_with_defaults() {
    let action = parse_args(vec![
        "--rate".to_string(),
        "20,25".to_string(),
        "--hours".to_string(),
        "8".to_string(),
    ])
    .unwrap();

    assert_eq!(
        action,
        CliAction::Calculate {
            inputs: vec![
                PayInput { rate: dec(200, 1), hours_per_day: 8 },
                PayInput { rate: dec(250, 1), hours_per_day: 8 },
            ],
            schedule: WorkSchedule::default(),
            format: OutputFormat::Table,
        }
    );
}

#[test]
fn parse_accepts_export_format() {
    let action = parse_args(vec![
        "--rate".to_string(),
        "20,25".to_string(),
        "--hours".to_string(),
        "8".to_string(),
        "--format".to_string(),
        "csv".to_string(),
    ])
    .unwrap();

    assert_eq!(
        action,
        CliAction::Calculate {
            inputs: vec![
                PayInput { rate: dec(200, 1), hours_per_day: 8 },
                PayInput { rate: dec(250, 1), hours_per_day: 8 },
            ],
            schedule: WorkSchedule::default(),
            format: OutputFormat::Csv,
        }
    );
}

#[test]
fn parse_accepts_custom_schedule_flags() {
    let action = parse_args(vec![
        "--rate".to_string(),
        "20,25".to_string(),
        "--hours".to_string(),
        "8".to_string(),
        "--days-per-week".to_string(),
        "4".to_string(),
        "--weeks-per-year".to_string(),
        "48".to_string(),
        "--months-per-year".to_string(),
        "12".to_string(),
    ])
    .unwrap();

    assert_eq!(
        action,
        CliAction::Calculate {
            inputs: vec![
                PayInput { rate: dec(200, 1), hours_per_day: 8 },
                PayInput { rate: dec(250, 1), hours_per_day: 8 },
            ],
            schedule: WorkSchedule {
                days_per_week: dec(40, 1),
                weeks_per_year: dec(480, 1),
                months_per_year: dec(120, 1),
            },
            format: OutputFormat::Table,
        }
    );
}

#[test]
fn parse_accepts_positional_args_for_backwards_compatibility() {
    let action = parse_args(vec![
        "20,25".to_string(),
        "8".to_string(),
        "4".to_string(),
        "48".to_string(),
        "12".to_string(),
    ])
    .unwrap();

    assert_eq!(
        action,
        CliAction::Calculate {
            inputs: vec![
                PayInput { rate: dec(200, 1), hours_per_day: 8 },
                PayInput { rate: dec(250, 1), hours_per_day: 8 },
            ],
            schedule: WorkSchedule {
                days_per_week: dec(40, 1),
                weeks_per_year: dec(480, 1),
                months_per_year: dec(120, 1),
            },
            format: OutputFormat::Table,
        }
    );
}

#[test]
fn parse_rejects_invalid_days_per_week() {
    let err = parse_args(vec![
        "--rate".to_string(),
        "20".to_string(),
        "--hours".to_string(),
        "8".to_string(),
        "--days-per-week".to_string(),
        "0".to_string(),
    ])
    .unwrap_err();
    assert_eq!(err, "days_per_week must be greater than 0");
}

#[test]
fn parse_rejects_invalid_weeks_per_year() {
    let err = parse_args(vec![
        "--rate".to_string(),
        "20".to_string(),
        "--hours".to_string(),
        "8".to_string(),
        "--weeks-per-year".to_string(),
        "0".to_string(),
    ])
    .unwrap_err();
    assert_eq!(err, "weeks_per_year must be greater than 0");
}

#[test]
fn parse_rejects_invalid_months_per_year() {
    let err = parse_args(vec![
        "--rate".to_string(),
        "20".to_string(),
        "--hours".to_string(),
        "8".to_string(),
        "--months-per-year".to_string(),
        "0".to_string(),
    ])
    .unwrap_err();
    assert_eq!(err, "months_per_year must be greater than 0");
}

#[test]
fn parse_accepts_decimal_rate() {
    let action = parse_args(vec![
        "--rate".to_string(),
        "22.75,30.50".to_string(),
        "--hours".to_string(),
        "7".to_string(),
        "--format".to_string(),
        "json".to_string(),
    ])
    .unwrap();

    assert_eq!(
        action,
        CliAction::Calculate {
            inputs: vec![
                PayInput { rate: dec(2275, 2), hours_per_day: 7 },
                PayInput { rate: dec(3050, 2), hours_per_day: 7 },
            ],
            schedule: WorkSchedule::default(),
            format: OutputFormat::Json,
        }
    );
}

#[test]
fn parse_rejects_missing_hours_with_named_args() {
    let err = parse_args(vec!["--rate".to_string(), "20,25".to_string()]).unwrap_err();
    assert!(err
        .contains("either --hours <HOURS_PER_DAY> or positional <HOURS_PER_DAY> is required"));
}

#[test]
fn short_help_flag_asks_for_help() {
    assert_eq!(parse_args(args(&["-h"])).unwrap(), CliAction::Help);
}

#[test]
fn unknown_format_is_refused_by_the_parser() {
    let err = parse_args(args(&["--rate", "20", "--hours", "8", "--format", "xml"])).unwrap_err();
    assert!(err.contains("invalid value 'xml' for '--format <FORMAT>'"));
    assert!(!err.ends_with('\n'));
}

#[test]
fn negative_schedule_value_is_refused() {
    let err = parse_args(args(&["--rate", "20", "--hours", "8", "--days-per-week", "-1"])).unwrap_err();
    assert_eq!(err, "days_per_week must be greater than 0");
}

#[test]
fn named_settings_win_over_positional_ones() {
    let action = parse_args(args(&["--rate", "30", "--hours", "6", "20", "8", "4", "48", "10"])).unwrap();
    assert_eq!(
        action,
        CliAction::Calculate {
            inputs: vec![PayInput { rate: dec(30, 0), hours_per_day: 6 }],
            schedule: WorkSchedule {
                days_per_week: dec(4, 0),
                weeks_per_year: dec(48, 0),
                months_per_year: dec(10, 0),
            },
            format: OutputFormat::Table,
        }
    );
}

#[test]
fn usage_is_the_long_help() {
    let text = usage();
    assert!(text.contains("CLI pay calculator"));
    assert!(text.contains("Usage: paycal [OPTIONS]"));
    assert!(text.contains("--rate <RATE>"));
    assert!(text.contains("--hours <HOURS_PER_DAY>"));
    assert!(text.contains("Examples:"));
}

#[test]
fn rates_are_trimmed_and_kept_in_order() {
    let rates = parse_rates(" 25 ,\t20 , 30").unwrap();
    assert_eq!(rates, vec![dec(25, 0), dec(20, 0), dec(30, 0)]);
}

#[test]
fn empty_rate_text_is_refused() {
    assert_eq!(parse_rates("").unwrap_err(), "rate must be a comma-separated list of numbers");
    assert_eq!(parse_rates(" , 2").unwrap_err(), "rate must be a comma-separated list of numbers");
}

#[test]
fn first_bad_rate_gives_the_error() {
    assert_eq!(
        parse_rates("x,-1").unwrap_err(),
        "invalid rate 'x' in comma-separated rate list"
    );
    assert_eq!(parse_rates("-1,x").unwrap_err(), "rate must be non-negative");
    assert_eq!(parse_rates(" 1 , y ").unwrap_err(), "invalid rate 'y' in comma-separated rate list");
}

#[test]
fn zero_rate_is_accepted() {
    assert_eq!(parse_rates("0").unwrap(), vec![dec(0, 0)]);
}

#[test]
fn validate_positive_decimal_names_the_setting() {
    assert_eq!(validate_positive_decimal(dec(1, 2), "days_per_week"), Ok(()));
    assert_eq!(
        validate_positive_decimal(dec(0, 0), "weeks_per_year"),
        Err("weeks_per_year must be greater than 0".to_string())
    );
    assert_eq!(
        validate_positive_decimal(dec(-5, 1), "months_per_year"),
        Err("months_per_year must be greater than 0".to_string())
    );
}

#[test]
fn resolve_uses_defaults_and_positional_values() {
    let mut p = no_args();
    p.positional_rate = Some("10".to_string());
    p.positional_hours_per_day = Some(24);
    p.format = OutputFormat::Json;
    let action = resolve_args(p).unwrap();
    assert_eq!(
        action,
        CliAction::Calculate {
            inputs: vec![PayInput { rate: dec(10, 0), hours_per_day: 24 }],
            schedule: WorkSchedule::default(),
            format: OutputFormat::Json,
        }
    );
}

#[test]
fn resolve_checks_in_order() {
    assert_eq!(
        resolve_args(no_args()).unwrap_err(),
        "either --rate <RATE[,RATE...]> or positional <RATE[,RATE...]> is required"
    );
    let mut p = no_args();
    p.rate = Some("abc".to_string());
    assert_eq!(resolve_args(p).unwrap_err(), "invalid rate 'abc' in comma-separated rate list");
    let mut p = no_args();
    p.rate = Some("5".to_string());
    assert_eq!(
        resolve_args(p).unwrap_err(),
        "either --hours <HOURS_PER_DAY> or positional <HOURS_PER_DAY> is required"
    );
    let mut p = no_args();
    p.rate = Some("5".to_string());
    p.hours_per_day = Some(25);
    p.days_per_week = Some(dec(0, 0));
    assert_eq!(resolve_args(p).unwrap_err(), "hours_per_day must be between 0 and 24");
    let mut p = no_args();
    p.rate = Some("5".to_string());
    p.hours_per_day = Some(8);
    p.weeks_per_year = Some(dec(0, 0));
    p.months_per_year = Some(dec(0, 0));
    assert_eq!(resolve_args(p).unwrap_err(), "weeks_per_year must be greater than 0");
}

#[test]
fn format_names() {
    assert_eq!(OutputFormat::from_name("table"), Some(OutputFormat::Table));
    assert_eq!(OutputFormat::from_name("csv"), Some(OutputFormat::Csv));
    assert_eq!(OutputFormat::from_name("json"), Some(OutputFormat::Json));
    assert_eq!(OutputFormat::from_name("Json"), None);
}

fn pay_of(items: &[&str]) -> paycal::PayBreakdown {
    match parse_args(args(items)).unwrap() {
        CliAction::Calculate { inputs, schedule, .. } => {
            assert_eq!(inputs.len(), 1);
            inputs[0].calculate_with_schedule(schedule)
        }
        CliAction::Help => panic!("expected calculate action"),
    }
}

#[test]
fn named_args_give_the_expected_pay() {
    let pay = pay_of(&["--rate", "20", "--hours", "8"]);
    assert_eq!(pay.hourly.round_dp(2), dec(2000, 2));
    assert_eq!(pay.weekly.round_dp(2), dec(80000, 2));
    assert_eq!(pay.monthly.round_dp(2), dec(346667, 2));
    assert_eq!(pay.yearly.round_dp(2), dec(4160000, 2));
}

#[test]
fn positional_args_give_the_expected_pay() {
    let pay = pay_of(&["20", "8", "4", "48", "12"]);
    assert_eq!(pay.weekly.round_dp(2), dec(64000, 2));
    assert_eq!(pay.monthly.round_dp(2), dec(256000, 2));
    assert_eq!(pay.yearly.round_dp(2), dec(3072000, 2));
}

#[test]
fn twenty_four_hours_are_accepted() {
    assert_eq!(
        parse_args(args(&["--rate", "20", "--hours", "24"])).unwrap(),
        CliAction::Calculate {
            inputs: vec![PayInput { rate: dec(20, 0), hours_per_day: 24 }],
            schedule: WorkSchedule::default(),
            format: OutputFormat::Table,
        }
    );
}
