use paycal::calculator::{PayInput, WorkSchedule};
use paycal::cli::OutputFormat;
use paycal::report::{money, render};
use paycal::Decimal;

#[test]
fn money_has_two_fractional_digits() {
    assert_eq!(money(Decimal::new(20, 0)), "20.00");
    assert_eq!(money(Decimal::new(15, 1)), "1.50");
    assert_eq!(money(Decimal::new(34666666, 4)), "3466.67");
    assert_eq!(money(Decimal::new(-1234, 3)), "-1.23");
    assert_eq!(money(Decimal::new(-5, 3)), "0.00");
    assert_eq!(money(Decimal::new(125, 3)), "0.12");
    assert_eq!(money(Decimal::new(0, 0)), "0.00");
    assert_eq!(money(Decimal::new(123456789012, 2)), "1234567890.12");
}

fn rows() -> Vec<(PayInput, paycal::PayBreakdown)> {
    let input = PayInput { rate: Decimal::new(20, 0), hours_per_day: 8 };
    vec![(input, input.calculate_with_schedule(WorkSchedule::default()))]
}

#[test]
fn table_lists_each_period() {
    let text = render(&rows(), OutputFormat::Table);
    assert!(text.contains("| Hourly          |     20.00 |"));
    assert!(text.contains("| Weekly          |    800.00 |"));
    assert!(text.contains("| Monthly         |   3466.67 |"));
    assert!(text.contains("| Yearly          |  41600.00 |"));
    assert!(text.starts_with("+-----------------+-----------+\n"));
}

#[test]
fn csv_has_a_header_and_a_line_per_rate() {
    let text = render(&rows(), OutputFormat::Csv);
    assert_eq!(text, "rate,hourly,weekly,monthly,yearly\n20.00,20.00,800.00,3466.67,41600.00\n");
}

#[test]
fn json_lists_the_results() {
    let text = render(&rows(), OutputFormat::Json);
    assert_eq!(
        text,
        "{\n  \"results\": [\n    { \"rate\": \"20.00\", \"hourly\": \"20.00\", \"weekly\": \"800.00\", \"monthly\": \"3466.67\", \"yearly\": \"41600.00\" }\n  ]\n}\n"
    );
    let empty = render(&Vec::new(), OutputFormat::Json);
    assert_eq!(empty, "{\n  \"results\": [\n\n  ]\n}\n");
}
