use paycal::calculator::{PayInput, WorkSchedule};
use paycal::Decimal;

fn dec(mantissa: i64, scale: u32) -> Decimal {
    Decimal::new(mantissa, scale)
}

#[test]
fn dummy_test() {
    assert_eq!(4, 2 + 2)
}

#[test]
fn calculator_calculate_round_case() {
    let data = PayInput { rate: dec(100, 1), hours_per_day: 8 };

    let res = data.calculate();

    assert_eq!(res.hourly, dec(100, 1));
    assert_eq!(res.weekly, dec(4000, 1));
    assert_eq!(res.monthly.round_dp(2), dec(173333, 2));
    assert_eq!(res.yearly, dec(208000, 1));
}

#[test]
fn calculator_calculate_complex_case() {
    let data = PayInput { rate: dec(395, 1), hours_per_day: 8 };

    let res = data.calculate();

    assert_eq!(res.hourly, dec(395, 1));
    assert_eq!(res.weekly, dec(15800, 1));
    assert_eq!(res.monthly.round_dp(2), dec(684667, 2));
    assert_eq!(res.yearly, dec(821600, 1));
}

#[test]
fn calculator_calculate_zero_rate_case() {
    let data = PayInput { rate: dec(0, 1), hours_per_day: 8 };

    let res = data.calculate();

    assert_eq!(res.hourly, dec(0, 1));
    assert_eq!(res.weekly, dec(0, 1));
    assert_eq!(res.monthly, dec(0, 1));
    assert_eq!(res.yearly, dec(0, 1));
}

#[test]
fn calculator_calculate_zero_hours_case() {
    let data = PayInput { rate: dec(100, 1), hours_per_day: 0 };

    let res = data.calculate();

    assert_eq!(res.hourly, dec(100, 1));
    assert_eq!(res.weekly, dec(0, 1));
    assert_eq!(res.monthly, dec(0, 1));
    assert_eq!(res.yearly, dec(0, 1));
}

#[test]
fn calculate_with_custom_schedule() {
    let data = PayInput { rate: dec(200, 1), hours_per_day: 8 };

    let res = data.calculate_with_schedule(WorkSchedule {
        days_per_week: dec(40, 1),
        weeks_per_year: dec(480, 1),
        months_per_year: dec(120, 1),
    });

    assert_eq!(res.hourly, dec(200, 1));
    assert_eq!(res.weekly, dec(6400, 1));
    assert_eq!(res.monthly, dec(25600, 1));
    assert_eq!(res.yearly, dec(307200, 1));
}

#[test]
fn calculate_decimal_rate_case() {
    let data = PayInput { rate: dec(2275, 2), hours_per_day: 7 };

    let res = data.calculate();

    assert_eq!(res.hourly, dec(2275, 2));
    assert_eq!(res.weekly, dec(79625, 2));
    assert_eq!(res.monthly.round_dp(2), dec(345042, 2));
    assert_eq!(res.yearly, dec(4140500, 2));
}

#[test]
fn calculate_large_input_case() {
    let data = PayInput { rate: dec(999999, 2), hours_per_day: 24 };

    let res = data.calculate();

    assert_eq!(res.hourly, dec(999999, 2));
    assert_eq!(res.weekly, dec(119999880, 2));
    assert_eq!(res.monthly.round_dp(2), dec(519999480, 2));
    assert_eq!(res.yearly, dec(6239993760, 2));
}

#[test]
fn default_schedule_is_five_days_fifty_two_weeks_twelve_months() {
    let s = WorkSchedule::default();
    assert_eq!(s.days_per_week, dec(5, 0));
    assert_eq!(s.weeks_per_year, dec(52, 0));
    assert_eq!(s.months_per_year, dec(12, 0));
}

#[test]
fn calculate_matches_default_schedule() {
    let data = PayInput { rate: dec(1234, 2), hours_per_day: 6 };
    assert_eq!(data.calculate(), data.calculate_with_schedule(WorkSchedule::default()));
}

#[test]
fn products_keep_their_exact_representation() {
    let data = PayInput { rate: dec(2275, 2), hours_per_day: 7 };
    let res = data.calculate();
    assert_eq!(res.weekly.mantissa(), 79625);
    assert_eq!(res.weekly.scale(), 2);
    assert_eq!(res.yearly.mantissa(), 4140500);
    assert_eq!(res.yearly.scale(), 2);
}

#[test]
fn zero_months_give_no_breakdown() {
    let data = PayInput { rate: dec(20, 0), hours_per_day: 8 };
    let schedule = WorkSchedule {
        days_per_week: dec(5, 0),
        weeks_per_year: dec(52, 0),
        months_per_year: dec(0, 0),
    };
    assert_eq!(data.checked_calculate_with_schedule(schedule), None);
}

#[test]
fn overflowing_pay_gives_no_breakdown() {
    let huge = Decimal::from_parts(79228162514264337593543950335, 0).unwrap();
    let data = PayInput { rate: huge, hours_per_day: 24 };
    assert_eq!(data.checked_calculate(), None);
}

#[test]
fn checked_calculate_agrees_with_calculate() {
    let data = PayInput { rate: dec(395, 1), hours_per_day: 8 };
    assert_eq!(data.checked_calculate(), Some(data.calculate()));
}

#[test]
fn pay_grows_with_rate_and_hours() {
    let schedule = WorkSchedule::default();
    let low = PayInput { rate: dec(1950, 2), hours_per_day: 7 }.calculate_with_schedule(schedule);
    let high = PayInput { rate: dec(20, 0), hours_per_day: 8 }.calculate_with_schedule(schedule);
    let le = |a: Decimal, b: Decimal| {
        let (am, asc, bm, bsc) = (a.mantissa(), a.scale(), b.mantissa(), b.scale());
        am * 10i128.pow(bsc) <= bm * 10i128.pow(asc)
    };
    assert!(le(low.hourly, high.hourly));
    assert!(le(low.weekly, high.weekly));
    assert!(le(low.monthly, high.monthly));
    assert!(le(low.yearly, high.yearly));
}

#[test]
fn weekly_and_yearly_ignore_months() {
    let data = PayInput { rate: dec(2275, 2), hours_per_day: 7 };
    let twelve = WorkSchedule { days_per_week: dec(5, 0), weeks_per_year: dec(52, 0), months_per_year: dec(12, 0) };
    let thirteen = WorkSchedule { months_per_year: dec(13, 0), ..twelve };
    let a = data.calculate_with_schedule(twelve);
    let b = data.calculate_with_schedule(thirteen);
    assert_eq!(a.hourly, b.hourly);
    assert_eq!(a.weekly, b.weekly);
    assert_eq!(a.yearly, b.yearly);
    assert_ne!(a.monthly, b.monthly);
}
