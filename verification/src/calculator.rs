//! Pay over the common periods of a work schedule: hourly, weekly, monthly
//! and yearly.

use vstd::prelude::*;

use crate::decimal::{
    decimal_product, decimal_quotient, pow10, product_is_exact, quotient_is_exact, Decimal,
};

verus! {

/// Input values used to calculate pay across common time periods.
#[derive(Clone, Copy, Debug, PartialEq)]
pub struct PayInput {
    pub rate: Decimal,
    pub hours_per_day: u8,
}

/// Configurable schedule assumptions used in pay calculations.
#[derive(Clone, Copy, Debug, PartialEq)]
pub struct WorkSchedule {
    pub days_per_week: Decimal,
    pub weeks_per_year: Decimal,
    pub months_per_year: Decimal,
}

/// Calculated pay values across common time periods.
#[derive(Clone, Copy, Debug, PartialEq)]
pub struct PayBreakdown {
    pub hourly: Decimal,
    pub weekly: Decimal,
    pub monthly: Decimal,
    pub yearly: Decimal,
}

/// A schedule as (mantissa, scale) pairs.
pub struct ScheduleView {
    pub days_per_week: (int, nat),
    pub weeks_per_year: (int, nat),
    pub months_per_year: (int, nat),
}

/// A breakdown as (mantissa, scale) pairs.
pub struct BreakdownView {
    pub hourly: (int, nat),
    pub weekly: (int, nat),
    pub monthly: (int, nat),
    pub yearly: (int, nat),
}

impl View for WorkSchedule {
    type V = ScheduleView;

    open spec fn view(&self) -> ScheduleView {
        ScheduleView {
            days_per_week: self.days_per_week@,
            weeks_per_year: self.weeks_per_year@,
            months_per_year: self.months_per_year@,
        }
    }
}

impl View for PayBreakdown {
    type V = BreakdownView;

    open spec fn view(&self) -> BreakdownView {
        BreakdownView {
            hourly: self.hourly@,
            weekly: self.weekly@,
            monthly: self.monthly@,
            yearly: self.yearly@,
        }
    }
}

/// The view of an optional breakdown.
pub open spec fn opt_breakdown_view(b: Option<PayBreakdown>) -> Option<BreakdownView> {
    match b {
        Some(x) => Some(x@),
        None => None,
    }
}

/// The default schedule: 5 work days per week, 52 weeks per year and 12
/// months per year.
pub open spec fn default_schedule() -> ScheduleView {
    ScheduleView {
        days_per_week: (5int, 0nat),
        weeks_per_year: (52int, 0nat),
        months_per_year: (12int, 0nat),
    }
}

/// The pay for `rate` per hour and `hours` per day under `schedule`, each step
/// as `rust_decimal` computes it: hours per week = hours * days per week;
/// weekly = rate * hours per week; yearly = weekly * weeks per year; monthly =
/// yearly / months per year. `None` where a step overflows or divides by zero.
pub open spec fn pay_for(rate: (int, nat), hours: u8, schedule: ScheduleView) -> Option<BreakdownView> {
    match decimal_product((hours as int, 0nat), schedule.days_per_week) {
        None => None,
        Some(hours_per_week) => match decimal_product(rate, hours_per_week) {
            None => None,
            Some(weekly) => match decimal_product(weekly, schedule.weeks_per_year) {
                None => None,
                Some(yearly) => match decimal_quotient(yearly, schedule.months_per_year) {
                    None => None,
                    Some(monthly) => Some(BreakdownView { hourly: rate, weekly, monthly, yearly }),
                },
            },
        },
    }
}

/// The exact weekly pay: rate * hours * days per week, as a (mantissa, scale) pair.
pub open spec fn exact_weekly(rate: (int, nat), hours: u8, schedule: ScheduleView) -> (int, nat) {
    (rate.0 * (hours * schedule.days_per_week.0), rate.1 + schedule.days_per_week.1)
}

/// The exact yearly pay: exact weekly pay * weeks per year.
pub open spec fn exact_yearly(rate: (int, nat), hours: u8, schedule: ScheduleView) -> (int, nat) {
    let w = exact_weekly(rate, hours, schedule);
    (w.0 * schedule.weeks_per_year.0, w.1 + schedule.weeks_per_year.1)
}

/// None of the multiplications needs rounding.
pub open spec fn products_are_exact(rate: (int, nat), hours: u8, schedule: ScheduleView) -> bool {
    &&& product_is_exact((hours as int, 0nat), schedule.days_per_week)
    &&& product_is_exact(rate, (hours * schedule.days_per_week.0, schedule.days_per_week.1))
    &&& product_is_exact(exact_weekly(rate, hours, schedule), schedule.weeks_per_year)
}

/// What every computed breakdown satisfies, beside being `pay_for`'s result:
/// the hourly pay is the rate; a zero rate or zero hours give zero pay; no
/// breakdown exists for zero months; products that need no rounding are exact,
/// and so is a month's share that divides evenly.
pub open spec fn pay_laws(rate: (int, nat), hours: u8, schedule: ScheduleView, r: Option<BreakdownView>) -> bool {
    &&& r matches Some(b) ==> b.hourly == rate
    &&& schedule.months_per_year.0 == 0 ==> r is None
    &&& (rate.0 == 0 || hours == 0) ==> (r matches Some(b) ==> {
        &&& b.weekly == (0int, 0nat)
        &&& b.yearly == (0int, 0nat)
        &&& b.monthly == (0int, 0nat)
    })
    &&& products_are_exact(rate, hours, schedule) ==> (r matches Some(b) ==> {
        &&& b.weekly == exact_weekly(rate, hours, schedule)
        &&& b.yearly == exact_yearly(rate, hours, schedule)
    })
    &&& (products_are_exact(rate, hours, schedule) && quotient_is_exact(
        exact_yearly(rate, hours, schedule),
        schedule.months_per_year,
    )) ==> (r matches Some(b) && b.monthly == (
        exact_yearly(rate, hours, schedule).0 / schedule.months_per_year.0,
        (exact_yearly(rate, hours, schedule).1 - schedule.months_per_year.1) as nat,
    ))
}

impl Default for WorkSchedule {
    /// 5 work days per week, 52 weeks per year and 12 months per year.
    fn default() -> (s: Self)
        ensures
            s@ == default_schedule(),
    {
        WorkSchedule {
            days_per_week: Decimal::new(5, 0),
            weeks_per_year: Decimal::new(52, 0),
            months_per_year: Decimal::new(12, 0),
        }
    }
}

impl PayInput {
    /// Calculates hourly, weekly, monthly, and yearly pay using a caller-
    /// provided work schedule.
    pub fn calculate_with_schedule(self, schedule: WorkSchedule) -> (r: PayBreakdown)
        requires
            pay_for(self.rate@, self.hours_per_day, schedule@) is Some,
        ensures
            Some(r@) == pay_for(self.rate@, self.hours_per_day, schedule@),
            pay_laws(self.rate@, self.hours_per_day, schedule@, Some(r@)),
    {
        let hours = Decimal::from_u8(self.hours_per_day);
        let hours_per_week = hours.checked_mul(schedule.days_per_week).unwrap();
        let weekly = self.rate.checked_mul(hours_per_week).unwrap();
        let yearly = weekly.checked_mul(schedule.weeks_per_year).unwrap();
        let monthly = yearly.checked_div(schedule.months_per_year).unwrap();
        proof {
            let h = self.hours_per_day;
            let s = schedule@;
            if products_are_exact(self.rate@, h, s) {
                assert(hours_per_week@ == (h * s.days_per_week.0, s.days_per_week.1));
                assert(weekly@ == exact_weekly(self.rate@, h, s));
            }
        }
        PayBreakdown { hourly: self.rate, weekly, monthly, yearly }
    }

    /// Calculates hourly, weekly, monthly, and yearly pay using a caller-
    /// provided work schedule; `None` where a step overflows or the months
    /// per year are zero.
    pub fn checked_calculate_with_schedule(self, schedule: WorkSchedule) -> (r: Option<PayBreakdown>)
        ensures
            opt_breakdown_view(r) == pay_for(self.rate@, self.hours_per_day, schedule@),
            pay_laws(self.rate@, self.hours_per_day, schedule@, opt_breakdown_view(r)),
    {
        let hours = Decimal::from_u8(self.hours_per_day);
        let hours_per_week = match hours.checked_mul(schedule.days_per_week) {
            Some(x) => x,
            None => return None,
        };
        let weekly = match self.rate.checked_mul(hours_per_week) {
            Some(x) => x,
            None => return None,
        };
        let yearly = match weekly.checked_mul(schedule.weeks_per_year) {
            Some(x) => x,
            None => return None,
        };
        match yearly.checked_div(schedule.months_per_year) {
            Some(_) => Some(self.calculate_with_schedule(schedule)),
            None => None,
        }
    }

    /// Calculates hourly, weekly, monthly, and yearly pay using the default
    /// schedule assumptions of 5 work days per week, 52 weeks per year, and 12
    /// months per year.
    pub fn calculate(self) -> (r: PayBreakdown)
        requires
            pay_for(self.rate@, self.hours_per_day, default_schedule()) is Some,
        ensures
            Some(r@) == pay_for(self.rate@, self.hours_per_day, default_schedule()),
            pay_laws(self.rate@, self.hours_per_day, default_schedule(), Some(r@)),
    {
        self.calculate_with_schedule(WorkSchedule::default())
    }

    /// Calculates hourly, weekly, monthly, and yearly pay using the default
    /// schedule assumptions; `None` where a step overflows.
    pub fn checked_calculate(self) -> (r: Option<PayBreakdown>)
        ensures
            opt_breakdown_view(r) == pay_for(self.rate@, self.hours_per_day, default_schedule()),
            pay_laws(self.rate@, self.hours_per_day, default_schedule(), opt_breakdown_view(r)),
    {
        let schedule = WorkSchedule::default();
        match self.checked_calculate_with_schedule(schedule) {
            Some(_) => Some(self.calculate()),
            None => None,
        }
    }
}

/// The law that `calculate` is `calculate_with_schedule` with
/// `WorkSchedule::default()`, on every input, overflow included: for `a`
/// what `checked_calculate` gives, `schedule` what `WorkSchedule::default`
/// gives and `b` what `checked_calculate_with_schedule` gives with it, the two
/// breakdowns are the same (or both absent).
pub proof fn lemma_calculate_is_default_schedule(
    input: PayInput,
    schedule: WorkSchedule,
    a: Option<PayBreakdown>,
    b: Option<PayBreakdown>,
)
    requires
        opt_breakdown_view(a) == pay_for(input.rate@, input.hours_per_day, default_schedule()),
        schedule@ == default_schedule(),
        opt_breakdown_view(b) == pay_for(input.rate@, input.hours_per_day, schedule@),
    ensures
        opt_breakdown_view(a) == opt_breakdown_view(b),
{
}

/// Weekly and yearly pay do not depend on the months per year: under two
/// schedules with the same days per week, the hourly and weekly pay are the
/// same, and with the same weeks per year too, so is the yearly pay.
pub proof fn lemma_weekly_and_yearly_ignore_months(input: PayInput, s1: WorkSchedule, s2: WorkSchedule)
    requires
        s1.days_per_week@ == s2.days_per_week@,
    ensures
        pay_for(input.rate@, input.hours_per_day, s1@) matches Some(a) ==> (pay_for(
            input.rate@,
            input.hours_per_day,
            s2@,
        ) matches Some(b) ==> {
            &&& a.hourly == b.hourly
            &&& a.weekly == b.weekly
            &&& s1.weeks_per_year@ == s2.weeks_per_year@ ==> a.yearly == b.yearly
        }),
{
}

/// `a` is at most `b`, as numbers.
pub open spec fn value_le(a: (int, nat), b: (int, nat)) -> bool {
    a.0 * pow10(b.1) <= b.0 * pow10(a.1)
}

/// The exact product of two (mantissa, scale) pairs.
pub open spec fn exact_product(a: (int, nat), b: (int, nat)) -> (int, nat) {
    (a.0 * b.0, a.1 + b.1)
}

proof fn lemma_pow10_add(a: nat, b: nat)
    ensures
        pow10(a + b) == pow10(a) * pow10(b),
        pow10(a) > 0,
    decreases a,
{
    if a > 0 {
        lemma_pow10_add((a - 1) as nat, b);
        assert(pow10(a + b) == 10 * pow10((a - 1 + b) as nat));
        assert(10 * (pow10((a - 1) as nat) * pow10(b)) == (10 * pow10((a - 1) as nat)) * pow10(b))
            by (nonlinear_arith);
    }
}

proof fn lemma_mul_le(a: int, b: int, c: int, d: int)
    requires
        0 <= a <= b,
        0 <= c <= d,
    ensures
        a * c <= b * d,
{
    assert(a * c <= b * c) by (nonlinear_arith)
        requires
            0 <= a <= b,
            0 <= c,
    ;
    assert(b * c <= b * d) by (nonlinear_arith)
        requires
            0 <= b,
            c <= d,
    ;
}

/// Products of numbers at least zero grow with their factors.
proof fn lemma_product_le(x: (int, nat), y: (int, nat), u: (int, nat), v: (int, nat))
    requires
        x.0 >= 0,
        u.0 >= 0,
        value_le(x, y),
        value_le(u, v),
    ensures
        value_le(exact_product(x, u), exact_product(y, v)),
        exact_product(x, u).0 >= 0,
{
    lemma_pow10_add(y.1, v.1);
    lemma_pow10_add(x.1, u.1);
    lemma_pow10_add(x.1, 0);
    lemma_pow10_add(y.1, 0);
    lemma_pow10_add(u.1, 0);
    lemma_pow10_add(v.1, 0);
    let px = pow10(x.1);
    let py = pow10(y.1);
    let pu = pow10(u.1);
    let pv = pow10(v.1);
    assert(x.0 * py >= 0) by (nonlinear_arith)
        requires
            x.0 >= 0,
            py > 0,
    ;
    assert(u.0 * pv >= 0) by (nonlinear_arith)
        requires
            u.0 >= 0,
            pv > 0,
    ;
    lemma_mul_le(x.0 * py, y.0 * px, u.0 * pv, v.0 * pu);
    assert((x.0 * py) * (u.0 * pv) == (x.0 * u.0) * (py * pv)) by (nonlinear_arith);
    assert((y.0 * px) * (v.0 * pu) == (y.0 * v.0) * (px * pu)) by (nonlinear_arith);
    assert(x.0 * u.0 >= 0) by (nonlinear_arith)
        requires
            x.0 >= 0,
            u.0 >= 0,
    ;
}

/// A number at least zero is at least zero.
proof fn lemma_zero_le(x: (int, nat))
    requires
        x.0 >= 0,
    ensures
        value_le((0int, 0nat), x),
{
    lemma_pow10_add(x.1, 0);
    assert(x.0 * pow10(0) >= 0) by (nonlinear_arith)
        requires
            x.0 >= 0,
            pow10(0) == 1,
    ;
}

/// The calculation needs no rounding: a zero rate, zero hours, or products
/// that are all exact.
pub open spec fn calculation_is_exact(rate: (int, nat), hours: u8, schedule: ScheduleView) -> bool {
    rate.0 == 0 || hours == 0 || products_are_exact(rate, hours, schedule)
}

/// The month's share needs no rounding: a zero rate, zero hours, or a yearly
/// pay that the months per year divide exactly.
pub open spec fn share_is_exact(rate: (int, nat), hours: u8, schedule: ScheduleView) -> bool {
    rate.0 == 0 || hours == 0 || quotient_is_exact(exact_yearly(rate, hours, schedule), schedule.months_per_year)
}

/// Quotients by the same number at least one grow with their dividends.
proof fn lemma_quotient_le(y1: (int, nat), y2: (int, nat), m: (int, nat))
    requires
        y1.0 >= 0,
        m.0 > 0,
        value_le(y1, y2),
        quotient_is_exact(y1, m),
        quotient_is_exact(y2, m),
    ensures
        value_le((y1.0 / m.0, (y1.1 - m.1) as nat), (y2.0 / m.0, (y2.1 - m.1) as nat)),
{
    let q1 = y1.0 / m.0;
    let q2 = y2.0 / m.0;
    let e1 = (y1.1 - m.1) as nat;
    let e2 = (y2.1 - m.1) as nat;
    assert(y1.0 == q1 * m.0) by (nonlinear_arith)
        requires
            m.0 > 0,
            y1.0 % m.0 == 0,
            q1 == y1.0 / m.0,
    ;
    assert(y2.0 == q2 * m.0) by (nonlinear_arith)
        requires
            m.0 > 0,
            y2.0 % m.0 == 0,
            q2 == y2.0 / m.0,
    ;
    lemma_pow10_add(e1, m.1);
    lemma_pow10_add(e2, m.1);
    lemma_pow10_add(m.1, 0);
    assert(e1 + m.1 == y1.1);
    assert(e2 + m.1 == y2.1);
    let p1 = pow10(e1);
    let p2 = pow10(e2);
    let pm = pow10(m.1);
    // y1.0 * 10^y2.1 <= y2.0 * 10^y1.1, that is q1 * m * p2 * pm <= q2 * m * p1 * pm
    assert((q1 * p2) * (m.0 * pm) <= (q2 * p1) * (m.0 * pm)) by (nonlinear_arith)
        requires
            (q1 * m.0) * (p2 * pm) <= (q2 * m.0) * (p1 * pm),
    ;
    assert(m.0 * pm > 0) by (nonlinear_arith)
        requires
            m.0 > 0,
            pm > 0,
    ;
    assert(q1 * p2 <= q2 * p1) by (nonlinear_arith)
        requires
            (q1 * p2) * (m.0 * pm) <= (q2 * p1) * (m.0 * pm),
            m.0 * pm > 0,
    ;
}

/// Pay grows with the rate and the hours: for `a` and `b` the breakdowns that
/// `calculate_with_schedule` gives for `p1` and `p2` under the same schedule,
/// with `0 <= p1.rate <= p2.rate`, `p1.hours_per_day <= p2.hours_per_day` and
/// days and weeks above zero, each of `a`'s hourly, weekly and yearly pay is
/// at most `b`'s, and so is the monthly pay where the months divide both
/// yearly pays exactly. Stated where neither calculation needs rounding;
/// where `rust_decimal` rounds, its results are only named.
pub proof fn lemma_pay_grows_with_rate_and_hours(
    p1: PayInput,
    p2: PayInput,
    schedule: WorkSchedule,
    a: PayBreakdown,
    b: PayBreakdown,
)
    requires
        p1.rate@.0 >= 0,
        value_le(p1.rate@, p2.rate@),
        p1.hours_per_day <= p2.hours_per_day,
        schedule.days_per_week@.0 > 0,
        schedule.weeks_per_year@.0 > 0,
        calculation_is_exact(p1.rate@, p1.hours_per_day, schedule@),
        calculation_is_exact(p2.rate@, p2.hours_per_day, schedule@),
        Some(a@) == pay_for(p1.rate@, p1.hours_per_day, schedule@),
        pay_laws(p1.rate@, p1.hours_per_day, schedule@, Some(a@)),
        Some(b@) == pay_for(p2.rate@, p2.hours_per_day, schedule@),
        pay_laws(p2.rate@, p2.hours_per_day, schedule@, Some(b@)),
    ensures
        value_le(a.hourly@, b.hourly@),
        value_le(a.weekly@, b.weekly@),
        value_le(a.yearly@, b.yearly@),
        (schedule.months_per_year@.0 > 0 && share_is_exact(p1.rate@, p1.hours_per_day, schedule@)
            && share_is_exact(p2.rate@, p2.hours_per_day, schedule@)) ==> value_le(
            a.monthly@,
            b.monthly@,
        ),
{
    let s = schedule@;
    let r1 = p1.rate@;
    let r2 = p2.rate@;
    let h1 = p1.hours_per_day;
    let h2 = p2.hours_per_day;
    let days = s.days_per_week;
    let weeks = s.weeks_per_year;
    // the second rate is at least zero
    lemma_pow10_add(r1.1, 0);
    lemma_pow10_add(r2.1, 0);
    assert(r2.0 >= 0) by (nonlinear_arith)
        requires
            r1.0 >= 0,
            r1.0 * pow10(r2.1) <= r2.0 * pow10(r1.1),
            pow10(r2.1) > 0,
            pow10(r1.1) > 0,
    ;
    // hours times days, and its growth with the hours
    let hd1 = exact_product((h1 as int, 0nat), days);
    let hd2 = exact_product((h2 as int, 0nat), days);
    lemma_pow10_add(days.1, 0);
    assert(pow10(0) == 1);
    assert(value_le((h1 as int, 0nat), (h2 as int, 0nat)));
    assert(value_le(days, days));
    lemma_product_le((h1 as int, 0nat), (h2 as int, 0nat), days, days);
    lemma_product_le(r1, r2, hd1, hd2);
    let w1 = exact_product(r1, hd1);
    let w2 = exact_product(r2, hd2);
    assert(value_le(weeks, weeks));
    lemma_product_le(w1, w2, weeks, weeks);
    let y2 = exact_product(w2, weeks);
    // the exact values the calculations gave
    assert(hd1 == (h1 * days.0, days.1));
    assert(w1 == exact_weekly(r1, h1, s));
    assert(w2 == exact_weekly(r2, h2, s));
    assert(exact_product(w1, weeks) == exact_yearly(r1, h1, s));
    assert(y2 == exact_yearly(r2, h2, s));
    assert(a.hourly@ == r1);
    assert(b.hourly@ == r2);
    if r1.0 == 0 || h1 == 0 {
        assert(a.weekly@ == (0int, 0nat));
        assert(a.yearly@ == (0int, 0nat));
        if r2.0 == 0 || h2 == 0 {
            assert(b.weekly@ == (0int, 0nat));
            assert(b.yearly@ == (0int, 0nat));
        } else {
            assert(b.weekly@ == w2);
            assert(b.yearly@ == y2);
        }
        lemma_zero_le(b.weekly@);
        lemma_zero_le(b.yearly@);
    } else {
        if r2.0 == 0 {
            assert(r1.0 * pow10(r2.1) <= 0);
            assert(r1.0 * pow10(r2.1) > 0) by (nonlinear_arith)
                requires
                    r1.0 > 0,
                    pow10(r2.1) > 0,
            ;
        }
        assert(h2 != 0);
        assert(a.weekly@ == w1);
        assert(a.yearly@ == exact_product(w1, weeks));
        assert(b.weekly@ == w2);
        assert(b.yearly@ == y2);
    }
    let months = s.months_per_year;
    if months.0 > 0 && share_is_exact(r1, h1, s) && share_is_exact(r2, h2, s) {
        if r1.0 == 0 || h1 == 0 {
            assert(a.monthly@ == (0int, 0nat));
            if r2.0 == 0 || h2 == 0 {
                assert(b.monthly@ == (0int, 0nat));
            } else {
                assert(b.monthly@ == (y2.0 / months.0, (y2.1 - months.1) as nat));
                assert(y2.0 / months.0 >= 0) by (nonlinear_arith)
                    requires
                        y2.0 >= 0,
                        months.0 > 0,
                ;
            }
            lemma_zero_le(b.monthly@);
        } else {
            let y1 = exact_product(w1, weeks);
            lemma_quotient_le(y1, y2, months);
        }
    }
}

} // verus!
