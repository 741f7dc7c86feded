//! The command line: what the arguments select, and the checks on them.

use vstd::prelude::*;

use crate::calculator::{PayInput, ScheduleView, WorkSchedule};
use crate::decimal::{decimal_parse, is_repr, opt_view, Decimal};
use crate::command::{
    clap_long_help, clap_outcome, paycal_args, paycal_header, texts, ArgsOutcome,
    long_help, match_args, matched_decimal_parts, matched_number_value, matched_text,
    matched_text_value, matched_u8, matched_u8_value, matched_values, ArgsFailure, MatchedValue,
};
use crate::text::{
    lemma_split_commas_from_len, split_commas, split_commas_str, text_equals, trim, trim_str,
};

verus! {

/// How the results are to be written.
#[derive(Clone, Copy, Debug, PartialEq, Eq)]
pub enum OutputFormat {
    Table,
    Csv,
    Json,
}

/// What the command line asks for.
#[derive(Clone, Debug, PartialEq)]
pub enum CliAction {
    Help,
    Calculate { inputs: Vec<PayInput>, schedule: WorkSchedule, format: OutputFormat },
}

/// A `CliAction` as plain values: each input as (rate, hours per day).
pub enum ActionView {
    Help,
    Calculate { inputs: Seq<((int, nat), u8)>, schedule: ScheduleView, format: OutputFormat },
}

impl View for CliAction {
    type V = ActionView;

    open spec fn view(&self) -> ActionView {
        match self {
            CliAction::Help => ActionView::Help,
            CliAction::Calculate { inputs, schedule, format } => ActionView::Calculate {
                inputs: inputs@.map_values(|p: PayInput| (p.rate@, p.hours_per_day)),
                schedule: schedule@,
                format: *format,
            },
        }
    }
}

/// The values the argument parser found, named and positional, before any
/// check of this library.
pub struct ParsedArgs {
    pub rate: Option<String>,
    pub hours_per_day: Option<u8>,
    pub format: OutputFormat,
    pub days_per_week: Option<Decimal>,
    pub weeks_per_year: Option<Decimal>,
    pub months_per_year: Option<Decimal>,
    pub positional_rate: Option<String>,
    pub positional_hours_per_day: Option<u8>,
    pub positional_days_per_week: Option<Decimal>,
    pub positional_weeks_per_year: Option<Decimal>,
    pub positional_months_per_year: Option<Decimal>,
}

pub open spec fn rate_list_message() -> Seq<char> {
    "rate must be a comma-separated list of numbers"@
}

pub open spec fn negative_rate_message() -> Seq<char> {
    "rate must be non-negative"@
}

pub open spec fn invalid_rate_message(item: Seq<char>) -> Seq<char> {
    "invalid rate '"@ + item + "' in comma-separated rate list"@
}

pub open spec fn missing_rate_message() -> Seq<char> {
    "either --rate <RATE[,RATE...]> or positional <RATE[,RATE...]> is required"@
}

pub open spec fn missing_hours_message() -> Seq<char> {
    "either --hours <HOURS_PER_DAY> or positional <HOURS_PER_DAY> is required"@
}

pub open spec fn hours_range_message() -> Seq<char> {
    "hours_per_day must be between 0 and 24"@
}

pub open spec fn not_positive_message(name: Seq<char>) -> Seq<char> {
    name + " must be greater than 0"@
}

/// The items of a rate list: the pieces between commas, trimmed.
pub open spec fn rate_items(text: Seq<char>) -> Seq<Seq<char>> {
    split_commas(text).map_values(|p: Seq<char>| trim(p))
}

/// `rates` put before the list that `r` holds; an error stays as it is.
pub open spec fn prepend_rates(
    rates: Seq<(int, nat)>,
    r: Result<Seq<(int, nat)>, Seq<char>>,
) -> Result<Seq<(int, nat)>, Seq<char>> {
    match r {
        Ok(rest) => Ok(rates + rest),
        Err(e) => Err(e),
    }
}

/// Parses rate items in order, stopping at the first that is not a number or
/// is negative.
pub open spec fn parse_rate_items(items: Seq<Seq<char>>) -> Result<Seq<(int, nat)>, Seq<char>>
    decreases items.len(),
{
    if items.len() == 0 {
        Ok(seq![])
    } else {
        match decimal_parse(items[0]) {
            None => Err(invalid_rate_message(items[0])),
            Some(d) => if d.0 < 0 {
                Err(negative_rate_message())
            } else {
                prepend_rates(seq![d], parse_rate_items(items.drop_first()))
            },
        }
    }
}

/// The rates of a comma-separated list: an error if any item is empty once
/// trimmed, else the items parsed in order.
pub open spec fn rates_of(text: Seq<char>) -> Result<Seq<(int, nat)>, Seq<char>> {
    let items = rate_items(text);
    if exists|i: int| 0 <= i < items.len() && #[trigger] items[i].len() == 0 {
        Err(rate_list_message())
    } else {
        parse_rate_items(items)
    }
}

/// The first of two optional values that is given.
pub open spec fn first_given<T>(a: Option<T>, b: Option<T>) -> Option<T> {
    match a {
        Some(x) => Some(x),
        None => b,
    }
}

pub open spec fn opt_text(s: Option<String>) -> Option<Seq<char>> {
    match s {
        Some(t) => Some(t@),
        None => None,
    }
}

/// The given value, or `default` where none is given.
pub open spec fn given_or(v: Option<(int, nat)>, default: (int, nat)) -> (int, nat) {
    match v {
        Some(x) => x,
        None => default,
    }
}

/// What the parsed arguments ask for: the named value of each setting wins
/// over the positional one; a rate list and hours per day are required, the
/// hours at most 24; the schedule defaults to 5 days, 52 weeks and 12 months,
/// each of which must be above zero. The checks come in that order, and the
/// first that fails gives the error.
pub open spec fn resolve(p: ParsedArgs) -> Result<ActionView, Seq<char>> {
    match first_given(opt_text(p.rate), opt_text(p.positional_rate)) {
        None => Err(missing_rate_message()),
        Some(text) => match rates_of(text) {
            Err(e) => Err(e),
            Ok(rates) => match first_given(p.hours_per_day, p.positional_hours_per_day) {
                None => Err(missing_hours_message()),
                Some(h) => {
                    let days = given_or(
                        first_given(opt_view(p.days_per_week), opt_view(p.positional_days_per_week)),
                        (5int, 0nat),
                    );
                    let weeks = given_or(
                        first_given(opt_view(p.weeks_per_year), opt_view(p.positional_weeks_per_year)),
                        (52int, 0nat),
                    );
                    let months = given_or(
                        first_given(
                            opt_view(p.months_per_year),
                            opt_view(p.positional_months_per_year),
                        ),
                        (12int, 0nat),
                    );
                    if h > 24 {
                        Err(hours_range_message())
                    } else if days.0 <= 0 {
                        Err(not_positive_message("days_per_week"@))
                    } else if weeks.0 <= 0 {
                        Err(not_positive_message("weeks_per_year"@))
                    } else if months.0 <= 0 {
                        Err(not_positive_message("months_per_year"@))
                    } else {
                        Ok(
                            ActionView::Calculate {
                                inputs: rates.map_values(|r: (int, nat)| (r, h)),
                                schedule: ScheduleView {
                                    days_per_week: days,
                                    weeks_per_year: weeks,
                                    months_per_year: months,
                                },
                                format: p.format,
                            },
                        )
                    }
                },
            },
        },
    }
}

pub open spec fn rates_result_view(r: Result<Vec<Decimal>, String>) -> Result<Seq<(int, nat)>, Seq<char>> {
    match r {
        Ok(v) => Ok(v@.map_values(|d: Decimal| d@)),
        Err(e) => Err(e@),
    }
}

pub open spec fn action_result_view(r: Result<CliAction, String>) -> Result<ActionView, Seq<char>> {
    match r {
        Ok(a) => Ok(a@),
        Err(e) => Err(e@),
    }
}

proof fn lemma_parse_rate_items_step(items: Seq<Seq<char>>, i: int)
    requires
        0 <= i < items.len(),
    ensures
        parse_rate_items(items.skip(i)) == (match decimal_parse(items[i]) {
            None => Err(invalid_rate_message(items[i])),
            Some(d) => if d.0 < 0 {
                Err(negative_rate_message())
            } else {
                prepend_rates(seq![d], parse_rate_items(items.skip(i + 1)))
            },
        }),
{
    assert(items.skip(i)[0] == items[i]);
    assert(items.skip(i).drop_first() =~= items.skip(i + 1));
}

/// Parses a comma-separated list of non-negative decimal rates.
pub fn parse_rates(value: &str) -> (r: Result<Vec<Decimal>, String>)
    ensures
        rates_result_view(r) == rates_of(value@),
{
    let pieces = split_commas_str(value);
    let ghost pieces_view = split_commas(value@);
    let mut items: Vec<&str> = Vec::new();
    let mut i: usize = 0;
    while i < pieces.len()
        invariant
            i <= pieces.len(),
            pieces@.map_values(|p: &str| p@) == pieces_view,
            items@.len() == i,
            forall|j: int| 0 <= j < i ==> #[trigger] items@[j]@ == trim(pieces_view[j]),
        decreases pieces.len() - i,
    {
        assert(pieces@.map_values(|p: &str| p@)[i as int] == pieces@[i as int]@);
        items.push(trim_str(pieces[i]));
        i = i + 1;
    }
    let ghost items_view = rate_items(value@);
    assert(items@.map_values(|p: &str| p@) =~= items_view);
    let mut i: usize = 0;
    while i < items.len()
        invariant
            i <= items.len(),
            items@.map_values(|p: &str| p@) == items_view,
            items_view == rate_items(value@),
            forall|j: int| 0 <= j < i ==> #[trigger] items_view[j].len() != 0,
        decreases items.len() - i,
    {
        assert(items@.map_values(|p: &str| p@)[i as int] == items@[i as int]@);
        if items[i].unicode_len() == 0 {
            assert(items_view[i as int].len() == 0);
            return Err(String::from_str("rate must be a comma-separated list of numbers"));
        }
        i = i + 1;
    }
    let mut rates: Vec<Decimal> = Vec::new();
    let mut i: usize = 0;
    assert(items_view.skip(0) =~= items_view);
    while i < items.len()
        invariant
            i <= items.len(),
            items@.map_values(|p: &str| p@) == items_view,
            items_view == rate_items(value@),
            forall|j: int| 0 <= j < items_view.len() ==> #[trigger] items_view[j].len() != 0,
            parse_rate_items(items_view) == prepend_rates(
                rates@.map_values(|d: Decimal| d@),
                parse_rate_items(items_view.skip(i as int)),
            ),
        decreases items.len() - i,
    {
        let item = items[i];
        assert(items@.map_values(|p: &str| p@)[i as int] == item@);
        proof {
            lemma_parse_rate_items_step(items_view, i as int);
        }
        match Decimal::parse(item) {
            None => {
                let message = String::from_str("invalid rate '").concat(item).concat(
                    "' in comma-separated rate list",
                );
                return Err(message);
            },
            Some(d) => {
                if d.is_negative() {
                    return Err(String::from_str("rate must be non-negative"));
                }
                let ghost old_rates = rates@.map_values(|d: Decimal| d@);
                rates.push(d);
                assert(rates@.map_values(|d: Decimal| d@) =~= old_rates + seq![d@]);
                assert forall|rest: Seq<(int, nat)>| #[trigger] (old_rates + (seq![d@] + rest)) =~= (
                old_rates + seq![d@]) + rest by {}
            },
        }
        i = i + 1;
    }
    assert(items_view.skip(i as int) =~= Seq::<Seq<char>>::empty());
    assert(rates@.map_values(|d: Decimal| d@) + Seq::<(int, nat)>::empty() =~= rates@.map_values(
        |d: Decimal| d@,
    ));
    Ok(rates)
}

/// Checks that `value` is above zero; the error names the setting.
pub fn validate_positive_decimal(value: Decimal, name: &str) -> (r: Result<(), String>)
    ensures
        r is Ok <==> value@.0 > 0,
        r matches Err(e) ==> e@ == not_positive_message(name@),
{
    if !value.is_positive() {
        return Err(String::from_str(name).concat(" must be greater than 0"));
    }
    Ok(())
}

/// The given decimal, or the first given of `a` and `b`, or `default`.
fn given_decimal(a: Option<Decimal>, b: Option<Decimal>, default: Decimal) -> (d: Decimal)
    ensures
        d@ == given_or(first_given(opt_view(a), opt_view(b)), default@),
{
    match a {
        Some(x) => x,
        None => match b {
            Some(x) => x,
            None => default,
        },
    }
}

/// What the parsed arguments ask for, as `resolve` states it.
pub fn resolve_args(parsed: ParsedArgs) -> (r: Result<CliAction, String>)
    ensures
        action_result_view(r) == resolve(parsed),
        r is Ok ==> r matches Ok(CliAction::Calculate { .. }),
        r matches Ok(a) ==> valid_action(a@),
{
    proof {
        lemma_resolved_action_is_valid(parsed);
    }
    let ghost p = parsed;
    let rate_text = match parsed.rate {
        Some(t) => t,
        None => match parsed.positional_rate {
            Some(t) => t,
            None => {
                return Err(
                    String::from_str(
                        "either --rate <RATE[,RATE...]> or positional <RATE[,RATE...]> is required",
                    ),
                );
            },
        },
    };
    assert(first_given(opt_text(p.rate), opt_text(p.positional_rate)) == Some(rate_text@));
    let rates = match parse_rates(rate_text.as_str()) {
        Ok(v) => v,
        Err(e) => return Err(e),
    };
    let hours_per_day = match parsed.hours_per_day {
        Some(h) => h,
        None => match parsed.positional_hours_per_day {
            Some(h) => h,
            None => {
                return Err(
                    String::from_str(
                        "either --hours <HOURS_PER_DAY> or positional <HOURS_PER_DAY> is required",
                    ),
                );
            },
        },
    };
    if hours_per_day > 24 {
        return Err(String::from_str("hours_per_day must be between 0 and 24"));
    }
    let days_per_week = given_decimal(
        parsed.days_per_week,
        parsed.positional_days_per_week,
        Decimal::from_u8(5),
    );
    match validate_positive_decimal(days_per_week, "days_per_week") {
        Ok(()) => {},
        Err(e) => return Err(e),
    }
    let weeks_per_year = given_decimal(
        parsed.weeks_per_year,
        parsed.positional_weeks_per_year,
        Decimal::from_u8(52),
    );
    match validate_positive_decimal(weeks_per_year, "weeks_per_year") {
        Ok(()) => {},
        Err(e) => return Err(e),
    }
    let months_per_year = given_decimal(
        parsed.months_per_year,
        parsed.positional_months_per_year,
        Decimal::from_u8(12),
    );
    match validate_positive_decimal(months_per_year, "months_per_year") {
        Ok(()) => {},
        Err(e) => return Err(e),
    }
    let mut inputs: Vec<PayInput> = Vec::new();
    let mut i: usize = 0;
    while i < rates.len()
        invariant
            i <= rates.len(),
            inputs@.len() == i,
            forall|j: int|
                0 <= j < i ==> #[trigger] inputs@[j] == (PayInput {
                    rate: rates@[j],
                    hours_per_day,
                }),
        decreases rates.len() - i,
    {
        inputs.push(PayInput { rate: rates[i], hours_per_day });
        i = i + 1;
    }
    let action = CliAction::Calculate {
        inputs,
        schedule: WorkSchedule { days_per_week, weeks_per_year, months_per_year },
        format: parsed.format,
    };
    assert(inputs@.map_values(|q: PayInput| (q.rate@, q.hours_per_day)) =~= rates@.map_values(
        |d: Decimal| d@,
    ).map_values(|r: (int, nat)| (r, hours_per_day)));
    Ok(action)
}

/// What every calculation the command line can ask for satisfies: at least
/// one rate, no rate below zero, the same hours per day for every rate, at
/// most 24 of them, and days, weeks and months above zero.
pub open spec fn valid_action(a: ActionView) -> bool {
    match a {
        ActionView::Help => true,
        ActionView::Calculate { inputs, schedule, format } => {
            &&& inputs.len() >= 1
            &&& forall|i: int| 0 <= i < inputs.len() ==> (#[trigger] inputs[i]).0.0 >= 0
            &&& forall|i: int|
                0 <= i < inputs.len() ==> (#[trigger] inputs[i]).1 == inputs[0].1
            &&& inputs[0].1 <= 24
            &&& schedule.days_per_week.0 > 0
            &&& schedule.weeks_per_year.0 > 0
            &&& schedule.months_per_year.0 > 0
        },
    }
}

proof fn lemma_parse_rate_items_ok(items: Seq<Seq<char>>)
    ensures
        parse_rate_items(items) matches Ok(v) ==> {
            &&& v.len() == items.len()
            &&& forall|i: int| 0 <= i < v.len() ==> (#[trigger] v[i]).0 >= 0
        },
    decreases items.len(),
{
    if items.len() > 0 {
        lemma_parse_rate_items_ok(items.drop_first());
        if let Ok(v) = parse_rate_items(items) {
            let d = decimal_parse(items[0]).unwrap();
            let rest = parse_rate_items(items.drop_first())->Ok_0;
            assert(v == seq![d] + rest);
            assert forall|i: int| 0 <= i < v.len() implies (#[trigger] v[i]).0 >= 0 by {
                if i > 0 {
                    assert(v[i] == rest[i - 1]);
                }
            }
        }
    }
}

/// Whatever the arguments, a calculation they resolve to is valid.
pub proof fn lemma_resolved_action_is_valid(p: ParsedArgs)
    ensures
        resolve(p) matches Ok(a) ==> valid_action(a),
{
    if let Some(text) = first_given(opt_text(p.rate), opt_text(p.positional_rate)) {
        lemma_split_commas_from_len(text, seq![]);
        lemma_parse_rate_items_ok(rate_items(text));
    }
}

/// The output format a name selects.
pub open spec fn format_named(name: Seq<char>) -> Option<OutputFormat> {
    if name == "table"@ {
        Some(OutputFormat::Table)
    } else if name == "csv"@ {
        Some(OutputFormat::Csv)
    } else if name == "json"@ {
        Some(OutputFormat::Json)
    } else {
        None
    }
}

impl OutputFormat {
    /// The output format `name` selects, `None` for an unknown name.
    pub fn from_name(name: &str) -> (r: Option<OutputFormat>)
        ensures
            r == format_named(name@),
    {
        if text_equals(name, "table") {
            Some(OutputFormat::Table)
        } else if text_equals(name, "csv") {
            Some(OutputFormat::Csv)
        } else if text_equals(name, "json") {
            Some(OutputFormat::Json)
        } else {
            None
        }
    }
}

/// The decimal matched for `id`, where it is one a `Decimal` can hold.
pub open spec fn matched_decimal_value(vals: Map<Seq<char>, MatchedValue>, id: Seq<char>) -> Option<
    (int, nat),
> {
    match matched_number_value(vals, id) {
        Some(v) => if is_repr(v) {
            Some(v)
        } else {
            None
        },
        None => None,
    }
}

/// The output format matched values select: the one the name matched for
/// `format` names, else `Table`.
pub open spec fn matched_format(vals: Map<Seq<char>, MatchedValue>) -> OutputFormat {
    match matched_text_value(vals, "format"@) {
        Some(name) => match format_named(name) {
            Some(f) => f,
            None => OutputFormat::Table,
        },
        None => OutputFormat::Table,
    }
}

/// `p` holds what `vals` matched for each of the command line's arguments.
pub open spec fn parsed_from(p: ParsedArgs, vals: Map<Seq<char>, MatchedValue>) -> bool {
    &&& opt_text(p.rate) == matched_text_value(vals, "rate"@)
    &&& p.hours_per_day == matched_u8_value(vals, "hours_per_day"@)
    &&& p.format == matched_format(vals)
    &&& opt_view(p.days_per_week) == matched_decimal_value(vals, "days_per_week"@)
    &&& opt_view(p.weeks_per_year) == matched_decimal_value(vals, "weeks_per_year"@)
    &&& opt_view(p.months_per_year) == matched_decimal_value(vals, "months_per_year"@)
    &&& opt_text(p.positional_rate) == matched_text_value(vals, "positional_rate"@)
    &&& p.positional_hours_per_day == matched_u8_value(vals, "positional_hours_per_day"@)
    &&& opt_view(p.positional_days_per_week) == matched_decimal_value(
        vals,
        "positional_days_per_week"@,
    )
    &&& opt_view(p.positional_weeks_per_year) == matched_decimal_value(
        vals,
        "positional_weeks_per_year"@,
    )
    &&& opt_view(p.positional_months_per_year) == matched_decimal_value(
        vals,
        "positional_months_per_year"@,
    )
}

/// The decimal a matched value holds, if it holds one.
fn matched_decimal(m: &clap::ArgMatches, id: &str) -> (r: Option<Decimal>)
    ensures
        opt_view(r) == matched_decimal_value(matched_values(*m), id@),
{
    match matched_decimal_parts(m, id) {
        Some((mantissa, scale)) => Decimal::from_parts(mantissa, scale),
        None => None,
    }
}

/// The values the argument parser matched. The parser only admits the names
/// of the formats and defaults to `table`, which is also taken where no name
/// is found.
fn parsed_args_of(m: &clap::ArgMatches) -> (r: ParsedArgs)
    ensures
        parsed_from(r, matched_values(*m)),
{
    let format = match matched_text(m, "format") {
        Some(name) => match OutputFormat::from_name(name.as_str()) {
            Some(f) => f,
            None => OutputFormat::Table,
        },
        None => OutputFormat::Table,
    };
    ParsedArgs {
        rate: matched_text(m, "rate"),
        hours_per_day: matched_u8(m, "hours_per_day"),
        format,
        days_per_week: matched_decimal(m, "days_per_week"),
        weeks_per_year: matched_decimal(m, "weeks_per_year"),
        months_per_year: matched_decimal(m, "months_per_year"),
        positional_rate: matched_text(m, "positional_rate"),
        positional_hours_per_day: matched_u8(m, "positional_hours_per_day"),
        positional_days_per_week: matched_decimal(m, "positional_days_per_week"),
        positional_weeks_per_year: matched_decimal(m, "positional_weeks_per_year"),
        positional_months_per_year: matched_decimal(m, "positional_months_per_year"),
    }
}

/// The long help of the command line, as `clap` renders it for `paycal`'s
/// definition.
pub fn usage() -> (r: String)
    ensures
        r@ == clap_long_help(paycal_args(), paycal_header()),
{
    long_help()
}

/// What `parse_args` answers when the argument parser gives `outcome`: the
/// help for a help request; the parser's message, trimmed, for any other
/// failure; else what the matched values resolve to.
pub open spec fn answers(outcome: ArgsOutcome, r: Result<CliAction, String>) -> bool {
    match outcome {
        ArgsOutcome::Help => r matches Ok(CliAction::Help),
        ArgsOutcome::Message(t) => r matches Err(e) && e@ == trim(t),
        ArgsOutcome::Matched(vals) => exists|p: ParsedArgs|
            #![trigger resolve(p)]
            parsed_from(p, vals) && action_result_view(r) == resolve(p),
    }
}

/// The argument list the parser is run on: the program's name, then `args`.
pub open spec fn command_line(args: Seq<String>) -> Seq<Seq<char>> {
    seq!["paycal"@] + texts(args)
}

/// Parses the command line's arguments (without the program's name): the
/// help where it is asked for; the argument parser's message, trimmed, where
/// it refuses the arguments; else what `resolve_args` makes of the values it
/// found.
pub fn parse_args(args: Vec<String>) -> (r: Result<CliAction, String>)
    ensures
        answers(clap_outcome(paycal_args(), paycal_header(), command_line(args@)), r),
        r matches Ok(a) ==> valid_action(a@),
{
    let ghost given = args@;
    let mut argv = args;
    argv.insert(0, String::from_str("paycal"));
    assert(texts(argv@) =~= command_line(given));
    match match_args(argv) {
        Err(ArgsFailure::Help) => Ok(CliAction::Help),
        Err(ArgsFailure::Message(message)) => Err(String::from_str(trim_str(message.as_str()))),
        Ok(m) => {
            let parsed = parsed_args_of(&m);
            let ghost p = parsed;
            let r = resolve_args(parsed);
            proof {
                lemma_resolved_action_is_valid(p);
                assert(parsed_from(p, matched_values(m)));
            }
            r
        },
    }
}

/// The parser matched the number `d` (mantissa, scale) for `id`.
pub open spec fn number_matched(vals: Map<Seq<char>, MatchedValue>, id: Seq<char>, d: (int, nat)) -> bool {
    vals.contains_key(id) && vals[id] == MatchedValue::Number(d.0, d.1)
}

/// `o` holds exactly the number matched for `id`: the same mantissa and scale
/// where a `Decimal` can hold it, and nothing where no number was matched.
pub open spec fn holds_matched_number(
    o: Option<Decimal>,
    vals: Map<Seq<char>, MatchedValue>,
    id: Seq<char>,
) -> bool {
    &&& forall|d: (int, nat)| is_repr(d) && #[trigger] number_matched(vals, id, d) ==> opt_view(o) == Some(d)
    &&& opt_view(o) matches Some(d) ==> number_matched(vals, id, d)
}

/// Each decimal setting of the parsed arguments (days, weeks and months,
/// named and positional) is the number the parser matched for it, with its
/// mantissa and its scale unchanged.
pub proof fn lemma_parsed_decimals_are_matched(p: ParsedArgs, vals: Map<Seq<char>, MatchedValue>)
    requires
        parsed_from(p, vals),
    ensures
        holds_matched_number(p.days_per_week, vals, "days_per_week"@),
        holds_matched_number(p.weeks_per_year, vals, "weeks_per_year"@),
        holds_matched_number(p.months_per_year, vals, "months_per_year"@),
        holds_matched_number(p.positional_days_per_week, vals, "positional_days_per_week"@),
        holds_matched_number(p.positional_weeks_per_year, vals, "positional_weeks_per_year"@),
        holds_matched_number(p.positional_months_per_year, vals, "positional_months_per_year"@),
{
}

/// The schedule setting that a calculation gets from the matched values: the
/// named number where one was matched, else the positional one, else
/// `default`.
pub open spec fn setting_as_given(
    vals: Map<Seq<char>, MatchedValue>,
    named: Seq<char>,
    positional: Seq<char>,
    default: (int, nat),
    d: (int, nat),
) -> bool {
    ||| number_matched(vals, named, d)
    ||| !vals.contains_key(named) && number_matched(vals, positional, d)
    ||| !vals.contains_key(named) && !vals.contains_key(positional) && d == default
}

/// A schedule given on the command line is used as given: where `parse_args`
/// answers a calculation for the values the parser matched, its days per
/// week, weeks per year and months per year are the numbers matched for
/// them, named before positional, with mantissa and scale unchanged (4.5 days
/// stays 4.5), and 5, 52 and 12 where none is given.
pub proof fn lemma_schedule_is_as_given(
    vals: Map<Seq<char>, MatchedValue>,
    r: Result<CliAction, String>,
    d: (int, nat),
)
    requires
        answers(ArgsOutcome::Matched(vals), r),
        is_repr(d),
    ensures
        r matches Ok(CliAction::Calculate { schedule, .. }) ==> {
            &&& setting_as_given(vals, "days_per_week"@, "positional_days_per_week"@, (5int, 0nat), d)
                ==> schedule@.days_per_week == d
            &&& setting_as_given(vals, "weeks_per_year"@, "positional_weeks_per_year"@, (52int, 0nat), d)
                ==> schedule@.weeks_per_year == d
            &&& setting_as_given(
                vals,
                "months_per_year"@,
                "positional_months_per_year"@,
                (12int, 0nat),
                d,
            ) ==> schedule@.months_per_year == d
        },
{
    let p = choose|p: ParsedArgs| #[trigger] resolve(p) == resolve(p) && parsed_from(p, vals)
        && action_result_view(r) == resolve(p);
    assert(parsed_from(p, vals) && action_result_view(r) == resolve(p));
    lemma_parsed_decimals_are_matched(p, vals);
    assert(is_repr((5int, 0nat)) && is_repr((52int, 0nat)) && is_repr((12int, 0nat)));
    assert(number_matched(vals, "days_per_week"@, d) ==> opt_view(p.days_per_week) == Some(d));
    assert(number_matched(vals, "weeks_per_year"@, d) ==> opt_view(p.weeks_per_year) == Some(d));
    assert(number_matched(vals, "months_per_year"@, d) ==> opt_view(p.months_per_year) == Some(d));
    assert(number_matched(vals, "positional_days_per_week"@, d) ==> opt_view(
        p.positional_days_per_week,
    ) == Some(d));
    assert(number_matched(vals, "positional_weeks_per_year"@, d) ==> opt_view(
        p.positional_weeks_per_year,
    ) == Some(d));
    assert(number_matched(vals, "positional_months_per_year"@, d) ==> opt_view(
        p.positional_months_per_year,
    ) == Some(d));
}

} // verus!
