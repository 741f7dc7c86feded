//! The argument parser of the command line, built with `clap`'s builder.
//!
//! A `clap::Command` is opaque to the verifier. What the library puts into
//! one is named instead: `command_header` for its name and texts,
//! `command_args` for the arguments added to it, in order, each as a plain
//! `ArgModel`. Every command the library holds is made by the functions
//! below, starting from `clap::Command::new`, so two commands with the same
//! header and arguments are built alike, and `clap` parses and renders them
//! alike: `clap_outcome` and `clap_long_help` name those results.
//!
//! `clap` checks a command's definition the first time it parses or renders
//! with it, and in debug builds panics on a faulty one. The parsing and the
//! rendering here are therefore only admitted for `paycal_command`'s
//! definition, a valid one. Its positional values are kept out
//! of the short and the long help, but still appear in the usage line.

use vstd::prelude::*;

verus! {

/// `clap::Command`, opaque.
#[verifier::external_type_specification]
#[verifier::external_body]
pub struct ExCommand(clap::Command);

/// `clap::ArgMatches`, opaque.
#[verifier::external_type_specification]
#[verifier::external_body]
pub struct ExArgMatches(clap::ArgMatches);

/// Why the argument parser did not give matches.
pub enum ArgsFailure {
    /// The help was asked for (`--help` or `-h`).
    Help,
    /// Any other failure, with the text `clap` renders for it.
    Message(String),
}

/// What the argument parser gives for a command line: the help request, the
/// text of any other failure, or the values it matched.
pub enum ArgsOutcome {
    Help,
    Message(Seq<char>),
    Matched(Map<Seq<char>, MatchedValue>),
}

/// How an argument is defined: its id, its long name (none for a positional
/// value), the name of its value in the help, whether its value may start with
/// a hyphen, and whether it is left out of the help.
pub struct ArgDef {
    pub id: &'static str,
    pub long: Option<&'static str>,
    pub value_name: &'static str,
    pub allow_hyphen_values: bool,
    pub hidden: bool,
}

/// An `ArgDef` as plain values.
pub struct ArgDefView {
    pub id: Seq<char>,
    pub long: Option<Seq<char>>,
    pub value_name: Seq<char>,
    pub allow_hyphen_values: bool,
    pub hidden: bool,
}

impl View for ArgDef {
    type V = ArgDefView;

    open spec fn view(&self) -> ArgDefView {
        ArgDefView {
            id: self.id@,
            long: match self.long {
                Some(l) => Some(l@),
                None => None,
            },
            value_name: self.value_name@,
            allow_hyphen_values: self.allow_hyphen_values,
            hidden: self.hidden,
        }
    }
}

/// The values an argument takes: text, a `u8`, a `rust_decimal::Decimal`, or
/// one of some names, with a default name.
pub enum ValueKind {
    Text,
    Small,
    Number,
    Choice(Seq<Seq<char>>, Seq<char>),
}

/// An argument added to a command.
pub struct ArgModel {
    pub def: ArgDefView,
    pub values: ValueKind,
}

/// A command's name, version, about text and text after the help.
pub struct HeaderModel {
    pub name: Seq<char>,
    pub version: Option<Seq<char>>,
    pub about: Option<Seq<char>>,
    pub after_help: Option<Seq<char>>,
}

/// The arguments added to a `clap::Command` through `Command::arg`, in order.
pub uninterp spec fn command_args(c: clap::Command) -> Seq<ArgModel>;

/// The name and the texts a `clap::Command` was given.
pub uninterp spec fn command_header(c: clap::Command) -> HeaderModel;

/// What `clap::Command::try_get_matches_from` gives for `argv` on a command
/// with this header and these arguments.
pub uninterp spec fn clap_outcome(args: Seq<ArgModel>, header: HeaderModel, argv: Seq<Seq<char>>) -> ArgsOutcome;

/// What `clap::Command::render_long_help` renders for a command with this
/// header and these arguments.
pub uninterp spec fn clap_long_help(args: Seq<ArgModel>, header: HeaderModel) -> Seq<char>;

/// `r` is what `clap` gave as `outcome`.
pub open spec fn outcome_agrees(r: Result<clap::ArgMatches, ArgsFailure>, outcome: ArgsOutcome) -> bool {
    match (r, outcome) {
        (Err(ArgsFailure::Help), ArgsOutcome::Help) => true,
        (Err(ArgsFailure::Message(m)), ArgsOutcome::Message(t)) => m@ == t,
        (Ok(m), ArgsOutcome::Matched(vals)) => matched_values(m) == vals,
        _ => false,
    }
}

/// The texts of a list of strings.
pub open spec fn texts(v: Seq<String>) -> Seq<Seq<char>> {
    v.map_values(|s: String| s@)
}

/// `clap::Command::new`: a command with this name, no other text and no
/// argument.
#[verifier::external_body]
fn command_new(name: &'static str) -> (c: clap::Command)
    ensures
        command_header(c) == (HeaderModel { name: name@, version: None, about: None, after_help: None }),
        command_args(c) == Seq::<ArgModel>::empty(),
{
    clap::Command::new(name)
}

/// `clap::Command::version`.
#[verifier::external_body]
fn command_version(c: clap::Command, version: &'static str) -> (r: clap::Command)
    ensures
        command_header(r) == (HeaderModel { version: Some(version@), ..command_header(c) }),
        command_args(r) == command_args(c),
{
    c.version(version)
}

/// `clap::Command::about`.
#[verifier::external_body]
fn command_about(c: clap::Command, about: &'static str) -> (r: clap::Command)
    ensures
        command_header(r) == (HeaderModel { about: Some(about@), ..command_header(c) }),
        command_args(r) == command_args(c),
{
    c.about(about)
}

/// `clap::Command::after_help`.
#[verifier::external_body]
fn command_after_help(c: clap::Command, help: &'static str) -> (r: clap::Command)
    ensures
        command_header(r) == (HeaderModel { after_help: Some(help@), ..command_header(c) }),
        command_args(r) == command_args(c),
{
    c.after_help(help)
}

/// `clap::Command::arg` with an argument made from `def` (`clap::Arg::new`,
/// `long`, `value_name`, `allow_hyphen_values`, `hide_short_help`,
/// `hide_long_help`) that reads `String` values.
#[verifier::external_body]
fn command_text_arg(c: clap::Command, def: ArgDef) -> (r: clap::Command)
    ensures
        command_args(r) == command_args(c).push(ArgModel { def: def@, values: ValueKind::Text }),
        command_header(r) == command_header(c),
{
    let a = clap::Arg::new(def.id).long(def.long).value_name(def.value_name);
    let a = a.allow_hyphen_values(def.allow_hyphen_values);
    let a = a.hide_short_help(def.hidden).hide_long_help(def.hidden);
    c.arg(a.value_parser(<String as clap::builder::ValueParserFactory>::value_parser()))
}

/// As `command_text_arg`, for an argument that reads `u8` values.
#[verifier::external_body]
fn command_u8_arg(c: clap::Command, def: ArgDef) -> (r: clap::Command)
    ensures
        command_args(r) == command_args(c).push(ArgModel { def: def@, values: ValueKind::Small }),
        command_header(r) == command_header(c),
{
    let a = clap::Arg::new(def.id).long(def.long).value_name(def.value_name);
    let a = a.allow_hyphen_values(def.allow_hyphen_values);
    let a = a.hide_short_help(def.hidden).hide_long_help(def.hidden);
    c.arg(a.value_parser(<u8 as clap::builder::ValueParserFactory>::value_parser()))
}

/// As `command_text_arg`, for an argument that reads `rust_decimal::Decimal`
/// values through their `FromStr`.
#[verifier::external_body]
fn command_decimal_arg(c: clap::Command, def: ArgDef) -> (r: clap::Command)
    ensures
        command_args(r) == command_args(c).push(ArgModel { def: def@, values: ValueKind::Number }),
        command_header(r) == command_header(c),
{
    let parse: fn(&str) -> Result<rust_decimal::Decimal, rust_decimal::Error> =
        std::str::FromStr::from_str;
    let a = clap::Arg::new(def.id).long(def.long).value_name(def.value_name);
    let a = a.allow_hyphen_values(def.allow_hyphen_values);
    let a = a.hide_short_help(def.hidden).hide_long_help(def.hidden);
    c.arg(a.value_parser(clap::builder::ValueParser::new(parse)))
}

/// As `command_text_arg`, for an argument that reads one of `names` through a
/// `clap::builder::PossibleValuesParser`, `default` where none is given.
#[verifier::external_body]
fn command_choice_arg(
    c: clap::Command,
    def: ArgDef,
    names: Vec<&'static str>,
    default: &'static str,
) -> (r: clap::Command)
    ensures
        command_args(r) == command_args(c).push(
            ArgModel {
                def: def@,
                values: ValueKind::Choice(names@.map_values(|n: &'static str| n@), default@),
            },
        ),
        command_header(r) == command_header(c),
{
    let a = clap::Arg::new(def.id).long(def.long).value_name(def.value_name);
    let a = a.allow_hyphen_values(def.allow_hyphen_values);
    let a = a.hide_short_help(def.hidden).hide_long_help(def.hidden);
    let a = a.value_parser(clap::builder::PossibleValuesParser::new(names));
    c.arg(a.default_value(default))
}

/// `clap::Command::try_get_matches_from`; a `clap::Error` of kind
/// `DisplayHelp` becomes `ArgsFailure::Help`, any other its rendered text
/// (`to_string`). Admitted only for `paycal_command`'s definition.
#[verifier::external_body]
fn command_matches(c: clap::Command, argv: Vec<String>) -> (r: Result<
    clap::ArgMatches,
    ArgsFailure,
>)
    requires
        command_header(c) == paycal_header(),
        command_args(c) == paycal_args(),
    ensures
        outcome_agrees(r, clap_outcome(command_args(c), command_header(c), texts(argv@))),
{
    match c.try_get_matches_from(argv) {
        Ok(m) => Ok(m),
        Err(e) if e.kind() == clap::error::ErrorKind::DisplayHelp => Err(ArgsFailure::Help),
        Err(e) => Err(ArgsFailure::Message(e.to_string())),
    }
}

/// `clap::Command::render_long_help`, as text. Admitted only for
/// `paycal_command`'s definition.
#[verifier::external_body]
fn command_long_help(c: clap::Command) -> (r: String)
    requires
        command_header(c) == paycal_header(),
        command_args(c) == paycal_args(),
    ensures
        r@ == clap_long_help(command_args(c), command_header(c)),
{
    let mut c = c;
    c.render_long_help().to_string()
}

/// A value `clap` matched for an argument, by the type its value parser gave
/// it: a `String`, a `u8`, a `rust_decimal::Decimal` as (mantissa, scale), or
/// a value of another type.
pub enum MatchedValue {
    Text(Seq<char>),
    Small(u8),
    Number(int, nat),
    Other,
}

/// What a `clap::ArgMatches` holds: for each argument id that has a value, the
/// first value matched for it. Ids with no value are not in the map.
pub uninterp spec fn matched_values(m: clap::ArgMatches) -> Map<Seq<char>, MatchedValue>;

/// The text matched for `id`, if a text is.
pub open spec fn matched_text_value(vals: Map<Seq<char>, MatchedValue>, id: Seq<char>) -> Option<
    Seq<char>,
> {
    if vals.contains_key(id) {
        match vals[id] {
            MatchedValue::Text(t) => Some(t),
            _ => None,
        }
    } else {
        None
    }
}

/// The `u8` matched for `id`, if one is.
pub open spec fn matched_u8_value(vals: Map<Seq<char>, MatchedValue>, id: Seq<char>) -> Option<u8> {
    if vals.contains_key(id) {
        match vals[id] {
            MatchedValue::Small(v) => Some(v),
            _ => None,
        }
    } else {
        None
    }
}

/// The decimal matched for `id`, as (mantissa, scale), if one is.
pub open spec fn matched_number_value(vals: Map<Seq<char>, MatchedValue>, id: Seq<char>) -> Option<
    (int, nat),
> {
    if vals.contains_key(id) {
        match vals[id] {
            MatchedValue::Number(mantissa, scale) => Some((mantissa, scale)),
            _ => None,
        }
    } else {
        None
    }
}

pub open spec fn opt_string_view(s: Option<String>) -> Option<Seq<char>> {
    match s {
        Some(t) => Some(t@),
        None => None,
    }
}

pub open spec fn opt_parts_view(p: Option<(i128, u32)>) -> Option<(int, nat)> {
    match p {
        Some((mantissa, scale)) => Some((mantissa as int, scale as nat)),
        None => None,
    }
}

/// `clap::ArgMatches::try_get_one::<String>`, the value cloned. It gives the
/// first value matched for `id` where that value is a `String`; where there
/// is none, or it has another type (`MatchesError::Downcast`), or `id` is
/// unknown, the result is `None`.
#[verifier::external_body]
pub(crate) fn matched_text(m: &clap::ArgMatches, id: &str) -> (r: Option<String>)
    ensures
        opt_string_view(r) == matched_text_value(matched_values(*m), id@),
{
    match m.try_get_one::<String>(id) {
        Ok(Some(s)) => Some(s.clone()),
        _ => None,
    }
}

/// `clap::ArgMatches::try_get_one::<u8>`, as `matched_text` for a `u8`.
#[verifier::external_body]
pub(crate) fn matched_u8(m: &clap::ArgMatches, id: &str) -> (r: Option<u8>)
    ensures
        r == matched_u8_value(matched_values(*m), id@),
{
    match m.try_get_one::<u8>(id) {
        Ok(Some(v)) => Some(*v),
        _ => None,
    }
}

/// `clap::ArgMatches::try_get_one::<rust_decimal::Decimal>`, as `matched_text`
/// for a decimal, which is given as its (mantissa, scale).
#[verifier::external_body]
pub(crate) fn matched_decimal_parts(m: &clap::ArgMatches, id: &str) -> (r: Option<(i128, u32)>)
    ensures
        opt_parts_view(r) == matched_number_value(matched_values(*m), id@),
{
    match m.try_get_one::<rust_decimal::Decimal>(id) {
        Ok(Some(d)) => Some((d.mantissa(), d.scale())),
        _ => None,
    }
}

/// The definition of a named option taking one value.
fn named_arg(id: &'static str, long: &'static str, value_name: &'static str) -> (a: ArgDef)
    ensures
        a@ == (ArgDefView {
            id: id@,
            long: Some(long@),
            value_name: value_name@,
            allow_hyphen_values: false,
            hidden: false,
        }),
{
    ArgDef { id, long: Some(long), value_name, allow_hyphen_values: false, hidden: false }
}

/// The definition of a positional value, left out of the short and the long help.
fn hidden_positional_arg(id: &'static str, value_name: &'static str) -> (a: ArgDef)
    ensures
        a@ == (ArgDefView {
            id: id@,
            long: None,
            value_name: value_name@,
            allow_hyphen_values: false,
            hidden: true,
        }),
{
    ArgDef { id, long: None, value_name, allow_hyphen_values: false, hidden: true }
}

/// `def`, its value allowed to start with a hyphen.
fn hyphen_values(def: ArgDef) -> (a: ArgDef)
    ensures
        a@ == (ArgDefView { allow_hyphen_values: true, ..def@ }),
{
    ArgDef { allow_hyphen_values: true, ..def }
}

/// The text after the help: examples of use.
pub open spec fn examples_text() -> Seq<char> {
    "Examples:\n  paycal --rate 20 --hours 8\n  paycal --rate 20,25,30 --hours 8\n  paycal --rate 20,25 --hours 8 --days-per-week 4 --weeks-per-year 48 --months-per-year 12\n  paycal --rate 20,25 --hours 8 --format csv\n  paycal --rate 20,25 --hours 8 --format json\n  paycal 20,25 8\n  cargo run -- --rate 20,25,30 --hours 8"@
}

/// The name and texts of `paycal`'s command line.
pub open spec fn paycal_header() -> HeaderModel {
    HeaderModel {
        name: "paycal"@,
        version: Some("0.1.0"@),
        about: Some("CLI pay calculator"@),
        after_help: Some(examples_text()),
    }
}

/// A named option of `paycal`.
pub open spec fn named(id: Seq<char>, long: Seq<char>, value_name: Seq<char>, hyphen: bool, values: ValueKind) -> ArgModel {
    ArgModel {
        def: ArgDefView { id, long: Some(long), value_name, allow_hyphen_values: hyphen, hidden: false },
        values,
    }
}

/// A hidden positional value of `paycal`.
pub open spec fn positional(id: Seq<char>, value_name: Seq<char>, hyphen: bool, values: ValueKind) -> ArgModel {
    ArgModel {
        def: ArgDefView { id, long: None, value_name, allow_hyphen_values: hyphen, hidden: true },
        values,
    }
}

/// The arguments of `paycal`'s command line, in order: the named options
/// `--rate`, `--hours`, `--format` (table, csv or json; table by default),
/// `--days-per-week`, `--weeks-per-year`, `--months-per-year`, then the same
/// settings but the format as hidden positional values.
pub open spec fn paycal_args() -> Seq<ArgModel> {
    seq![
        named("rate"@, "rate"@, "RATE"@, true, ValueKind::Text),
        named("hours_per_day"@, "hours"@, "HOURS_PER_DAY"@, false, ValueKind::Small),
        named(
            "format"@,
            "format"@,
            "FORMAT"@,
            false,
            ValueKind::Choice(seq!["table"@, "csv"@, "json"@], "table"@),
        ),
        named("days_per_week"@, "days-per-week"@, "DAYS"@, true, ValueKind::Number),
        named("weeks_per_year"@, "weeks-per-year"@, "WEEKS"@, true, ValueKind::Number),
        named("months_per_year"@, "months-per-year"@, "MONTHS"@, true, ValueKind::Number),
        positional("positional_rate"@, "RATE[,RATE...]"@, true, ValueKind::Text),
        positional("positional_hours_per_day"@, "HOURS_PER_DAY"@, false, ValueKind::Small),
        positional("positional_days_per_week"@, "DAYS_PER_WEEK"@, true, ValueKind::Number),
        positional("positional_weeks_per_year"@, "WEEKS_PER_YEAR"@, true, ValueKind::Number),
        positional("positional_months_per_year"@, "MONTHS_PER_YEAR"@, true, ValueKind::Number),
    ]
}

/// The command line of `paycal`.
pub(crate) fn paycal_command() -> (c: clap::Command)
    ensures
        command_header(c) == paycal_header(),
        command_args(c) == paycal_args(),
{
    let c = command_new("paycal");
    let c = command_version(c, "0.1.0");
    let c = command_about(c, "CLI pay calculator");
    let c = command_after_help(
        c,
        "Examples:\n  paycal --rate 20 --hours 8\n  paycal --rate 20,25,30 --hours 8\n  paycal --rate 20,25 --hours 8 --days-per-week 4 --weeks-per-year 48 --months-per-year 12\n  paycal --rate 20,25 --hours 8 --format csv\n  paycal --rate 20,25 --hours 8 --format json\n  paycal 20,25 8\n  cargo run -- --rate 20,25,30 --hours 8",
    );
    let c = command_text_arg(c, hyphen_values(named_arg("rate", "rate", "RATE")));
    let c = command_u8_arg(c, named_arg("hours_per_day", "hours", "HOURS_PER_DAY"));
    let names: Vec<&'static str> = vec!["table", "csv", "json"];
    assert(names@.map_values(|n: &'static str| n@) =~= seq!["table"@, "csv"@, "json"@]);
    let c = command_choice_arg(c, named_arg("format", "format", "FORMAT"), names, "table");
    let c = command_decimal_arg(c, hyphen_values(named_arg("days_per_week", "days-per-week", "DAYS")));
    let c = command_decimal_arg(
        c,
        hyphen_values(named_arg("weeks_per_year", "weeks-per-year", "WEEKS")),
    );
    let c = command_decimal_arg(
        c,
        hyphen_values(named_arg("months_per_year", "months-per-year", "MONTHS")),
    );
    let c = command_text_arg(
        c,
        hyphen_values(hidden_positional_arg("positional_rate", "RATE[,RATE...]")),
    );
    let c = command_u8_arg(c, hidden_positional_arg("positional_hours_per_day", "HOURS_PER_DAY"));
    let c = command_decimal_arg(
        c,
        hyphen_values(hidden_positional_arg("positional_days_per_week", "DAYS_PER_WEEK")),
    );
    let c = command_decimal_arg(
        c,
        hyphen_values(hidden_positional_arg("positional_weeks_per_year", "WEEKS_PER_YEAR")),
    );
    let c = command_decimal_arg(
        c,
        hyphen_values(hidden_positional_arg("positional_months_per_year", "MONTHS_PER_YEAR")),
    );
    assert(command_args(c) =~= paycal_args());
    c
}

/// Runs the argument parser of `paycal_command` on `argv`, whose first item
/// is the program's name.
pub(crate) fn match_args(argv: Vec<String>) -> (r: Result<clap::ArgMatches, ArgsFailure>)
    ensures
        outcome_agrees(r, clap_outcome(paycal_args(), paycal_header(), texts(argv@))),
{
    command_matches(paycal_command(), argv)
}

/// The long help of `paycal_command`.
pub(crate) fn long_help() -> (r: String)
    ensures
        r@ == clap_long_help(paycal_args(), paycal_header()),
{
    command_long_help(paycal_command())
}

} // verus!
