//! The results as text: a table, CSV or JSON, each amount with two
//! fractional digits.

use vstd::prelude::*;

use crate::calculator::{BreakdownView, PayBreakdown, PayInput};
use crate::cli::OutputFormat;
use crate::decimal::{abs, pow10, round_half_even, same_value, Decimal};
use crate::text::{lacks, lemma_lacks_add, lemma_split_on_first, lemma_split_on_join, lemma_split_on_lacking, split_on};

verus! {

/// The text of the decimal digit `d`.
pub open spec fn digit_text(d: int) -> Seq<char> {
    if d == 0 {
        "0"@
    } else if d == 1 {
        "1"@
    } else if d == 2 {
        "2"@
    } else if d == 3 {
        "3"@
    } else if d == 4 {
        "4"@
    } else if d == 5 {
        "5"@
    } else if d == 6 {
        "6"@
    } else if d == 7 {
        "7"@
    } else if d == 8 {
        "8"@
    } else {
        "9"@
    }
}

/// The decimal digits of `n`, with no leading zero.
pub open spec fn digits_of(n: nat) -> Seq<char>
    decreases n,
{
    if n < 10 {
        digit_text(n as int)
    } else {
        digits_of(n / 10) + digit_text((n % 10) as int)
    }
}

/// `v` rounded half to even to two fractional digits, counted in hundredths.
pub open spec fn cents_of(v: (int, nat)) -> int {
    let r = round_half_even(v, 2);
    r.0 * pow10((2 - r.1) as nat)
}

/// `v` as an amount: a minus sign where it is below zero, the whole part, a
/// point and two fractional digits, rounded half to even.
#[verifier::opaque]
pub open spec fn money_text(v: (int, nat)) -> Seq<char> {
    let c = cents_of(v);
    let a = abs(c);
    (if c < 0 {
        "-"@
    } else {
        Seq::<char>::empty()
    }) + digits_of((a / 100) as nat) + "."@ + digit_text((a % 100) / 10) + digit_text(a % 10)
}

/// `n` spaces.
pub open spec fn spaces(n: nat) -> Seq<char>
    decreases n,
{
    if n == 0 {
        Seq::<char>::empty()
    } else {
        spaces((n - 1) as nat) + " "@
    }
}

/// `s` filled with spaces at its end to `width` characters.
pub open spec fn pad_end(s: Seq<char>, width: nat) -> Seq<char> {
    if s.len() < width {
        s + spaces((width - s.len()) as nat)
    } else {
        s
    }
}

/// `s` filled with spaces at its start to `width` characters.
pub open spec fn pad_start(s: Seq<char>, width: nat) -> Seq<char> {
    if s.len() < width {
        spaces((width - s.len()) as nat) + s
    } else {
        s
    }
}

/// The line that opens and closes a table.
pub open spec fn table_rule() -> Seq<char> {
    "+-----------------+-----------+\n"@
}

/// A table line: the label left-aligned in 15 characters, the amount
/// right-aligned in 9.
#[verifier::opaque]
pub open spec fn table_line(label: Seq<char>, v: (int, nat)) -> Seq<char> {
    "| "@ + pad_end(label, 15) + " | "@ + pad_start(money_text(v), 9) + " |\n"@
}

/// The table of one rate.
#[verifier::opaque]
pub open spec fn table_block(rate: (int, nat), b: BreakdownView) -> Seq<char> {
    table_rule() + table_line("Rate"@, rate) + table_line("Hourly"@, b.hourly) + table_line(
        "Weekly"@,
        b.weekly,
    ) + table_line("Monthly"@, b.monthly) + table_line("Yearly"@, b.yearly) + table_rule()
}

/// The CSV line of one rate.
pub open spec fn csv_line(rate: (int, nat), b: BreakdownView) -> Seq<char> {
    money_text(rate) + ","@ + money_text(b.hourly) + ","@ + money_text(b.weekly) + ","@
        + money_text(b.monthly) + ","@ + money_text(b.yearly) + "\n"@
}

/// The JSON object of one rate.
pub open spec fn json_item(rate: (int, nat), b: BreakdownView) -> Seq<char> {
    "    { \"rate\": \""@ + money_text(rate) + "\", \"hourly\": \""@ + money_text(b.hourly)
        + "\", \"weekly\": \""@ + money_text(b.weekly) + "\", \"monthly\": \""@ + money_text(
        b.monthly,
    ) + "\", \"yearly\": \""@ + money_text(b.yearly) + "\" }"@
}

/// A row of results as plain values.
pub open spec fn row_view(row: (PayInput, PayBreakdown)) -> ((int, nat), BreakdownView) {
    (row.0.rate@, row.1@)
}

pub open spec fn rows_view(rows: Seq<(PayInput, PayBreakdown)>) -> Seq<((int, nat), BreakdownView)> {
    rows.map_values(|row: (PayInput, PayBreakdown)| row_view(row))
}

/// The tables of the rows, one after another.
pub open spec fn tables(rows: Seq<((int, nat), BreakdownView)>) -> Seq<char>
    decreases rows.len(),
{
    if rows.len() == 0 {
        Seq::<char>::empty()
    } else {
        tables(rows.drop_last()) + table_block(rows.last().0, rows.last().1)
    }
}

/// The CSV lines of the rows.
pub open spec fn csv_lines(rows: Seq<((int, nat), BreakdownView)>) -> Seq<char>
    decreases rows.len(),
{
    if rows.len() == 0 {
        Seq::<char>::empty()
    } else {
        csv_lines(rows.drop_last()) + csv_line(rows.last().0, rows.last().1)
    }
}

/// The JSON objects of the rows, separated by a comma and a line break.
pub open spec fn json_items(rows: Seq<((int, nat), BreakdownView)>) -> Seq<char>
    decreases rows.len(),
{
    if rows.len() == 0 {
        Seq::<char>::empty()
    } else if rows.len() == 1 {
        json_item(rows[0].0, rows[0].1)
    } else {
        json_items(rows.drop_last()) + ",\n"@ + json_item(rows.last().0, rows.last().1)
    }
}

/// The rows rendered in `format`.
pub open spec fn rendered(rows: Seq<((int, nat), BreakdownView)>, format: OutputFormat) -> Seq<char> {
    match format {
        OutputFormat::Table => tables(rows),
        OutputFormat::Csv => "rate,hourly,weekly,monthly,yearly\n"@ + csv_lines(rows),
        OutputFormat::Json => "{\n  \"results\": [\n"@ + json_items(rows) + "\n  ]\n}\n"@,
    }
}

fn digit(d: u128) -> (s: &'static str)
    requires
        d < 10,
    ensures
        s@ == digit_text(d as int),
{
    if d == 0 {
        "0"
    } else if d == 1 {
        "1"
    } else if d == 2 {
        "2"
    } else if d == 3 {
        "3"
    } else if d == 4 {
        "4"
    } else if d == 5 {
        "5"
    } else if d == 6 {
        "6"
    } else if d == 7 {
        "7"
    } else if d == 8 {
        "8"
    } else {
        "9"
    }
}

fn append_digits(s: &mut String, n: u128)
    ensures
        final(s)@ == old(s)@ + digits_of(n as nat),
    decreases n,
{
    if n >= 10 {
        append_digits(s, n / 10);
    }
    let ghost before = s@;
    s.append(digit(n % 10));
    proof {
        if n >= 10 {
            assert(s@ =~= old(s)@ + (digits_of((n / 10) as nat) + digit_text((n % 10) as int)));
        } else {
            assert(s@ =~= old(s)@ + digit_text(n as int));
        }
    }
}

fn append_spaces(s: &mut String, n: usize)
    ensures
        final(s)@ == old(s)@ + spaces(n as nat),
{
    let mut i: usize = 0;
    while i < n
        invariant
            i <= n,
            s@ == old(s)@ + spaces(i as nat),
        decreases n - i,
    {
        s.append(" ");
        i = i + 1;
        assert(s@ =~= old(s)@ + spaces(i as nat));
    }
}

/// The amount `d` with two fractional digits, rounded half to even.
pub fn money(d: Decimal) -> (s: String)
    ensures
        s@ == money_text(d@),
{
    let r = d.round_dp(2);
    let m = r.mantissa();
    let sc = r.scale();
    assert(sc <= 2);
    let factor: i128 = if sc == 0 {
        100
    } else if sc == 1 {
        10
    } else {
        1
    };
    proof {
        assert(pow10(0) == 1);
        assert(pow10(1) == 10);
        assert(pow10(2) == 100);
        assert(factor == pow10((2 - sc) as nat));
        assert(-79228162514264337593543950335 * 100 <= m * factor <= 79228162514264337593543950335
            * 100) by (nonlinear_arith)
            requires
                -79228162514264337593543950335 <= m <= 79228162514264337593543950335,
                1 <= factor <= 100,
        ;
    }
    let c: i128 = m * factor;
    let a: u128 = if c < 0 {
        (-c) as u128
    } else {
        c as u128
    };
    let mut s = String::new();
    if c < 0 {
        s.append("-");
    }
    append_digits(&mut s, a / 100);
    s.append(".");
    s.append(digit((a % 100) / 10));
    s.append(digit(a % 10));
    proof {
        reveal(money_text);
    }
    s
}

fn append_padded_end(s: &mut String, text: &str, width: usize)
    ensures
        final(s)@ == old(s)@ + pad_end(text@, width as nat),
{
    s.append(text);
    let n = text.unicode_len();
    if n < width {
        append_spaces(s, width - n);
    }
}

fn append_padded_start(s: &mut String, text: &str, width: usize)
    ensures
        final(s)@ == old(s)@ + pad_start(text@, width as nat),
{
    let n = text.unicode_len();
    if n < width {
        append_spaces(s, width - n);
    }
    s.append(text);
    assert(s@ =~= old(s)@ + pad_start(text@, width as nat));
}

fn append_table_line(s: &mut String, label: &str, v: Decimal)
    ensures
        final(s)@ == old(s)@ + table_line(label@, v@),
{
    s.append("| ");
    append_padded_end(s, label, 15);
    s.append(" | ");
    let amount = money(v);
    append_padded_start(s, amount.as_str(), 9);
    s.append(" |\n");
    proof {
        reveal(table_line);
    }
    assert(s@ =~= old(s)@ + table_line(label@, v@));
}

fn append_table_block(s: &mut String, rate: Decimal, b: &PayBreakdown)
    ensures
        final(s)@ == old(s)@ + table_block(rate@, b@),
{
    s.append("+-----------------+-----------+\n");
    append_table_line(s, "Rate", rate);
    append_table_line(s, "Hourly", b.hourly);
    append_table_line(s, "Weekly", b.weekly);
    append_table_line(s, "Monthly", b.monthly);
    append_table_line(s, "Yearly", b.yearly);
    s.append("+-----------------+-----------+\n");
    proof {
        reveal(table_block);
    }
    assert(s@ =~= old(s)@ + table_block(rate@, b@));
}

fn append_csv_line(s: &mut String, rate: Decimal, b: &PayBreakdown)
    ensures
        final(s)@ == old(s)@ + csv_line(rate@, b@),
{
    s.append(money(rate).as_str());
    s.append(",");
    s.append(money(b.hourly).as_str());
    s.append(",");
    s.append(money(b.weekly).as_str());
    s.append(",");
    s.append(money(b.monthly).as_str());
    s.append(",");
    s.append(money(b.yearly).as_str());
    s.append("\n");
    assert(s@ =~= old(s)@ + csv_line(rate@, b@));
}

fn append_json_item(s: &mut String, rate: Decimal, b: &PayBreakdown)
    ensures
        final(s)@ == old(s)@ + json_item(rate@, b@),
{
    s.append("    { \"rate\": \"");
    s.append(money(rate).as_str());
    s.append("\", \"hourly\": \"");
    s.append(money(b.hourly).as_str());
    s.append("\", \"weekly\": \"");
    s.append(money(b.weekly).as_str());
    s.append("\", \"monthly\": \"");
    s.append(money(b.monthly).as_str());
    s.append("\", \"yearly\": \"");
    s.append(money(b.yearly).as_str());
    s.append("\" }");
    assert(s@ =~= old(s)@ + json_item(rate@, b@));
}

fn append_tables(s: &mut String, rows: &Vec<(PayInput, PayBreakdown)>)
    ensures
        final(s)@ == old(s)@ + tables(rows_view(rows@)),
{
    let ghost rv = rows_view(rows@);
    let mut i: usize = 0;
    while i < rows.len()
        invariant
            i <= rows.len(),
            rv == rows_view(rows@),
            s@ == old(s)@ + tables(rv.take(i as int)),
        decreases rows.len() - i,
    {
        let row = &rows[i];
        let ghost next = rv.take(i + 1);
        assert(next.drop_last() =~= rv.take(i as int));
        assert(next.last() == row_view(rows@[i as int]));
        append_table_block(s, row.0.rate, &row.1);
        i = i + 1;
        assert(s@ =~= old(s)@ + tables(next));
    }
    assert(rv.take(rows.len() as int) =~= rv);
}

fn append_csv_lines(s: &mut String, rows: &Vec<(PayInput, PayBreakdown)>)
    ensures
        final(s)@ == old(s)@ + csv_lines(rows_view(rows@)),
{
    let ghost rv = rows_view(rows@);
    let mut i: usize = 0;
    while i < rows.len()
        invariant
            i <= rows.len(),
            rv == rows_view(rows@),
            s@ == old(s)@ + csv_lines(rv.take(i as int)),
        decreases rows.len() - i,
    {
        let row = &rows[i];
        let ghost next = rv.take(i + 1);
        assert(next.drop_last() =~= rv.take(i as int));
        assert(next.last() == row_view(rows@[i as int]));
        append_csv_line(s, row.0.rate, &row.1);
        i = i + 1;
        assert(s@ =~= old(s)@ + csv_lines(next));
    }
    assert(rv.take(rows.len() as int) =~= rv);
}

fn append_json_items(s: &mut String, rows: &Vec<(PayInput, PayBreakdown)>)
    ensures
        final(s)@ == old(s)@ + json_items(rows_view(rows@)),
{
    let ghost rv = rows_view(rows@);
    let mut i: usize = 0;
    while i < rows.len()
        invariant
            i <= rows.len(),
            rv == rows_view(rows@),
            s@ == old(s)@ + json_items(rv.take(i as int)),
        decreases rows.len() - i,
    {
        let row = &rows[i];
        let ghost next = rv.take(i + 1);
        assert(next.drop_last() =~= rv.take(i as int));
        assert(next.last() == row_view(rows@[i as int]));
        if i > 0 {
            s.append(",\n");
        } else {
            assert(next =~= seq![row_view(rows@[0])]);
        }
        append_json_item(s, row.0.rate, &row.1);
        i = i + 1;
        assert(s@ =~= old(s)@ + json_items(next));
    }
    assert(rv.take(rows.len() as int) =~= rv);
}

/// The results, one row per rate, in `format`: a table of each rate's pay, a
/// CSV header and a line per rate, or a JSON object with the list of results.
pub fn render(rows: &Vec<(PayInput, PayBreakdown)>, format: OutputFormat) -> (s: String)
    ensures
        s@ == rendered(rows_view(rows@), format),
{
    let mut s = String::new();
    match format {
        OutputFormat::Table => {
            append_tables(&mut s, rows);
            assert(s@ =~= tables(rows_view(rows@)));
        },
        OutputFormat::Csv => {
            s.append("rate,hourly,weekly,monthly,yearly\n");
            append_csv_lines(&mut s, rows);
        },
        OutputFormat::Json => {
            s.append("{\n  \"results\": [\n");
            append_json_items(&mut s, rows);
            s.append("\n  ]\n}\n");
        },
    }
    s
}

/// A decimal digit.
pub open spec fn is_digit_char(c: char) -> bool {
    '0' <= c && c <= '9'
}

/// The value of a decimal digit.
pub open spec fn digit_value(c: char) -> int {
    (c as int) - ('0' as int)
}

/// Every character of `s` is a decimal digit.
pub open spec fn all_digits(s: Seq<char>) -> bool {
    forall|i: int| 0 <= i < s.len() ==> is_digit_char(#[trigger] s[i])
}

/// The number that the decimal digits `s` denote.
pub open spec fn number_of(s: Seq<char>) -> int
    decreases s.len(),
{
    if s.len() == 0 {
        0
    } else {
        number_of(s.drop_last()) * 10 + digit_value(s.last())
    }
}

/// An amount text without its minus sign, if it has one.
pub open spec fn amount_body(t: Seq<char>) -> Seq<char> {
    if t.len() > 0 && t[0] == '-' {
        t.drop_first()
    } else {
        t
    }
}

/// `t` has the form of an amount: an optional minus sign, one or more
/// digits, a point and two digits.
pub open spec fn is_amount_text(t: Seq<char>) -> bool {
    let b = amount_body(t);
    &&& b.len() >= 4
    &&& b[b.len() - 3] == '.'
    &&& all_digits(b.take(b.len() - 3))
    &&& all_digits(b.skip(b.len() - 2))
}

/// The number of hundredths that an amount text denotes.
pub open spec fn hundredths_of(t: Seq<char>) -> int {
    let b = amount_body(t);
    let v = number_of(b.take(b.len() - 3)) * 100 + number_of(b.skip(b.len() - 2));
    if t.len() > 0 && t[0] == '-' {
        -v
    } else {
        v
    }
}

proof fn lemma_digit_text(d: int)
    requires
        0 <= d < 10,
    ensures
        digit_text(d).len() == 1,
        is_digit_char(digit_text(d)[0]),
        digit_value(digit_text(d)[0]) == d,
{
    reveal_strlit("0");
    reveal_strlit("1");
    reveal_strlit("2");
    reveal_strlit("3");
    reveal_strlit("4");
    reveal_strlit("5");
    reveal_strlit("6");
    reveal_strlit("7");
    reveal_strlit("8");
    reveal_strlit("9");
}

proof fn lemma_number_push(s: Seq<char>, c: char)
    ensures
        number_of(s + seq![c]) == number_of(s) * 10 + digit_value(c),
{
    assert((s + seq![c]).drop_last() =~= s);
}

proof fn lemma_digits_of(n: nat)
    ensures
        digits_of(n).len() >= 1,
        all_digits(digits_of(n)),
        number_of(digits_of(n)) == n,
    decreases n,
{
    if n < 10 {
        lemma_digit_text(n as int);
        assert(digit_text(n as int) =~= Seq::<char>::empty() + seq![digit_text(n as int)[0]]);
        lemma_number_push(Seq::<char>::empty(), digit_text(n as int)[0]);
    } else {
        lemma_digits_of(n / 10);
        lemma_digit_text((n % 10) as int);
        let d = digit_text((n % 10) as int);
        assert(d =~= seq![d[0]]);
        lemma_number_push(digits_of(n / 10), d[0]);
    }
}

/// The unsigned part of a money text for `a` hundredths: its whole part,
/// a point and two digits.
spec fn money_body(a: int) -> Seq<char> {
    digits_of((a / 100) as nat) + "."@ + digit_text((a % 100) / 10) + digit_text(a % 10)
}

proof fn lemma_money_body(a: int)
    requires
        a >= 0,
    ensures
        ({
            let b = money_body(a);
            &&& b.len() >= 4
            &&& is_digit_char(b[0])
            &&& b[b.len() - 3] == '.'
            &&& all_digits(b.take(b.len() - 3))
            &&& all_digits(b.skip(b.len() - 2))
            &&& number_of(b.take(b.len() - 3)) * 100 + number_of(b.skip(b.len() - 2)) == a
            &&& digit_value(b[b.len() - 2]) == (a % 100) / 10
            &&& digit_value(b[b.len() - 1]) == a % 10
        }),
{
    reveal_strlit(".");
    let whole = digits_of((a / 100) as nat);
    let d1 = digit_text((a % 100) / 10);
    let d0 = digit_text(a % 10);
    lemma_digits_of((a / 100) as nat);
    lemma_digit_text((a % 100) / 10);
    lemma_digit_text(a % 10);
    let b = money_body(a);
    assert(b =~= whole + "."@ + d1 + d0);
    let n = b.len();
    assert(b[0] == whole[0]);
    assert(b.take(n - 3) =~= whole);
    assert(b.skip(n - 2) =~= seq![d1[0], d0[0]]);
    lemma_number_push(Seq::<char>::empty(), d1[0]);
    assert(seq![d1[0]] =~= Seq::<char>::empty() + seq![d1[0]]);
    lemma_number_push(seq![d1[0]], d0[0]);
    assert(seq![d1[0], d0[0]] =~= seq![d1[0]] + seq![d0[0]]);
    assert((a / 100) * 100 + (a % 100) / 10 * 10 + a % 10 == a);
}

/// The money text of a number reads back as that number rounded half to
/// even to two fractional digits: it has the form of an amount (an optional
/// minus sign, digits, a point and two digits), the hundredths it denotes are
/// the same number as the rounded value, it has a minus sign exactly where the
/// rounded value is below zero, and its last two digits are the tens and the
/// units of the rounded value's hundredths.
pub proof fn lemma_money_reads_back(v: (int, nat))
    ensures
        is_amount_text(money_text(v)),
        same_value((hundredths_of(money_text(v)), 2nat), round_half_even(v, 2)),
        (money_text(v)[0] == '-') == (round_half_even(v, 2).0 < 0),
        digit_value(money_text(v)[money_text(v).len() - 2]) == (abs(cents_of(v)) % 100) / 10,
        digit_value(money_text(v).last()) == abs(cents_of(v)) % 10,
{
    reveal(money_text);
    reveal_strlit("-");
    let r = round_half_even(v, 2);
    let c = cents_of(v);
    let a = abs(c);
    let body = money_body(a);
    lemma_money_body(a);
    let t = money_text(v);
    if c < 0 {
        assert(t =~= "-"@ + body);
        assert(t[0] == '-');
        assert(t.drop_first() =~= body);
    } else {
        assert(t =~= body);
        assert(t[0] != '-');
    }
    assert(amount_body(t) == body);
    assert(t[t.len() - 2] == body[body.len() - 2]);
    assert(t.last() == body[body.len() - 1]);
    assert(hundredths_of(t) == c);
    assert(c * pow10(r.1) == r.0 * pow10(2)) by {
        assert(r.1 <= 2);
        assert(pow10(0) == 1);
        assert(pow10(1) == 10);
        assert(pow10(2) == 100);
        if r.1 == 0 {
            assert(c == r.0 * 100);
        } else if r.1 == 1 {
            assert(c == r.0 * 10);
        } else {
            assert(c == r.0);
        }
    }
    assert((r.0 < 0) == (c < 0)) by {
        assert(r.1 <= 2);
        assert(pow10(0) == 1);
        assert(pow10(1) == 10);
        assert(pow10(2) == 100);
    }
}

/// A money text holds only digits, a point and a minus sign.
proof fn lemma_money_lacks(v: (int, nat), c: char)
    requires
        !is_digit_char(c),
        c != '-',
        c != '.',
    ensures
        lacks(money_text(v), c),
{
    reveal(money_text);
    reveal_strlit("-");
    reveal_strlit(".");
    let a = abs(cents_of(v));
    lemma_digits_of((a / 100) as nat);
    lemma_digit_text((a % 100) / 10);
    lemma_digit_text(a % 10);
    let t = money_text(v);
    assert forall|i: int| 0 <= i < t.len() implies t[i] != c by {
        let whole = digits_of((a / 100) as nat);
        if cents_of(v) < 0 {
            assert(t =~= "-"@ + whole + "."@ + digit_text((a % 100) / 10) + digit_text(a % 10));
        } else {
            assert(t =~= whole + "."@ + digit_text((a % 100) / 10) + digit_text(a % 10));
        }
        if cents_of(v) < 0 && i == 0 {
        } else {
            let j = if cents_of(v) < 0 {
                i - 1
            } else {
                i
            };
            if j < whole.len() {
                assert(is_digit_char(whole[j]));
            }
        }
    }
}

/// The amounts of a row as money texts: rate, hourly, weekly, monthly and
/// yearly pay.
pub open spec fn row_cells(row: ((int, nat), BreakdownView)) -> Seq<Seq<char>> {
    seq![
        money_text(row.0),
        money_text(row.1.hourly),
        money_text(row.1.weekly),
        money_text(row.1.monthly),
        money_text(row.1.yearly),
    ]
}

/// The CSV line of a row without its line break.
spec fn csv_content(row: ((int, nat), BreakdownView)) -> Seq<char> {
    let c = row_cells(row);
    c[0] + ","@ + c[1] + ","@ + c[2] + ","@ + c[3] + ","@ + c[4]
}

proof fn lemma_csv_line(row: ((int, nat), BreakdownView))
    ensures
        csv_line(row.0, row.1) == csv_content(row) + seq!['\n'],
        lacks(csv_content(row), '\n'),
        split_on(csv_content(row), ',') == row_cells(row),
{
    reveal_strlit(",");
    reveal_strlit("\n");
    let c = row_cells(row);
    assert(","@ =~= seq![',']);
    assert("\n"@ =~= seq!['\n']);
    assert(csv_line(row.0, row.1) =~= csv_content(row) + seq!['\n']);
    lemma_money_lacks(row.0, '\n');
    lemma_money_lacks(row.1.hourly, '\n');
    lemma_money_lacks(row.1.weekly, '\n');
    lemma_money_lacks(row.1.monthly, '\n');
    lemma_money_lacks(row.1.yearly, '\n');
    lemma_money_lacks(row.0, ',');
    lemma_money_lacks(row.1.hourly, ',');
    lemma_money_lacks(row.1.weekly, ',');
    lemma_money_lacks(row.1.monthly, ',');
    lemma_money_lacks(row.1.yearly, ',');
    let t = csv_content(row);
    assert(lacks(t, '\n')) by {
        assert forall|i: int| 0 <= i < t.len() implies t[i] != '\n' by {
            assert(t =~= c[0] + seq![','] + c[1] + seq![','] + c[2] + seq![','] + c[3] + seq![','] + c[4]);
        }
    }
    let t4 = c[4];
    let t3 = c[3] + seq![','] + t4;
    let t2 = c[2] + seq![','] + t3;
    let t1 = c[1] + seq![','] + t2;
    assert(t =~= c[0] + seq![','] + t1);
    lemma_split_on_first(c[0], ',', t1);
    lemma_split_on_first(c[1], ',', t2);
    lemma_split_on_first(c[2], ',', t3);
    lemma_split_on_first(c[3], ',', t4);
    lemma_split_on_lacking(t4, ',', seq![]);
    assert(Seq::<char>::empty() + t4 =~= t4);
    assert(split_on(t, ',') =~= row_cells(row));
}

/// The CSV header without its line break.
pub open spec fn csv_header() -> Seq<char> {
    "rate,hourly,weekly,monthly,yearly"@
}

proof fn lemma_csv_lines(rows: Seq<((int, nat), BreakdownView)>)
    ensures
        rendered(rows, OutputFormat::Csv).len() > 0,
        rendered(rows, OutputFormat::Csv).last() == '\n',
        split_on(rendered(rows, OutputFormat::Csv), '\n').len() == rows.len() + 2,
        split_on(rendered(rows, OutputFormat::Csv), '\n')[0] == csv_header(),
        split_on(rendered(rows, OutputFormat::Csv), '\n')[rows.len() + 1int] == Seq::<char>::empty(),
        forall|i: int|
            0 <= i < rows.len() ==> split_on(rendered(rows, OutputFormat::Csv), '\n')[i + 1]
                == csv_content(rows[i]),
    decreases rows.len(),
{
    reveal_strlit("rate,hourly,weekly,monthly,yearly\n");
    reveal_strlit("rate,hourly,weekly,monthly,yearly");
    let out = rendered(rows, OutputFormat::Csv);
    if rows.len() == 0 {
        assert(out =~= csv_header() + seq!['\n'] + Seq::<char>::empty());
        assert(lacks(csv_header(), '\n'));
        lemma_split_on_first(csv_header(), '\n', Seq::<char>::empty());
    } else {
        let prev = rows.drop_last();
        lemma_csv_lines(prev);
        let x = rendered(prev, OutputFormat::Csv);
        let xp = x.drop_last();
        assert(x =~= xp + seq!['\n']);
        let last = rows.last();
        lemma_csv_line(last);
        assert(out =~= xp + seq!['\n'] + (csv_content(last) + seq!['\n'] + Seq::<char>::empty()));
        lemma_split_on_join(xp, '\n', csv_content(last) + seq!['\n'] + Seq::<char>::empty(), seq![]);
        lemma_split_on_join(xp, '\n', Seq::<char>::empty(), seq![]);
        assert(x =~= xp + seq!['\n'] + Seq::<char>::empty());
        lemma_split_on_first(csv_content(last), '\n', Seq::<char>::empty());
        let lx = split_on(x, '\n');
        let lo = split_on(out, '\n');
        assert(split_on(Seq::<char>::empty(), '\n') =~= seq![Seq::<char>::empty()]);
        assert(lo =~= lx.drop_last() + seq![csv_content(last), Seq::<char>::empty()]);
        assert forall|i: int| 0 <= i < rows.len() implies lo[i + 1] == csv_content(rows[i]) by {
            if i < prev.len() {
                assert(prev[i] == rows[i]);
            }
        }
    }
}

/// The CSV text has one line per row after its header: split at the line
/// breaks, it gives the header, then for each row, in order, a line whose
/// comma-separated fields are that row's rate, hourly, weekly, monthly and
/// yearly pay as money texts, and then nothing after the last line break.
pub proof fn lemma_csv_has_a_line_per_row(rows: Seq<((int, nat), BreakdownView)>)
    ensures
        split_on(rendered(rows, OutputFormat::Csv), '\n').len() == rows.len() + 2,
        split_on(rendered(rows, OutputFormat::Csv), '\n')[0] == csv_header(),
        split_on(rendered(rows, OutputFormat::Csv), '\n')[rows.len() + 1int] == Seq::<char>::empty(),
        forall|i: int|
            0 <= i < rows.len() ==> split_on(
                #[trigger] split_on(rendered(rows, OutputFormat::Csv), '\n')[i + 1],
                ',',
            ) == row_cells(rows[i]),
{
    lemma_csv_lines(rows);
    assert forall|i: int| 0 <= i < rows.len() implies split_on(
        #[trigger] split_on(rendered(rows, OutputFormat::Csv), '\n')[i + 1],
        ',',
    ) == row_cells(rows[i]) by {
        lemma_csv_line(rows[i]);
    }
}

/// `s` with its spaces taken out.
pub open spec fn without_spaces(s: Seq<char>) -> Seq<char>
    decreases s.len(),
{
    if s.len() == 0 {
        s
    } else if s.last() == ' ' {
        without_spaces(s.drop_last())
    } else {
        without_spaces(s.drop_last()).push(s.last())
    }
}

proof fn lemma_without_spaces_add(a: Seq<char>, b: Seq<char>)
    ensures
        without_spaces(a + b) == without_spaces(a) + without_spaces(b),
    decreases b.len(),
{
    if b.len() == 0 {
        assert(a + b =~= a);
        assert(without_spaces(a) + without_spaces(b) =~= without_spaces(a));
    } else {
        assert((a + b).drop_last() =~= a + b.drop_last());
        assert((a + b).last() == b.last());
        lemma_without_spaces_add(a, b.drop_last());
        if b.last() != ' ' {
            assert(without_spaces(a) + without_spaces(b) =~= (without_spaces(a) + without_spaces(
                b.drop_last(),
            )).push(b.last()));
        }
    }
}

proof fn lemma_without_spaces_lacking(s: Seq<char>)
    requires
        lacks(s, ' '),
    ensures
        without_spaces(s) == s,
    decreases s.len(),
{
    if s.len() > 0 {
        assert(s.last() == s[s.len() - 1]);
        lemma_without_spaces_lacking(s.drop_last());
        assert(s.drop_last().push(s.last()) =~= s);
    }
}

proof fn lemma_without_one_space()
    ensures
        without_spaces(seq![' ']) == Seq::<char>::empty(),
{
    assert(without_spaces(Seq::<char>::empty()) =~= Seq::<char>::empty());
    assert(seq![' '].drop_last() =~= Seq::<char>::empty());
}

proof fn lemma_spaces(n: nat)
    ensures
        spaces(n).len() == n,
        forall|i: int| 0 <= i < n ==> #[trigger] spaces(n)[i] == ' ',
        without_spaces(spaces(n)) == Seq::<char>::empty(),
        lacks(spaces(n), '|'),
        lacks(spaces(n), '\n'),
    decreases n,
{
    reveal_strlit(" ");
    if n > 0 {
        lemma_spaces((n - 1) as nat);
        assert(" "@ =~= seq![' ']);
        lemma_without_spaces_add(spaces((n - 1) as nat), " "@);
        lemma_without_one_space();
        let t = spaces(n);
        assert(t =~= spaces((n - 1) as nat) + seq![' ']);
        assert forall|i: int| 0 <= i < n implies #[trigger] t[i] == ' ' by {
            if i < n - 1 {
                assert(t[i] == spaces((n - 1) as nat)[i]);
            }
        }
    }
}

/// A table line without its line break, split at the bars, is an empty piece,
/// the label cell, the amount cell and an empty piece; without their spaces
/// the cells are the label and the amount's money text.
pub open spec fn shows(line: Seq<char>, label: Seq<char>, v: (int, nat)) -> bool {
    let cells = split_on(line, '|');
    &&& cells.len() == 4
    &&& cells[0] == Seq::<char>::empty()
    &&& without_spaces(cells[1]) == label
    &&& without_spaces(cells[2]) == money_text(v)
    &&& cells[3] == Seq::<char>::empty()
}

/// The line that opens and closes a table, without its line break.
pub open spec fn rule_line() -> Seq<char> {
    "+-----------------+-----------+"@
}

proof fn lemma_table_line(label: &str, v: (int, nat))
    requires
        label@.len() <= 15,
        lacks(label@, ' '),
        lacks(label@, '|'),
        lacks(label@, '\n'),
    ensures
        table_line(label@, v) == (table_line(label@, v).drop_last() + seq!['\n']),
        lacks(table_line(label@, v).drop_last(), '\n'),
        shows(table_line(label@, v).drop_last(), label@, v),
{
    reveal_strlit("| ");
    reveal_strlit(" | ");
    reveal_strlit(" |\n");
    reveal(table_line);
    let l = label@;
    let m = money_text(v);
    lemma_money_lacks(v, ' ');
    lemma_money_lacks(v, '|');
    lemma_money_lacks(v, '\n');
    let pe = pad_end(l, 15);
    let ps = pad_start(m, 9);
    let k1 = (15 - l.len()) as nat;
    lemma_spaces(k1);
    let k2 = if m.len() < 9 {
        (9 - m.len()) as nat
    } else {
        0nat
    };
    lemma_spaces(k2);
    assert(spaces(0) =~= Seq::<char>::empty());
    assert(pe =~= l + spaces(k1));
    assert(ps =~= spaces(k2) + m);
    let a = seq![' '] + pe + seq![' '];
    let b = seq![' '] + ps + seq![' '];
    let t = table_line(l, v);
    assert(t =~= Seq::<char>::empty() + seq!['|'] + a + seq!['|'] + b + seq!['|'] + Seq::<char>::empty() + seq!['\n']);
    let c = t.drop_last();
    assert(c =~= Seq::<char>::empty() + seq!['|'] + (a + seq!['|'] + (b + seq!['|'] + Seq::<char>::empty())));
    assert(lacks(a, '|') && lacks(b, '|') && lacks(a, '\n') && lacks(b, '\n')) by {
        assert forall|i: int| 0 <= i < a.len() implies a[i] != '|' && a[i] != '\n' by {
            if 1 <= i < 1 + l.len() {
                assert(a[i] == l[i - 1]);
            } else if 1 + l.len() <= i < 1 + l.len() + k1 {
                assert(a[i] == spaces(k1)[i - 1 - l.len()]);
            }
        }
        assert forall|i: int| 0 <= i < b.len() implies b[i] != '|' && b[i] != '\n' by {
            if 1 <= i < 1 + k2 {
                assert(b[i] == spaces(k2)[i - 1]);
            } else if 1 + k2 <= i < 1 + k2 + m.len() {
                assert(b[i] == m[i - 1 - k2]);
            }
        }
    }
    assert(lacks(c, '\n')) by {
        assert forall|i: int| 0 <= i < c.len() implies c[i] != '\n' by {
            if 1 <= i < 1 + a.len() {
                assert(c[i] == a[i - 1]);
            } else if 2 + a.len() <= i < 2 + a.len() + b.len() {
                assert(c[i] == b[i - 2 - a.len()]);
            }
        }
    }
    lemma_split_on_first(Seq::<char>::empty(), '|', a + seq!['|'] + (b + seq!['|'] + Seq::<char>::empty()));
    lemma_split_on_first(a, '|', b + seq!['|'] + Seq::<char>::empty());
    lemma_split_on_first(b, '|', Seq::<char>::empty());
    assert(split_on(Seq::<char>::empty(), '|') =~= seq![Seq::<char>::empty()]);
    let cells = split_on(c, '|');
    assert(cells =~= seq![Seq::<char>::empty(), a, b, Seq::<char>::empty()]);
    lemma_without_spaces_add(seq![' '] + l, spaces(k1) + seq![' ']);
    assert(a =~= (seq![' '] + l) + (spaces(k1) + seq![' ']));
    lemma_without_spaces_add(seq![' '], l);
    lemma_without_spaces_add(spaces(k1), seq![' ']);
    lemma_without_one_space();
    lemma_without_spaces_lacking(l);
    assert(without_spaces(a) =~= l);
    lemma_without_spaces_add(seq![' '] + spaces(k2), m + seq![' ']);
    assert(b =~= (seq![' '] + spaces(k2)) + (m + seq![' ']));
    lemma_without_spaces_add(seq![' '], spaces(k2));
    lemma_without_spaces_add(m, seq![' ']);
    lemma_without_spaces_lacking(m);
    assert(without_spaces(b) =~= m);
}

proof fn lemma_rule()
    ensures
        table_rule() == rule_line() + seq!['\n'],
        lacks(rule_line(), '\n'),
{
    reveal_strlit("+-----------------+-----------+\n");
    reveal_strlit("+-----------------+-----------+");
    assert(table_rule() =~= rule_line() + seq!['\n']);
}

proof fn lemma_labels()
    ensures
        "Rate"@.len() <= 15 && lacks("Rate"@, ' ') && lacks("Rate"@, '|') && lacks("Rate"@, '\n'),
        "Hourly"@.len() <= 15 && lacks("Hourly"@, ' ') && lacks("Hourly"@, '|') && lacks(
            "Hourly"@,
            '\n',
        ),
        "Weekly"@.len() <= 15 && lacks("Weekly"@, ' ') && lacks("Weekly"@, '|') && lacks(
            "Weekly"@,
            '\n',
        ),
        "Monthly"@.len() <= 15 && lacks("Monthly"@, ' ') && lacks("Monthly"@, '|') && lacks(
            "Monthly"@,
            '\n',
        ),
        "Yearly"@.len() <= 15 && lacks("Yearly"@, ' ') && lacks("Yearly"@, '|') && lacks(
            "Yearly"@,
            '\n',
        ),
{
    reveal_strlit("Rate");
    reveal_strlit("Hourly");
    reveal_strlit("Weekly");
    reveal_strlit("Monthly");
    reveal_strlit("Yearly");
}

/// The labels of a table's amount lines, in order.
pub open spec fn table_labels() -> Seq<Seq<char>> {
    seq!["Rate"@, "Hourly"@, "Weekly"@, "Monthly"@, "Yearly"@]
}

/// The amounts of a row, in the order of the table's labels.
pub open spec fn row_amounts(row: ((int, nat), BreakdownView)) -> Seq<(int, nat)> {
    seq![row.0, row.1.hourly, row.1.weekly, row.1.monthly, row.1.yearly]
}

proof fn lemma_block_lines(row: ((int, nat), BreakdownView))
    ensures
        split_on(table_block(row.0, row.1), '\n').len() == 8,
        split_on(table_block(row.0, row.1), '\n')[0] == rule_line(),
        split_on(table_block(row.0, row.1), '\n')[6] == rule_line(),
        split_on(table_block(row.0, row.1), '\n')[7] == Seq::<char>::empty(),
        forall|k: int|
            0 <= k < 5 ==> shows(
                #[trigger] split_on(table_block(row.0, row.1), '\n')[1 + k],
                table_labels()[k],
                row_amounts(row)[k],
            ),
        table_block(row.0, row.1).last() == '\n',
{
    lemma_labels();
    lemma_rule();
    reveal(table_block);
    let am = row_amounts(row);
    lemma_table_line("Rate", am[0]);
    lemma_table_line("Hourly", am[1]);
    lemma_table_line("Weekly", am[2]);
    lemma_table_line("Monthly", am[3]);
    lemma_table_line("Yearly", am[4]);
    let l0 = table_line("Rate"@, am[0]).drop_last();
    let l1 = table_line("Hourly"@, am[1]).drop_last();
    let l2 = table_line("Weekly"@, am[2]).drop_last();
    let l3 = table_line("Monthly"@, am[3]).drop_last();
    let l4 = table_line("Yearly"@, am[4]).drop_last();
    let r = rule_line();
    let e = Seq::<char>::empty();
    let t6 = r + seq!['\n'] + e;
    let t5 = l4 + seq!['\n'] + t6;
    let t4 = l3 + seq!['\n'] + t5;
    let t3 = l2 + seq!['\n'] + t4;
    let t2 = l1 + seq!['\n'] + t3;
    let t1 = l0 + seq!['\n'] + t2;
    let b = table_block(row.0, row.1);
    assert(b =~= r + seq!['\n'] + t1);
    lemma_split_on_first(r, '\n', t1);
    lemma_split_on_first(l0, '\n', t2);
    lemma_split_on_first(l1, '\n', t3);
    lemma_split_on_first(l2, '\n', t4);
    lemma_split_on_first(l3, '\n', t5);
    lemma_split_on_first(l4, '\n', t6);
    lemma_split_on_first(r, '\n', e);
    assert(split_on(e, '\n') =~= seq![e]);
    let lines = split_on(b, '\n');
    assert(lines =~= seq![r, l0, l1, l2, l3, l4, r, e]);
    assert(b.last() == '\n');
}

proof fn lemma_split_after(x: Seq<char>, y: Seq<char>, sep: char)
    requires
        x.len() == 0 || x.last() == sep,
    ensures
        split_on(x + y, sep) == split_on(x, sep).drop_last() + split_on(y, sep),
{
    if x.len() == 0 {
        assert(x + y =~= y);
        assert(split_on(x, sep) =~= seq![Seq::<char>::empty()]);
        assert(split_on(x, sep).drop_last() + split_on(y, sep) =~= split_on(y, sep));
    } else {
        let xp = x.drop_last();
        assert(x =~= xp + seq![sep] + Seq::<char>::empty());
        assert(x + y =~= xp + seq![sep] + y);
        lemma_split_on_join(xp, sep, y, seq![]);
        lemma_split_on_join(xp, sep, Seq::<char>::empty(), seq![]);
        assert(split_on(Seq::<char>::empty(), sep) =~= seq![Seq::<char>::empty()]);
        assert(split_on(x, sep).drop_last() =~= split_on(xp, sep));
    }
}

/// The table has one block per row, in order: split at the line breaks it
/// gives seven lines for each row and nothing after the last line break. The
/// first and last line of row `i`'s block are the rule, and the five lines in
/// between show, in order, the labels Rate, Hourly, Weekly, Monthly and Yearly
/// with row `i`'s rate, hourly, weekly, monthly and yearly pay.
#[verifier::rlimit(40)]
pub proof fn lemma_table_has_a_block_per_row(rows: Seq<((int, nat), BreakdownView)>)
    ensures
        split_on(tables(rows), '\n').len() == 7 * rows.len() + 1,
        split_on(tables(rows), '\n')[7 * rows.len() as int] == Seq::<char>::empty(),
        forall|i: int|
            0 <= i < rows.len() ==> #[trigger] split_on(tables(rows), '\n')[7 * i] == rule_line()
                && split_on(tables(rows), '\n')[7 * i + 6] == rule_line(),
        forall|i: int, k: int|
            0 <= i < rows.len() && 0 <= k < 5 ==> shows(
                #[trigger] split_on(tables(rows), '\n')[7 * i + 1 + k],
                table_labels()[k],
                #[trigger] row_amounts(rows[i])[k],
            ),
        tables(rows).len() == 0 || tables(rows).last() == '\n',
    decreases rows.len(),
{
    if rows.len() == 0 {
        assert(split_on(tables(rows), '\n') =~= seq![Seq::<char>::empty()]);
    } else {
        let prev = rows.drop_last();
        let last = rows.last();
        lemma_table_has_a_block_per_row(prev);
        lemma_block_lines(last);
        let x = tables(prev);
        let y = table_block(last.0, last.1);
        lemma_split_after(x, y, '\n');
        let lx = split_on(x, '\n');
        let ly = split_on(y, '\n');
        let lo = split_on(tables(rows), '\n');
        let n = prev.len();
        assert(lo == lx.drop_last() + ly);
        assert forall|i: int| 0 <= i < rows.len() implies #[trigger] lo[7 * i] == rule_line() && lo[7
            * i + 6] == rule_line() by {
            if i < n {
                assert(lx[7 * i] == rule_line());
                assert(lo[7 * i] == lx[7 * i]);
                assert(lo[7 * i + 6] == lx[7 * i + 6]);
            } else {
                assert(lo[7 * i] == ly[0]);
                assert(lo[7 * i + 6] == ly[6]);
            }
        }
        assert forall|i: int, k: int| 0 <= i < rows.len() && 0 <= k < 5 implies shows(
            #[trigger] lo[7 * i + 1 + k],
            table_labels()[k],
            #[trigger] row_amounts(rows[i])[k],
        ) by {
            if i < n {
                assert(prev[i] == rows[i]);
                assert(shows(lx[7 * i + 1 + k], table_labels()[k], row_amounts(prev[i])[k]));
            } else {
                assert(rows[i] == last);
                assert(lo[7 * i + 1 + k] == ly[1 + k]);
            }
        }
    }
}

/// The pieces of a row's JSON object between its quotes: the opening brace,
/// then for each of rate, hourly, weekly, monthly and yearly pay its key and
/// its money text, and the closing brace.
pub open spec fn object_pieces(row: ((int, nat), BreakdownView)) -> Seq<Seq<char>> {
    seq![
        "    { "@,
        "rate"@,
        ": "@,
        money_text(row.0),
        ", "@,
        "hourly"@,
        ": "@,
        money_text(row.1.hourly),
        ", "@,
        "weekly"@,
        ": "@,
        money_text(row.1.weekly),
        ", "@,
        "monthly"@,
        ": "@,
        money_text(row.1.monthly),
        ", "@,
        "yearly"@,
        ": "@,
        money_text(row.1.yearly),
        " }"@,
    ]
}

#[verifier::spinoff_prover]
proof fn lemma_json_item_split(row: ((int, nat), BreakdownView))
    ensures
        split_on(json_item(row.0, row.1), '"') == object_pieces(row),
{
    reveal_strlit("    { ");
    reveal_strlit(", ");
    reveal_strlit(" }");
    reveal_strlit(": ");
    reveal_strlit("rate");
    reveal_strlit("hourly");
    reveal_strlit("weekly");
    reveal_strlit("monthly");
    reveal_strlit("yearly");
    reveal_strlit("    { \"rate\": \"");
    reveal_strlit("\", \"hourly\": \"");
    reveal_strlit("\", \"weekly\": \"");
    reveal_strlit("\", \"monthly\": \"");
    reveal_strlit("\", \"yearly\": \"");
    reveal_strlit("\" }");
    reveal_strlit("\"");
    assert(lacks("    { "@, '"'));
    assert(lacks(", "@, '"'));
    assert(lacks(" }"@, '"'));
    assert(lacks(": "@, '"'));
    assert(lacks("rate"@, '"'));
    assert(lacks("hourly"@, '"'));
    assert(lacks("weekly"@, '"'));
    assert(lacks("monthly"@, '"'));
    assert(lacks("yearly"@, '"'));
    lemma_money_lacks(row.0, '"');
    lemma_money_lacks(row.1.hourly, '"');
    lemma_money_lacks(row.1.weekly, '"');
    lemma_money_lacks(row.1.monthly, '"');
    lemma_money_lacks(row.1.yearly, '"');
    let t20 = " }"@;
    let t19 = money_text(row.1.yearly) + seq!['"'] + t20;
    let t18 = ": "@ + seq!['"'] + t19;
    let t17 = "yearly"@ + seq!['"'] + t18;
    let t16 = ", "@ + seq!['"'] + t17;
    let t15 = money_text(row.1.monthly) + seq!['"'] + t16;
    let t14 = ": "@ + seq!['"'] + t15;
    let t13 = "monthly"@ + seq!['"'] + t14;
    let t12 = ", "@ + seq!['"'] + t13;
    let t11 = money_text(row.1.weekly) + seq!['"'] + t12;
    let t10 = ": "@ + seq!['"'] + t11;
    let t9 = "weekly"@ + seq!['"'] + t10;
    let t8 = ", "@ + seq!['"'] + t9;
    let t7 = money_text(row.1.hourly) + seq!['"'] + t8;
    let t6 = ": "@ + seq!['"'] + t7;
    let t5 = "hourly"@ + seq!['"'] + t6;
    let t4 = ", "@ + seq!['"'] + t5;
    let t3 = money_text(row.0) + seq!['"'] + t4;
    let t2 = ": "@ + seq!['"'] + t3;
    let t1 = "rate"@ + seq!['"'] + t2;
    let t0 = "    { "@ + seq!['"'] + t1;
    assert(json_item(row.0, row.1) =~= t0);
    lemma_split_on_first("    { "@, '"', t1);
    lemma_split_on_first("rate"@, '"', t2);
    lemma_split_on_first(": "@, '"', t3);
    lemma_split_on_first(money_text(row.0), '"', t4);
    lemma_split_on_first(", "@, '"', t5);
    lemma_split_on_first("hourly"@, '"', t6);
    lemma_split_on_first(": "@, '"', t7);
    lemma_split_on_first(money_text(row.1.hourly), '"', t8);
    lemma_split_on_first(", "@, '"', t9);
    lemma_split_on_first("weekly"@, '"', t10);
    lemma_split_on_first(": "@, '"', t11);
    lemma_split_on_first(money_text(row.1.weekly), '"', t12);
    lemma_split_on_first(", "@, '"', t13);
    lemma_split_on_first("monthly"@, '"', t14);
    lemma_split_on_first(": "@, '"', t15);
    lemma_split_on_first(money_text(row.1.monthly), '"', t16);
    lemma_split_on_first(", "@, '"', t17);
    lemma_split_on_first("yearly"@, '"', t18);
    lemma_split_on_first(": "@, '"', t19);
    lemma_split_on_first(money_text(row.1.yearly), '"', t20);
    lemma_split_on_lacking(t20, '"', seq![]);
    assert(Seq::<char>::empty() + t20 =~= t20);
    assert(split_on(t0, '"') =~= object_pieces(row));
}

proof fn lemma_json_item_one_line(row: ((int, nat), BreakdownView))
    ensures
        lacks(json_item(row.0, row.1), '\n'),
        json_item(row.0, row.1).len() > 0,
        json_item(row.0, row.1).last() == '}',
{
    let l0 = "    { \"rate\": \""@;
    let l1 = "\", \"hourly\": \""@;
    let l2 = "\", \"weekly\": \""@;
    let l3 = "\", \"monthly\": \""@;
    let l4 = "\", \"yearly\": \""@;
    let l5 = "\" }"@;
    reveal_strlit("    { \"rate\": \"");
    reveal_strlit("\", \"hourly\": \"");
    reveal_strlit("\", \"weekly\": \"");
    reveal_strlit("\", \"monthly\": \"");
    reveal_strlit("\", \"yearly\": \"");
    reveal_strlit("\" }");
    assert(lacks(l0, '\n'));
    assert(lacks(l1, '\n'));
    assert(lacks(l2, '\n'));
    assert(lacks(l3, '\n'));
    assert(lacks(l4, '\n'));
    assert(lacks(l5, '\n'));
    let m0 = money_text(row.0);
    let m1 = money_text(row.1.hourly);
    let m2 = money_text(row.1.weekly);
    let m3 = money_text(row.1.monthly);
    let m4 = money_text(row.1.yearly);
    lemma_money_lacks(row.0, '\n');
    lemma_money_lacks(row.1.hourly, '\n');
    lemma_money_lacks(row.1.weekly, '\n');
    lemma_money_lacks(row.1.monthly, '\n');
    lemma_money_lacks(row.1.yearly, '\n');
    lemma_lacks_add(l0, m0, '\n');
    lemma_lacks_add(l0 + m0, l1, '\n');
    lemma_lacks_add(l0 + m0 + l1, m1, '\n');
    lemma_lacks_add(l0 + m0 + l1 + m1, l2, '\n');
    lemma_lacks_add(l0 + m0 + l1 + m1 + l2, m2, '\n');
    lemma_lacks_add(l0 + m0 + l1 + m1 + l2 + m2, l3, '\n');
    lemma_lacks_add(l0 + m0 + l1 + m1 + l2 + m2 + l3, m3, '\n');
    lemma_lacks_add(l0 + m0 + l1 + m1 + l2 + m2 + l3 + m3, l4, '\n');
    lemma_lacks_add(l0 + m0 + l1 + m1 + l2 + m2 + l3 + m3 + l4, m4, '\n');
    lemma_lacks_add(l0 + m0 + l1 + m1 + l2 + m2 + l3 + m3 + l4 + m4, l5, '\n');
    assert(json_item(row.0, row.1) == l0 + m0 + l1 + m1 + l2 + m2 + l3 + m3 + l4 + m4 + l5);
    assert(json_item(row.0, row.1).last() == l5.last());
}

proof fn lemma_json_item(row: ((int, nat), BreakdownView))
    ensures
        split_on(json_item(row.0, row.1), '"') == object_pieces(row),
        lacks(json_item(row.0, row.1), '\n'),
        json_item(row.0, row.1).len() > 0,
        json_item(row.0, row.1).last() == '}',
{
    lemma_json_item_split(row);
    lemma_json_item_one_line(row);
}

/// A line of the JSON list holds row's object, followed by a comma where
/// another object comes after it: the line, without that comma, splits at its
/// quotes into the row's `object_pieces`.
pub open spec fn object_line(line: Seq<char>, row: ((int, nat), BreakdownView), more: bool) -> bool {
    if more {
        line.len() > 0 && line.last() == ',' && split_on(line.drop_last(), '"') == object_pieces(row)
    } else {
        split_on(line, '"') == object_pieces(row)
    }
}

spec fn items_prefix(rows: Seq<((int, nat), BreakdownView)>) -> Seq<char> {
    if rows.len() <= 1 {
        Seq::<char>::empty()
    } else {
        json_items(rows.drop_last()) + ",\n"@
    }
}

proof fn lemma_items_prefix(rows: Seq<((int, nat), BreakdownView)>)
    requires
        rows.len() >= 1,
    ensures
        json_items(rows) == items_prefix(rows) + json_item(rows.last().0, rows.last().1),
        items_prefix(rows).len() == 0 || items_prefix(rows).last() == '\n',
{
    reveal_strlit(",\n");
    if rows.len() == 1 {
        assert(rows.last() == rows[0]);
        assert(json_items(rows) =~= Seq::<char>::empty() + json_item(rows[0].0, rows[0].1));
    }
}

proof fn lemma_json_items_lines(rows: Seq<((int, nat), BreakdownView)>)
    requires
        rows.len() >= 1,
    ensures
        split_on(json_items(rows), '\n').len() == rows.len(),
        forall|i: int|
            0 <= i < rows.len() ==> object_line(
                #[trigger] split_on(json_items(rows), '\n')[i],
                rows[i],
                i < rows.len() - 1,
            ),
    decreases rows.len(),
{
    reveal_strlit(",\n");
    let n = rows.len();
    let last = rows.last();
    lemma_json_item(last);
    let il = json_item(last.0, last.1);
    lemma_split_on_lacking(il, '\n', seq![]);
    assert(Seq::<char>::empty() + il =~= il);
    if n == 1 {
        assert(json_items(rows) == il);
        assert(rows[0] == last);
    } else {
        let prev = rows.drop_last();
        lemma_json_items_lines(prev);
        lemma_items_prefix(prev);
        let p = items_prefix(prev);
        let q = prev.last();
        lemma_json_item(q);
        let iq = json_item(q.0, q.1);
        assert(json_items(rows) =~= p + (iq + seq![','] + seq!['\n'] + il));
        assert(json_items(prev) == p + iq);
        lemma_split_after(p, iq + seq![','] + seq!['\n'] + il, '\n');
        lemma_split_after(p, iq, '\n');
        lemma_split_on_lacking(iq, '\n', seq![]);
        assert(Seq::<char>::empty() + iq =~= iq);
        lemma_lacks_add(iq, seq![','], '\n');
        lemma_split_on_first(iq + seq![','], '\n', il);
        let lp = split_on(json_items(prev), '\n');
        let lo = split_on(json_items(rows), '\n');
        assert(lo =~= lp.drop_last() + seq![iq + seq![','], il]);
        assert((iq + seq![',']).drop_last() =~= iq);
        assert forall|i: int| 0 <= i < n implies object_line(
            #[trigger] lo[i],
            rows[i],
            i < n - 1,
        ) by {
            if i < n - 2 {
                assert(prev[i] == rows[i]);
                assert(object_line(lp[i], prev[i], i < prev.len() - 1));
            } else if i == n - 2 {
                assert(rows[i] == q);
            } else {
                assert(rows[i] == last);
            }
        }
    }
}

/// The JSON text is an object with a list of results, one object per row, in
/// order, separated by commas: split at the line breaks it opens with `{` and
/// the `"results": [` line, then has for each row a line holding that row's
/// object (its keys and money texts), followed by a comma on every line but
/// the last, and closes with `]`, `}` and nothing after the last line break.
pub proof fn lemma_json_has_an_object_per_row(rows: Seq<((int, nat), BreakdownView)>)
    ensures
        split_on(rendered(rows, OutputFormat::Json), '\n')[0] == "{"@,
        split_on(rendered(rows, OutputFormat::Json), '\n')[1] == "  \"results\": ["@,
        rows.len() >= 1 ==> {
            let lines = split_on(rendered(rows, OutputFormat::Json), '\n');
            &&& lines.len() == rows.len() + 5
            &&& lines[rows.len() + 2int] == "  ]"@
            &&& lines[rows.len() + 3int] == "}"@
            &&& lines[rows.len() + 4int] == Seq::<char>::empty()
            &&& forall|i: int|
                0 <= i < rows.len() ==> object_line(
                    #[trigger] lines[2 + i],
                    rows[i],
                    i < rows.len() - 1,
                )
        },
        rows.len() == 0 ==> split_on(rendered(rows, OutputFormat::Json), '\n') == seq![
            "{"@,
            "  \"results\": ["@,
            Seq::<char>::empty(),
            "  ]"@,
            "}"@,
            Seq::<char>::empty(),
        ],
{
    reveal_strlit("{\n  \"results\": [\n");
    reveal_strlit("\n  ]\n}\n");
    reveal_strlit("{");
    reveal_strlit("  \"results\": [");
    reveal_strlit("  ]");
    reveal_strlit("}");
    let e = Seq::<char>::empty();
    let j = json_items(rows);
    let rest = "  ]"@ + seq!['\n'] + ("}"@ + seq!['\n'] + e);
    let out = rendered(rows, OutputFormat::Json);
    assert(out =~= "{"@ + seq!['\n'] + ("  \"results\": ["@ + seq!['\n'] + (j + seq!['\n'] + rest)));
    assert(lacks("{"@, '\n'));
    assert(lacks("  \"results\": ["@, '\n'));
    assert(lacks("  ]"@, '\n'));
    assert(lacks("}"@, '\n'));
    lemma_split_on_first("{"@, '\n', "  \"results\": ["@ + seq!['\n'] + (j + seq!['\n'] + rest));
    lemma_split_on_first("  \"results\": ["@, '\n', j + seq!['\n'] + rest);
    lemma_split_on_join(j, '\n', rest, seq![]);
    lemma_split_on_first("  ]"@, '\n', "}"@ + seq!['\n'] + e);
    lemma_split_on_first("}"@, '\n', e);
    assert(split_on(e, '\n') =~= seq![e]);
    let lines = split_on(out, '\n');
    let lj = split_on(j, '\n');
    assert(lines =~= seq!["{"@, "  \"results\": ["@] + lj + seq!["  ]"@, "}"@, e]);
    if rows.len() >= 1 {
        lemma_json_items_lines(rows);
        assert forall|i: int| 0 <= i < rows.len() implies object_line(
            #[trigger] lines[2 + i],
            rows[i],
            i < rows.len() - 1,
        ) by {
            assert(lines[2 + i] == lj[i]);
        }
    } else {
        assert(j == e);
        assert(lj =~= seq![e]);
    }
}

} // verus!
