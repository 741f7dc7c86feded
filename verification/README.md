# paycal

A pay calculator: from an hourly rate, the hours worked per day and a work
schedule it computes weekly, monthly and yearly pay in exact decimal
arithmetic.

- `src/decimal.rs`: the `Decimal` type (mantissa and scale as plain integers)
  and its operations, carried out by `rust_decimal`.
- `src/calculator.rs`: `PayInput`, `WorkSchedule`, `PayBreakdown` and the pay
  calculation, with the laws every breakdown satisfies.
- `src/text.rs`: trimming and splitting text.
- `src/command.rs`: the argument parser, built with `clap`'s builder.
- `src/cli.rs`: what the command line asks for, and its checks.
- `src/report.rs`: the results as a table, CSV or JSON.
- `app/main.rs`: the `paycal` program, which reads the arguments and writes
  the results as a table, CSV or JSON.
