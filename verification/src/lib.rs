//! Pay calculations over exact decimal numbers, and the command line that
//! selects what to calculate.

pub mod calculator;
pub mod cli;
mod command;
pub mod decimal;
pub mod report;
pub mod text;

pub use calculator::{PayBreakdown, PayInput, WorkSchedule};
pub use cli::{parse_args, usage, CliAction, OutputFormat};
pub use decimal::Decimal;
