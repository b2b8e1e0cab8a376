//! Log records handed to whatever `log` backend the program installed (the
//! systemd journal, in the programs built on this library).

use vstd::prelude::*;

verus! {

/// Severity of a log record.
#[derive(Clone, Copy, Debug, PartialEq, Eq, Structural)]
pub enum LogLevel {
    Info,
    Warn,
    Error,
}

#[verifier::external_type_specification]
#[verifier::external_body]
pub struct ExArguments<'a>(core::fmt::Arguments<'a>);

/// The destination of `write!` for one log record at one level.
struct RecordSink {
    level: LogLevel,
}

impl RecordSink {
    /// Relies on `log::logger` and `log::Log::log`: passes one record with the
    /// formatted text, at this sink's level, to the logger the program installed
    /// (a no-op logger when none was).
    #[verifier::external_body]
    fn write_fmt(&mut self, args: core::fmt::Arguments<'_>) {
        let level = match self.level {
            LogLevel::Info => ::log::Level::Info,
            LogLevel::Warn => ::log::Level::Warn,
            LogLevel::Error => ::log::Level::Error,
        };
        ::log::logger().log(&::log::Record::builder().level(level).args(args).build());
    }
}

/// Relies on `core::format_args`, through `write!`, to turn `message` into the
/// formatted text that `RecordSink::write_fmt` hands on unchanged.
#[verifier::external_body]
fn emit(level: LogLevel, message: &str) {
    write!(RecordSink { level }, "{}", message)
}

/// Logs `message` at level info.
pub fn log_info(message: &str) {
    emit(LogLevel::Info, message);
}

/// Logs `message` at level warn.
pub fn log_warn(message: &str) {
    emit(LogLevel::Warn, message);
}

/// Logs `message` at level error.
pub fn log_error(message: &str) {
    emit(LogLevel::Error, message);
}

} // verus!
