//! What a log line looks like. Writing the lines is left to the caller.

use crate::text::decimal_digits;
use crate::text::push_decimal;
use crate::text::push_text;
use vstd::prelude::*;

verus! {

/// How much a log line matters.
#[derive(Debug, Clone, Copy, PartialEq, Eq, Structural)]
pub enum LogLevel {
    INFO,
    ERROR,
}

impl LogLevel {
    /// The name of the level.
    pub open spec fn name(self) -> Seq<char> {
        match self {
            LogLevel::INFO => "INFO"@,
            LogLevel::ERROR => "ERROR"@,
        }
    }

    /// The escape sequence that sets the colour of the level on a terminal:
    /// green for `INFO`, red for `ERROR`.
    pub open spec fn colour(self) -> Seq<char> {
        match self {
            LogLevel::INFO => "\x1B[32m"@,
            LogLevel::ERROR => "\x1B[31m"@,
        }
    }

    /// The name of the level.
    pub fn as_str(&self) -> (r: &'static str)
        ensures
            r@ == self.name(),
    {
        match *self {
            LogLevel::INFO => "INFO",
            LogLevel::ERROR => "ERROR",
        }
    }
}

/// A number of milliseconds in at least three digits.
pub open spec fn three_digits(millis: nat) -> Seq<char> {
    if millis < 10 {
        "00"@ + decimal_digits(millis)
    } else if millis < 100 {
        "0"@ + decimal_digits(millis)
    } else {
        decimal_digits(millis)
    }
}

/// A time as it is logged: the seconds, a dot, the milliseconds in at
/// least three digits.
pub open spec fn timestamp_text(seconds: nat, millis: nat) -> Seq<char> {
    decimal_digits(seconds) + "."@ + three_digits(millis)
}

/// A message with its time, both in brackets.
pub open spec fn stamped(timestamp: Seq<char>, message: Seq<char>) -> Seq<char> {
    "["@ + timestamp + "] ["@ + message + "]"@
}

/// The line for the terminal: the level in its colour, then the message
/// with its time.
pub open spec fn terminal_text(
    level: LogLevel,
    timestamp: Seq<char>,
    message: Seq<char>,
) -> Seq<char> {
    level.colour() + "["@ + level.name() + "]\x1B[0m "@ + stamped(timestamp, message)
}

/// The line for the file: the level, then the message with its time.
pub open spec fn file_text(level: LogLevel, timestamp: Seq<char>, message: Seq<char>) -> Seq<
    char,
> {
    "["@ + level.name() + "] "@ + stamped(timestamp, message)
}

/// Writes a time as it is logged.
pub fn format_timestamp(seconds: u64, millis: u32) -> (r: String)
    ensures
        r@ == timestamp_text(seconds as nat, millis as nat),
{
    let mut out = String::new();
    push_decimal(&mut out, seconds);
    push_text(&mut out, ".");
    if millis < 10 {
        push_text(&mut out, "00");
    } else if millis < 100 {
        push_text(&mut out, "0");
    }
    push_decimal(&mut out, millis as u64);
    out
}

fn push_stamped(out: &mut String, timestamp: &str, message: &str)
    ensures
        final(out)@ == old(out)@ + stamped(timestamp@, message@),
{
    push_text(out, "[");
    push_text(out, timestamp);
    push_text(out, "] [");
    push_text(out, message);
    push_text(out, "]");
}

/// The line for the terminal, without the line break.
pub fn terminal_line(level: LogLevel, timestamp: &str, message: &str) -> (r: String)
    ensures
        r@ == terminal_text(level, timestamp@, message@),
{
    let mut out = String::new();
    match level {
        LogLevel::INFO => push_text(&mut out, "\x1B[32m"),
        LogLevel::ERROR => push_text(&mut out, "\x1B[31m"),
    }
    push_text(&mut out, "[");
    push_text(&mut out, level.as_str());
    push_text(&mut out, "]\x1B[0m ");
    push_stamped(&mut out, timestamp, message);
    out
}

/// The line for the file, without the line break.
pub fn file_line(level: LogLevel, timestamp: &str, message: &str) -> (r: String)
    ensures
        r@ == file_text(level, timestamp@, message@),
{
    let mut out = String::new();
    push_text(&mut out, "[");
    push_text(&mut out, level.as_str());
    push_text(&mut out, "] ");
    push_stamped(&mut out, timestamp, message);
    out
}

} // verus!
