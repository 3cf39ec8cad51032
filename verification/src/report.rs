//! What the service says of a panic.
use vstd::prelude::*;
use vstd::string::StringExecFns;

use crate::text::{decimal, number_text};

verus! {

/// The message of a panic. `literal` and `owned` are its payload, if it is a string of that kind.
pub fn panic_message<'a>(literal: Option<&'a str>, owned: Option<&'a str>) -> (r: &'a str)
    ensures
        match (literal, owned) {
            (Some(s), _) => r@ == s@,
            (None, Some(s)) => r@ == s@,
            (None, None) => r@ == "Box<dyn Any>"@,
        },
{
    match literal {
        Some(s) => s,
        None => match owned {
            Some(s) => s,
            None => "Box<dyn Any>",
        },
    }
}

/// The name of a thread.
pub fn thread_label<'a>(name: Option<&'a str>) -> (r: &'a str)
    ensures
        match name {
            Some(s) => r@ == s@,
            None => r@ == "<unnamed>"@,
        },
{
    match name {
        Some(s) => s,
        None => "<unnamed>",
    }
}

/// A place in the source.
pub fn location_label(file: &str, line: u32, column: u32) -> (r: String)
    ensures
        r@ == file@ + ":"@ + decimal(line as nat) + ":"@ + decimal(column as nat),
{
    file.to_string().concat(":").concat(number_text(line as u64).as_str()).concat(":").concat(
        number_text(column as u64).as_str(),
    )
}

/// What is logged of a panic, with its backtrace where one was captured.
pub fn panic_report(message: &str, backtrace: Option<&str>) -> (r: String)
    ensures
        match backtrace {
            Some(trace) => r@ == message@ + "\n\nStack backtrace:\n"@ + trace@,
            None => r@ == message@,
        },
{
    match backtrace {
        Some(trace) => message.to_string().concat("\n\nStack backtrace:\n").concat(trace),
        None => message.to_string(),
    }
}

} // verus!
