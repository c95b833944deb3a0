//! Errors of evaluation and the line that reports one.
use crate::ast::{Location, LocationView};
use crate::bignum::{digit_char, digits};
use vstd::prelude::*;

verus! {

/// A failure of evaluation: what went wrong, and where in the source.
#[derive(Debug, Clone)]
pub struct Error {
    pub start: usize,
    pub end: usize,
    pub filename: String,
    pub message: String,
}

/// An `Error` as plain values.
pub struct ErrorView {
    pub start: nat,
    pub end: nat,
    pub filename: Seq<char>,
    pub message: Seq<char>,
}

impl View for Error {
    type V = ErrorView;

    open spec fn view(&self) -> ErrorView {
        ErrorView {
            start: self.start as nat,
            end: self.end as nat,
            filename: self.filename@,
            message: self.message@,
        }
    }
}

/// The line that reports an error: the file, the start and the end of the place
/// in decimal, each followed by a colon, then a space and the message.
pub open spec fn report_line(error: ErrorView) -> Seq<char> {
    error.filename + ":"@ + digits(error.start) + ":"@ + digits(error.end) + ": "@ + error.message
}

/// The text of one decimal digit.
fn digit_text(d: usize) -> (r: &'static str)
    requires
        d < 10,
    ensures
        r@ == seq![digit_char(d as int)],
{
    proof {
        reveal_strlit("0");
        reveal_strlit("1");
        reveal_strlit("2");
        reveal_strlit("3");
        reveal_strlit("4");
        reveal_strlit("5");
        reveal_strlit("6");
        reveal_strlit("7");
        reveal_strlit("8");
        reveal_strlit("9");
    }
    let r = if d == 0 {
        "0"
    } else if d == 1 {
        "1"
    } else if d == 2 {
        "2"
    } else if d == 3 {
        "3"
    } else if d == 4 {
        "4"
    } else if d == 5 {
        "5"
    } else if d == 6 {
        "6"
    } else if d == 7 {
        "7"
    } else if d == 8 {
        "8"
    } else {
        "9"
    };
    assert(r@ =~= seq![digit_char(d as int)]);
    r
}

/// The decimal form of a number.
pub fn decimal_text(n: usize) -> (r: String)
    ensures
        r@ == digits(n as nat),
    decreases n,
{
    if n < 10 {
        digit_text(n).to_owned()
    } else {
        let mut text = decimal_text(n / 10);
        text.append(digit_text(n % 10));
        assert(text@ =~= digits(n as nat));
        text
    }
}

impl Error {
    /// The error with the given message at the given place.
    pub open spec fn at(message: Seq<char>, location: LocationView) -> ErrorView {
        ErrorView {
            start: location.start,
            end: location.end,
            filename: location.filename,
            message,
        }
    }

    /// Builds the error that carries `message` and the three parts of `location`.
    pub fn new(message: &str, location: Location) -> (error: Self)
        ensures
            error@ == Self::at(message@, location@),
    {
        Self {
            start: location.start,
            end: location.end,
            filename: location.filename,
            message: message.to_owned(),
        }
    }

    /// The line that reports this error.
    pub fn report(&self) -> (line: String)
        ensures
            line@ == report_line(self@),
    {
        let mut line = self.filename.clone();
        line.append(":");
        line.append(decimal_text(self.start).as_str());
        line.append(":");
        line.append(decimal_text(self.end).as_str());
        line.append(": ");
        line.append(self.message.as_str());
        line
    }
}

} // verus!
