//! Inline timestamp markup: a moment in time rendered in the chat
//! platform's `<t:seconds:format>` form.

use vstd::prelude::*;
use vstd::string::StringExecFns;

verus! {

/// The display format of a rendered timestamp.
#[derive(Clone, Copy, Debug, PartialEq, Eq, Structural)]
pub enum Format {
    ShortTime,
    LongTime,
    ShortDate,
    LongDate,
    LongDateShortTime,
    LongDateDayAndShortTime,
    Relative,
}

/// The one-letter code of each display format.
pub open spec fn format_code(f: Format) -> Seq<char> {
    match f {
        Format::ShortTime => "t"@,
        Format::LongTime => "T"@,
        Format::ShortDate => "d"@,
        Format::LongDate => "D"@,
        Format::LongDateShortTime => "f"@,
        Format::LongDateDayAndShortTime => "F"@,
        Format::Relative => "R"@,
    }
}

impl Format {
    /// The format's code letter.
    pub fn code(&self) -> (r: &'static str)
        ensures
            r@ == format_code(*self),
    {
        match self {
            Format::ShortTime => "t",
            Format::LongTime => "T",
            Format::ShortDate => "d",
            Format::LongDate => "D",
            Format::LongDateShortTime => "f",
            Format::LongDateDayAndShortTime => "F",
            Format::Relative => "R",
        }
    }
}

/// The character of one decimal digit.
pub open spec fn digit_char(d: int) -> char {
    if d == 0 {
        '0'
    } else if d == 1 {
        '1'
    } else if d == 2 {
        '2'
    } else if d == 3 {
        '3'
    } else if d == 4 {
        '4'
    } else if d == 5 {
        '5'
    } else if d == 6 {
        '6'
    } else if d == 7 {
        '7'
    } else if d == 8 {
        '8'
    } else {
        '9'
    }
}

/// The decimal digits of a number, most significant first.
pub open spec fn dec_str(n: int) -> Seq<char>
    decreases n,
{
    if n < 10 {
        seq![digit_char(n)]
    } else {
        dec_str(n / 10).push(digit_char(n % 10))
    }
}

/// One digit as a string.
fn digit_str(d: u64) -> (r: &'static str)
    requires
        d < 10,
    ensures
        r@ == seq![digit_char(d as int)],
{
    let r: &'static str = if d == 0 {
        "0"
    } else if d == 1 {
        "1"
    } else if d == 2 {
        "2"
    } else if d == 3 {
        "3"
    } else if d == 4 {
        "4"
    } else if d == 5 {
        "5"
    } else if d == 6 {
        "6"
    } else if d == 7 {
        "7"
    } else if d == 8 {
        "8"
    } else {
        "9"
    };
    proof {
        reveal_strlit("0");
        reveal_strlit("1");
        reveal_strlit("2");
        reveal_strlit("3");
        reveal_strlit("4");
        reveal_strlit("5");
        reveal_strlit("6");
        reveal_strlit("7");
        reveal_strlit("8");
        reveal_strlit("9");
        assert(r@ =~= seq![digit_char(d as int)]);
    }
    r
}

/// Renders a number in decimal.
pub fn u64_to_dec(n: u64) -> (r: String)
    ensures
        r@ == dec_str(n as int),
    decreases n,
{
    if n < 10 {
        let mut s = String::new();
        s.append(digit_str(n));
        proof {
            assert(s@ =~= dec_str(n as int));
        }
        s
    } else {
        let mut s = u64_to_dec(n / 10);
        s.append(digit_str(n % 10));
        proof {
            assert(s@ =~= dec_str(n as int));
        }
        s
    }
}

/// A moment in time as seconds since the epoch.
#[derive(Clone, Copy, Debug, PartialEq, Eq, Structural)]
pub struct Timestamp {
    pub secs: u64,
}

/// What a value must offer to be rendered as inline timestamp markup.
pub trait TimestampExt {
    /// The moment the value stands for, as epoch seconds.
    spec fn epoch(&self) -> int;

    /// The platform's inline timestamp markup: the epoch seconds and
    /// the format's code letter between angle brackets.
    fn to_discord_timestamp(&self, format: Format) -> (r: String)
        ensures
            r@ == "<t:"@ + dec_str(self.epoch()) + ":"@ + format_code(format) + ">"@,
    ;
}

impl TimestampExt for Timestamp {
    open spec fn epoch(&self) -> int {
        self.secs as int
    }

    fn to_discord_timestamp(&self, format: Format) -> (r: String) {
        let mut s = String::new();
        s.append("<t:");
        let digits = u64_to_dec(self.secs);
        s.append(digits.as_str());
        s.append(":");
        s.append(format.code());
        s.append(">");
        proof {
            assert(s@ =~= "<t:"@ + dec_str(self.epoch()) + ":"@ + format_code(format) + ">"@);
        }
        s
    }
}

} // verus!
