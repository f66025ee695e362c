//! The message log: an append-only sequence of narration lines, each tagged
//! with a severity colour, capped at [`crate::MSG_HEIGHT`] entries (the
//! oldest entry is silently dropped once the cap is reached).  Also the
//! decimal rendering of numbers that the narration lines embed.
use crate::MSG_HEIGHT;
use vstd::prelude::*;
use vstd::string::StringExecFns;

verus! {

/// Severity / display colour of a log line or an entity glyph.  The
/// renderer maps each name to actual colour values; the core only tags.
#[derive(Clone, Copy, Debug, PartialEq, Eq, Structural)]
pub enum ColorName {
    White,
    Red,
    DarkRed,
    Orange,
    Green,
    DesaturatedGreen,
    DarkerGreen,
    LightGreen,
    LightBlue,
    LightCyan,
    LightYellow,
    Violet,
    LightViolet,
}

/// The message log: narration text with its severity colour.
pub type Messages = Vec<(String, ColorName)>;

/// Mathematical model of the log: each entry as its character sequence.
pub open spec fn log_view(m: Messages) -> Seq<(Seq<char>, ColorName)> {
    m@.map(|i: int, e: (String, ColorName)| (e.0@, e.1))
}

/// What one append does to the log model: push, dropping the oldest
/// entry first when the cap is already reached.
pub open spec fn log_push(
    log: Seq<(Seq<char>, ColorName)>,
    text: Seq<char>,
    color: ColorName,
) -> Seq<(Seq<char>, ColorName)> {
    if log.len() == MSG_HEIGHT {
        log.drop_first().push((text, color))
    } else {
        log.push((text, color))
    }
}

/// Append one narration line, dropping the oldest once the cap is reached.
pub fn message(messages: &mut Messages, text: &str, color: ColorName)
    ensures
        log_view(*final(messages)) == log_push(log_view(*old(messages)), text@, color),
{
    let ghost pre = log_view(*old(messages));
    if messages.len() == MSG_HEIGHT {
        messages.remove(0);
        proof {
            assert(log_view(*messages) =~= pre.drop_first());
        }
    }
    messages.push((text.to_owned(), color));
    proof {
        assert(log_view(*messages) =~= log_push(pre, text@, color));
    }
}

/// The decimal digit character for a value below ten.
pub open spec fn dec_digit(d: int) -> char {
    if d == 0 {
        '0'
    } else if d == 1 {
        '1'
    } else if d == 2 {
        '2'
    } else if d == 3 {
        '3'
    } else if d == 4 {
        '4'
    } else if d == 5 {
        '5'
    } else if d == 6 {
        '6'
    } else if d == 7 {
        '7'
    } else if d == 8 {
        '8'
    } else {
        '9'
    }
}

/// Decimal digit sequence of a non-negative value.
pub open spec fn dec_seq(n: int) -> Seq<char>
    decreases n,
{
    if n < 10 {
        seq![dec_digit(n)]
    } else {
        dec_seq(n / 10).push(dec_digit(n % 10))
    }
}

/// Decimal rendering of a signed value, with a leading minus sign when
/// the value is negative.
pub open spec fn dec_int(n: int) -> Seq<char> {
    if n < 0 {
        seq!['-'] + dec_seq(-n)
    } else {
        dec_seq(n)
    }
}

/// The one-character string for a decimal digit.
fn digit_str(d: u32) -> (s: &'static str)
    requires
        d < 10,
    ensures
        s@ == seq![dec_digit(d as int)],
{
    proof {
        reveal_strlit("0");
        reveal_strlit("1");
        reveal_strlit("2");
        reveal_strlit("3");
        reveal_strlit("4");
        reveal_strlit("5");
        reveal_strlit("6");
        reveal_strlit("7");
        reveal_strlit("8");
        reveal_strlit("9");
    }
    match d {
        0 => "0",
        1 => "1",
        2 => "2",
        3 => "3",
        4 => "4",
        5 => "5",
        6 => "6",
        7 => "7",
        8 => "8",
        _ => "9",
    }
}

/// Decimal rendering of a non-negative number.
pub fn u32_dec_string(n: u32) -> (s: String)
    ensures
        s@ == dec_seq(n as int),
    decreases n,
{
    if n < 10 {
        digit_str(n).to_owned()
    } else {
        let mut s = u32_dec_string(n / 10);
        s.append(digit_str(n % 10));
        proof {
            assert(s@ =~= dec_seq(n as int));
        }
        s
    }
}

/// Decimal rendering of a signed number.
pub fn i32_dec_string(v: i32) -> (s: String)
    ensures
        s@ == dec_int(v as int),
{
    if v >= 0 {
        u32_dec_string(v as u32)
    } else {
        let mag: u32 = (-(v as i64)) as u32;
        let mut s = String::from_str("-");
        proof {
            reveal_strlit("-");
        }
        s.append(u32_dec_string(mag).as_str());
        proof {
            assert(s@ =~= dec_int(v as int));
        }
        s
    }
}

} // verus!
