//! One decoded trace line: the process and the time that the tracer put before
//! it, where it did, and what the line says.

use vstd::prelude::*;
use vstd::string::StringExecFns;
use crate::chars::{lemma_run_end, scan_run, CharClass};
use crate::grammar::{is_timestamp, parse_line, timestamp_value};
use crate::number::{
    decimal_text, fixed_text, number_text, push_decimal, push_fixed, push_number, read_number,
};
use crate::parser::{read_line, read_timestamp_value, strip_dots};
use crate::shape::{lemma_decoded_line_is_well_formed, line_well_formed};
use crate::text::to_chars;
use crate::token::{
    default_tracer, lemma_render_without_tracer, mentions_tracer, render, StraceToken, Token,
};

verus! {

/// A time as the tracer prints it before a line: a count of microseconds.
#[derive(Debug, Clone, Copy, PartialEq, Eq, Structural)]
pub struct Timestamp {
    pub micros: u64,
}

impl Timestamp {
    /// The time that is `micros` microseconds.
    pub fn from_micros(micros: u64) -> (r: Timestamp)
        ensures
            r.micros == micros,
    {
        Timestamp { micros }
    }

    /// The whole seconds.
    pub fn as_secs(&self) -> (r: u64)
        ensures
            r == self.micros / 1_000_000,
    {
        self.micros / 1_000_000
    }

    /// The microseconds beyond the whole seconds.
    pub fn subsec_micros(&self) -> (r: u32)
        ensures
            r == self.micros % 1_000_000,
    {
        (self.micros % 1_000_000) as u32
    }
}

/// One line of the tracer's output, decoded.
#[derive(Debug, PartialEq, Eq)]
pub struct StraceLine {
    /// The process that the line is about, where the tracer follows several.
    pub pid: Option<i32>,
    /// When the event happened, where the tracer prints times.
    pub time: Option<Timestamp>,
    /// What happened.
    pub inner: StraceToken,
}

/// The mathematical value of a [`StraceLine`]; the time is in microseconds.
pub struct Line {
    pub pid: Option<int>,
    pub time: Option<int>,
    pub inner: Token,
}

impl View for StraceLine {
    type V = Line;

    open spec fn view(&self) -> Line {
        Line {
            pid: match self.pid {
                Some(pid) => Some(pid as int),
                None => None,
            },
            time: match self.time {
                Some(time) => Some(time.micros as int),
                None => None,
            },
            inner: self.inner@,
        }
    }
}

/// The text that a line is written as: `[pid N] ` where the line has a process;
/// the seconds, a dot, the microseconds in six digits and a space where it has a
/// time; and the text of its body.
pub open spec fn render_line(line: Line, tracer: Seq<char>) -> Seq<char> {
    (match line.pid {
        Some(pid) => "[pid "@ + decimal_text(pid) + "] "@,
        None => Seq::empty(),
    }) + (match line.time {
        Some(micros) => number_text((micros / 1_000_000) as nat, 10) + "."@ + fixed_text(
            (micros % 1_000_000) as nat,
            6,
        ) + " "@,
        None => Seq::empty(),
    }) + render(line.inner, tracer)
}

/// Why a line was not decoded: it does not match the grammar.
#[derive(Debug, PartialEq, Eq)]
pub struct DecodeError {
    /// The line, as it was given.
    pub line: String,
}

/// What one line decodes to: the decoded line, or the line itself where it is
/// refused.
pub open spec fn outcome(line: Seq<char>) -> Result<Line, Seq<char>> {
    match parse_line(line) {
        Some(decoded) => Ok(decoded),
        None => Err(line),
    }
}

/// What a decoder gave, as a mathematical value.
pub open spec fn view_outcome(r: Result<StraceLine, DecodeError>) -> Result<Line, Seq<char>> {
    match r {
        Ok(decoded) => Ok(decoded@),
        Err(e) => Err(e.line@),
    }
}

/// The decoder of trace lines.
pub struct StraceParser;

impl StraceParser {
    /// Decodes one line of the tracer's output. The line is decoded where all of it
    /// matches the grammar, and only then; a line that is refused comes back in
    /// the error. A decoded line is whole, down to its last token.
    pub fn parse(line: &str) -> (r: Result<StraceLine, DecodeError>)
        ensures
            view_outcome(r) == outcome(line@),
            r is Ok ==> line_well_formed(r.unwrap()@),
    {
        let chars = to_chars(line);
        match read_line(chars.as_slice()) {
            Some(decoded) => {
                proof {
                    lemma_decoded_line_is_well_formed(line@);
                }
                Ok(decoded)
            },
            None => Err(DecodeError { line: line.to_owned() }),
        }
    }
}

impl StraceLine {
    /// The text of the line, with `tracer` as the path of the tracer's binary.
    /// The path shows only in a line that holds one of the two notices that begin
    /// with it.
    pub fn serialize_with(&self, tracer: &str) -> (r: String)
        ensures
            r@ == render_line(self@, tracer@),
            !mentions_tracer(self@.inner) ==> r@ == render_line(self@, default_tracer()),
    {
        let mut out = String::new();
        match self.pid {
            Some(pid) => {
                out.append("[pid ");
                push_decimal(&mut out, pid as i64);
                out.append("] ");
            },
            None => {},
        }
        match self.time {
            Some(time) => {
                push_number(&mut out, time.as_secs(), 10);
                out.append(".");
                push_fixed(&mut out, time.subsec_micros() as u64, 6);
                out.append(" ");
            },
            None => {},
        }
        self.inner.write_to(&mut out, tracer);
        assert(out@ =~= render_line(self@, tracer@));
        proof {
            if !mentions_tracer(self@.inner) {
                lemma_render_without_tracer(self@.inner, tracer@, default_tracer());
            }
        }
        out
    }

    /// The text of the line. The two notices that begin with the path of the
    /// tracer's binary are written with `/usr/bin/strace`; to write them with
    /// another path, call [`StraceLine::serialize_with`].
    pub fn serialize(&self) -> (r: String)
        ensures
            r@ == render_line(self@, default_tracer()),
    {
        self.serialize_with("/usr/bin/strace")
    }

    /// Decodes one line of the tracer's output.
    ///
    /// What comes back depends on `line` alone: a line that is not decoded leaves
    /// nothing behind that could change how another line is decoded.
    pub fn from_str(line: &str) -> (r: Result<StraceLine, DecodeError>)
        ensures
            view_outcome(r) == outcome(line@),
            r is Ok ==> line_well_formed(r.unwrap()@),
    {
        StraceParser::parse(line)
    }
}

/// Decodes one line of the tracer's output.
pub fn strace_line(line: &str) -> (r: Result<StraceLine, DecodeError>)
    ensures
        view_outcome(r) == outcome(line@),
        r is Ok ==> line_well_formed(r.unwrap()@),
{
    StraceParser::parse(line)
}

/// Decodes each of `lines`. A line that is refused does not end the decoding,
/// and every line decodes to what it decodes to alone, whatever the lines
/// before it were.
pub fn decode_lines(lines: &Vec<String>) -> (r: Vec<Result<StraceLine, DecodeError>>)
    ensures
        r.len() == lines.len(),
        forall|k: int| 0 <= k < lines.len() ==> view_outcome(#[trigger] r[k]) == outcome(lines[k]@),
{
    let mut out: Vec<Result<StraceLine, DecodeError>> = Vec::new();
    let mut k: usize = 0;
    while k < lines.len()
        invariant
            k <= lines.len(),
            out.len() == k,
            forall|m: int| 0 <= m < k ==> view_outcome(#[trigger] out[m]) == outcome(lines[m]@),
        decreases lines.len() - k,
    {
        out.push(StraceLine::from_str(lines[k].as_str()));
        k += 1;
    }
    out
}

/// Decodes a timestamp as the tracer prints it, seconds and microseconds with a
/// dot between them: the digits on both sides of the dot, read as one number of
/// microseconds.
pub fn decode_timestamp(input: &str) -> (r: Timestamp)
    requires
        is_timestamp(input@),
    ensures
        r.micros == timestamp_value(input@),
{
    let chars = to_chars(input);
    assert(chars@.subrange(0, chars@.len() as int) =~= chars@);
    let micros = read_timestamp_value(chars.as_slice(), 0, chars.len());
    Timestamp::from_micros(micros.unwrap())
}

/// Decodes a timestamp where it can be decoded: where `input`, without its dots,
/// is one or more digits that are worth at most `u64::MAX` microseconds.
pub fn try_decode_timestamp(input: &str) -> (r: Option<Timestamp>)
    ensures
        match r {
            Some(time) => is_timestamp(input@) && time.micros == timestamp_value(input@),
            None => !is_timestamp(input@),
        },
{
    let chars = to_chars(input);
    assert(chars@.subrange(0, chars@.len() as int) =~= chars@);
    let digits = strip_dots(chars.as_slice(), 0, chars.len());
    let end = scan_run(digits.as_slice(), 0, CharClass::Digit);
    proof {
        lemma_run_end(digits@, 0, CharClass::Digit);
        assert(digits@.subrange(0, digits@.len() as int) =~= digits@);
    }
    if digits.len() == 0 || end < digits.len() {
        return None;
    }
    match read_number(digits.as_slice(), 0, digits.len(), 10, u64::MAX) {
        Some(micros) => Some(Timestamp::from_micros(micros)),
        None => None,
    }
}

} // verus!
