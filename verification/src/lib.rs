//! Structured model of UVM-style diagnostic log lines: a verified line-grammar
//! parser, a typed record and log model, and a filter predicate over id and
//! severity sets.
use vstd::prelude::*;

mod digits;
pub mod laws;
pub mod log;
pub mod parser;
mod scan;

use crate::digits::{all_digits, digits_val, parse_u32_digits, parse_u64_digits};
use crate::log::{
    spec_severity_from, spec_unit_from, Line, LineV, Severity, TimeUnit,
};
use crate::parser::{parse_log_line, Field, ParseErrV, ParseError, RawV};

verus! {

/// A character is counted as field-separating whitespace: space or tab.
pub open spec fn is_space(c: char) -> bool {
    c == ' ' || c == '\t'
}

/// A character is an ASCII decimal digit.
pub open spec fn is_digit(c: char) -> bool {
    '0' <= c && c <= '9'
}

/// A character is an ASCII letter.
pub open spec fn is_alpha(c: char) -> bool {
    ('a' <= c && c <= 'z') || ('A' <= c && c <= 'Z')
}

/// A coercion failure while building a typed record from raw field text.
#[derive(Debug, Copy, Clone, PartialEq, Eq, Structural)]
pub enum ConstructError {
    /// The severity token is neither a canonical literal nor an accepted alias.
    InvalidSeverity,
    /// The line number is not a strict digit run, or does not fit in a `u32`.
    InvalidLineNumber,
    /// The timestamp is not a strict digit run, or does not fit in a `u64`.
    InvalidTimestamp,
}

/// Build a typed record from raw field text: the severity token must name a
/// severity, line number and timestamp must be strict digit runs in range,
/// while an unrecognized unit code degrades to an unset unit.
pub open spec fn spec_construct(
    sev: Seq<char>,
    file: Seq<char>,
    line: Seq<char>,
    time: Seq<char>,
    unit: Seq<char>,
    comp: Seq<char>,
    id: Seq<char>,
    msg: Seq<char>,
) -> Result<LineV, ConstructError> {
    match spec_severity_from(sev) {
        None => Err(ConstructError::InvalidSeverity),
        Some(v) => {
            if !(line.len() > 0 && all_digits(line) && digits_val(line) <= u32::MAX) {
                Err(ConstructError::InvalidLineNumber)
            } else if !(time.len() > 0 && all_digits(time) && digits_val(time) <= u64::MAX) {
                Err(ConstructError::InvalidTimestamp)
            } else {
                Ok(
                    LineV {
                        severity: v,
                        file: file,
                        line: digits_val(line) as u32,
                        time: digits_val(time) as u64,
                        time_unit: spec_unit_from(unit),
                        component: comp,
                        id: id,
                        message: msg,
                    },
                )
            }
        },
    }
}

/// Build one typed log line from the raw text of its fields.
pub fn construct_log_line(
    severity_str: &str,
    file_str: &str,
    line_str: &str,
    time_str: &str,
    time_unit_str: &str,
    comp_str: &str,
    id_str: &str,
    msg_str: &str,
) -> (r: Result<Line, ConstructError>)
    ensures
        match r {
            Ok(l) => spec_construct(
                severity_str@,
                file_str@,
                line_str@,
                time_str@,
                time_unit_str@,
                comp_str@,
                id_str@,
                msg_str@,
            ) == Ok::<_, ConstructError>(l@),
            Err(e) => spec_construct(
                severity_str@,
                file_str@,
                line_str@,
                time_str@,
                time_unit_str@,
                comp_str@,
                id_str@,
                msg_str@,
            ) == Err::<LineV, _>(e),
        },
{
    let severity = match Severity::from_str(severity_str) {
        Some(v) => v,
        None => {
            return Err(ConstructError::InvalidSeverity);
        },
    };
    let line = match parse_u32_digits(line_str) {
        Some(v) => v,
        None => {
            return Err(ConstructError::InvalidLineNumber);
        },
    };
    let time = match parse_u64_digits(time_str) {
        Some(v) => v,
        None => {
            return Err(ConstructError::InvalidTimestamp);
        },
    };
    let time_unit = TimeUnit::from_str(time_unit_str);
    Ok(
        Line {
            severity,
            file: String::from_str(file_str),
            line,
            time,
            time_unit,
            component: String::from_str(comp_str),
            id: String::from_str(id_str),
            message: String::from_str(msg_str),
        },
    )
}

/// The grammar field that a coercion failure is charged to.
pub open spec fn coerce_field(e: ConstructError) -> Field {
    match e {
        ConstructError::InvalidSeverity => Field::Severity,
        ConstructError::InvalidLineNumber => Field::FileLine,
        ConstructError::InvalidTimestamp => Field::Time,
    }
}

/// The residual reported for a coercion failure: the offending token.
pub open spec fn coerce_residual(e: ConstructError, raw: RawV) -> Seq<char> {
    match e {
        ConstructError::InvalidSeverity => raw.severity,
        ConstructError::InvalidLineNumber => raw.line,
        ConstructError::InvalidTimestamp => raw.time,
    }
}

/// Parse one raw line of text into a typed record: the raw grammar pass
/// followed by field coercion, with each failure charged to its field.
pub open spec fn spec_parse_line(s: Seq<char>) -> Result<LineV, ParseErrV> {
    match crate::parser::spec_parse_raw(s) {
        Err(e) => Err(e),
        Ok(raw) => match spec_construct(
            raw.severity,
            raw.file,
            raw.line,
            raw.time,
            raw.unit,
            raw.component,
            raw.id,
            raw.message,
        ) {
            Ok(l) => Ok(l),
            Err(ce) => Err(ParseErrV { field: coerce_field(ce), residual: coerce_residual(ce, raw) }),
        },
    }
}

/// Parse one line of text into a fully populated typed record, or fail
/// naming the field that could not be matched and the residual text there.
pub fn parse_line(i: &str) -> (r: Result<Line, ParseError>)
    ensures
        match r {
            Ok(l) => spec_parse_line(i@) == Ok::<_, ParseErrV>(l@),
            Err(e) => spec_parse_line(i@) == Err::<LineV, _>(e@),
        },
{
    let raw = match parse_log_line(i) {
        Ok(x) => x,
        Err(e) => {
            return Err(e);
        },
    };
    match construct_log_line(
        raw.severity,
        raw.file,
        raw.line,
        raw.time,
        raw.unit,
        raw.component,
        raw.id,
        raw.message,
    ) {
        Ok(l) => Ok(l),
        Err(ce) => {
            let residual = match ce {
                ConstructError::InvalidSeverity => String::from_str(raw.severity),
                ConstructError::InvalidLineNumber => String::from_str(raw.line),
                ConstructError::InvalidTimestamp => String::from_str(raw.time),
            };
            let field = match ce {
                ConstructError::InvalidSeverity => Field::Severity,
                ConstructError::InvalidLineNumber => Field::FileLine,
                ConstructError::InvalidTimestamp => Field::Time,
            };
            Err(ParseError { field, residual })
        },
    }
}

/// The id sequences of an optional id set.
pub open spec fn ids_view(ids: Option<Vec<String>>) -> Option<Seq<Seq<char>>> {
    match ids {
        Some(v) => Some(v.deep_view()),
        None => None,
    }
}

/// The severities of an optional severity set.
pub open spec fn sevs_view(sevs: Option<Vec<Severity>>) -> Option<Seq<Severity>> {
    match sevs {
        Some(v) => Some(v@),
        None => None,
    }
}

/// The filter predicate: with both sets present a line is kept iff its id and
/// its severity are each members; with one set present, iff it matches that
/// set; with neither present, nothing is kept.
pub open spec fn spec_filter(
    l: LineV,
    ids: Option<Seq<Seq<char>>>,
    sevs: Option<Seq<Severity>>,
) -> bool {
    match (ids, sevs) {
        (Some(ids), Some(sevs)) => ids.contains(l.id) && sevs.contains(l.severity),
        (Some(ids), None) => ids.contains(l.id),
        (None, Some(sevs)) => sevs.contains(l.severity),
        (None, None) => false,
    }
}

/// The filter predicate of one pair of optional sets, as a closure on lines.
pub open spec fn filter_pred(
    ids: Option<Seq<Seq<char>>>,
    sevs: Option<Seq<Severity>>,
) -> spec_fn(LineV) -> bool {
    |l: LineV| spec_filter(l, ids, sevs)
}

/// The id set holds this id.
fn contains_id(ids: &Vec<String>, id: &str) -> (r: bool)
    ensures
        r == ids.deep_view().contains(id@),
{
    let n = ids.len();
    let mut i: usize = 0;
    while i < n
        invariant
            0 <= i <= n,
            n == ids.len(),
            forall|j: int| 0 <= j < i ==> ids.deep_view()[j] != id@,
        decreases n - i,
    {
        if crate::scan::str_eq(ids[i].as_str(), id) {
            proof {
                assert(ids.deep_view()[i as int] == id@);
            }
            return true;
        }
        i = i + 1;
    }
    false
}

/// The severity set holds this severity.
fn contains_sev(sevs: &Vec<Severity>, s: Severity) -> (r: bool)
    ensures
        r == sevs@.contains(s),
{
    let n = sevs.len();
    let mut i: usize = 0;
    while i < n
        invariant
            0 <= i <= n,
            n == sevs.len(),
            forall|j: int| 0 <= j < i ==> sevs@[j] != s,
        decreases n - i,
    {
        if sevs[i] == s {
            return true;
        }
        i = i + 1;
    }
    false
}

/// Decide whether one line is kept by the optional id and severity sets.
pub fn filter(line: &Line, ids: &Option<Vec<String>>, sevs: &Option<Vec<Severity>>) -> (r: bool)
    ensures
        r == spec_filter(line@, ids_view(*ids), sevs_view(*sevs)),
{
    match (ids, sevs) {
        (Some(idv), Some(sevv)) => contains_id(idv, line.id.as_str()) && contains_sev(
            sevv,
            line.severity,
        ),
        (Some(idv), None) => contains_id(idv, line.id.as_str()),
        (None, Some(sevv)) => contains_sev(sevv, line.severity),
        (None, None) => false,
    }
}

/// The pure per-line step of the ingestion loop: parse one raw line and keep
/// its record exactly when it parses and the filter accepts it.
pub fn parse_and_filter(
    raw_line: &str,
    ids: &Option<Vec<String>>,
    sevs: &Option<Vec<Severity>>,
) -> (r: Option<Line>)
    ensures
        match r {
            Some(l) => {
                &&& spec_parse_line(raw_line@) == Ok::<_, ParseErrV>(l@)
                &&& spec_filter(l@, ids_view(*ids), sevs_view(*sevs))
            },
            None => match spec_parse_line(raw_line@) {
                Ok(lv) => !spec_filter(lv, ids_view(*ids), sevs_view(*sevs)),
                Err(_) => true,
            },
        },
{
    match parse_line(raw_line) {
        Ok(l) => if filter(&l, ids, sevs) {
            Some(l)
        } else {
            None
        },
        Err(_) => None,
    }
}

} // verus!
