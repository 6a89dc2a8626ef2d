//! The line-grammar parser: single-pass, left-to-right, non-backtracking.
//! Each field is specified by a spec-level step on character sequences, and
//! each executable parser is proved to compute exactly that step.
use vstd::prelude::*;

use crate::log::{sev_lit, Severity};
use crate::scan::{
    class_pred, find, find_char, lemma_skip_while, scan, skip_while, str_eq, CharClass,
};

verus! {

/// The grammar field that a failure is charged to.
#[derive(Debug, Copy, Clone, PartialEq, Eq, Structural)]
pub enum Field {
    Severity,
    FileLine,
    At,
    Time,
    Component,
    Id,
}

/// Mathematical model of a parse failure.
pub ghost struct ParseErrV {
    pub field: Field,
    pub residual: Seq<char>,
}

/// A parse failure: the field that could not be matched and the residual text
/// at the point of failure. For a strict-digit or value-range failure of a
/// numeric field, the residual is the offending token itself.
#[derive(Debug, Clone, PartialEq)]
pub struct ParseError {
    pub field: Field,
    pub residual: String,
}

impl View for ParseError {
    type V = ParseErrV;

    open spec fn view(&self) -> ParseErrV {
        ParseErrV { field: self.field, residual: self.residual@ }
    }
}

/// Mathematical model of the raw textual fields of one line.
pub ghost struct RawV {
    pub severity: Seq<char>,
    pub file: Seq<char>,
    pub line: Seq<char>,
    pub time: Seq<char>,
    pub unit: Seq<char>,
    pub component: Seq<char>,
    pub id: Seq<char>,
    pub message: Seq<char>,
}

/// The raw textual fields of one line, exactly as they stand in the input,
/// before any coercion to typed values.
#[derive(Debug, Clone, PartialEq)]
pub struct RawFields<'a> {
    pub severity: &'a str,
    pub file: &'a str,
    pub line: &'a str,
    pub time: &'a str,
    pub unit: &'a str,
    pub component: &'a str,
    pub id: &'a str,
    pub message: &'a str,
}

impl<'a> View for RawFields<'a> {
    type V = RawV;

    open spec fn view(&self) -> RawV {
        RawV {
            severity: self.severity@,
            file: self.file@,
            line: self.line@,
            time: self.time@,
            unit: self.unit@,
            component: self.component@,
            id: self.id@,
            message: self.message@,
        }
    }
}

/// `p` is a prefix of `s`.
pub open spec fn is_prefix(p: Seq<char>, s: Seq<char>) -> bool {
    p.len() <= s.len() && forall|j: int| 0 <= j < p.len() ==> s[j] == p[j]
}

/// The first severity literal that is a prefix of `s`, if any.
pub open spec fn sev_match(s: Seq<char>) -> Option<Severity> {
    if is_prefix(sev_lit(Severity::INFO), s) {
        Some(Severity::INFO)
    } else if is_prefix(sev_lit(Severity::WARNING), s) {
        Some(Severity::WARNING)
    } else if is_prefix(sev_lit(Severity::ERROR), s) {
        Some(Severity::ERROR)
    } else if is_prefix(sev_lit(Severity::FATAL), s) {
        Some(Severity::FATAL)
    } else {
        None
    }
}

/// Consume one-or-more whitespace characters; `None` when there are none.
pub open spec fn ws_step(s: Seq<char>) -> Option<Seq<char>> {
    let k = skip_while(s, class_pred(CharClass::Space));
    if k == 0 {
        None
    } else {
        Some(s.skip(k))
    }
}

/// Consume `FILE(LINE)`: the file is everything before the first `(`, the
/// line number is the digit run inside, and the `)` is mandatory.
pub open spec fn file_step(s: Seq<char>) -> Result<(Seq<char>, Seq<char>, Seq<char>), Seq<char>> {
    let k = skip_while(s, class_pred(CharClass::NonParen));
    if k == 0 {
        Err(s)
    } else if k == s.len() {
        Err(s.skip(k))
    } else {
        let file = s.take(k);
        let after = s.skip(k + 1);
        let d = skip_while(after, class_pred(CharClass::Digit));
        if d == 0 {
            Err(after)
        } else if d == after.len() || after[d] != ')' {
            Err(after.skip(d))
        } else {
            Ok((file, after.take(d), after.skip(d + 1)))
        }
    }
}

/// Consume the literal `@` separator.
pub open spec fn at_step(s: Seq<char>) -> Option<Seq<char>> {
    if s.len() > 0 && s[0] == '@' {
        Some(s.skip(1))
    } else {
        None
    }
}

/// Consume everything up to the mandatory `:`, yielding the raw time token.
pub open spec fn time_tok_step(s: Seq<char>) -> Result<(Seq<char>, Seq<char>), ()> {
    let k = find_char(s, ':');
    if k == s.len() {
        Err(())
    } else {
        Ok((s.take(k), s.skip(k + 1)))
    }
}

/// Split a raw time token into its strict digit run and its alphabetic unit
/// code; `None` unless the token is exactly one-or-more digits followed by
/// zero-or-more letters.
pub open spec fn time_tok_split(t: Seq<char>) -> Option<(Seq<char>, Seq<char>)> {
    let d = skip_while(t, class_pred(CharClass::Digit));
    if d == 0 {
        None
    } else {
        let a = skip_while(t.skip(d), class_pred(CharClass::Alpha));
        if d + a == t.len() {
            Some((t.take(d), t.skip(d)))
        } else {
            None
        }
    }
}

/// Consume the component: one non-empty run of non-whitespace characters.
pub open spec fn comp_step(s: Seq<char>) -> Option<(Seq<char>, Seq<char>)> {
    let k = skip_while(s, class_pred(CharClass::NonSpace));
    if k == 0 {
        None
    } else {
        Some((s.take(k), s.skip(k)))
    }
}

/// Consume `[ID]`: a literal `[`, everything up to the first `]`, then `]`.
pub open spec fn id_step(s: Seq<char>) -> Result<(Seq<char>, Seq<char>), Seq<char>> {
    if s.len() == 0 || s[0] != '[' {
        Err(s)
    } else {
        let t = s.skip(1);
        let k = find_char(t, ']');
        if k == t.len() {
            Err(t)
        } else {
            Ok((t.take(k), t.skip(k + 1)))
        }
    }
}

/// Parse one whole line into its raw textual fields, or fail on the first
/// field that cannot be matched. Fields are separated by one-or-more
/// whitespace characters; the message is everything after the whitespace
/// that follows the id, taken verbatim, possibly empty.
pub open spec fn spec_parse_raw(s: Seq<char>) -> Result<RawV, ParseErrV> {
    match sev_match(s) {
        None => Err(ParseErrV { field: Field::Severity, residual: s }),
        Some(v) => {
            let r1 = s.skip(sev_lit(v).len() as int);
            match ws_step(r1) {
                None => Err(ParseErrV { field: Field::FileLine, residual: r1 }),
                Some(r2) => match file_step(r2) {
                    Err(res) => Err(ParseErrV { field: Field::FileLine, residual: res }),
                    Ok((file, linetok, r3)) => match ws_step(r3) {
                        None => Err(ParseErrV { field: Field::At, residual: r3 }),
                        Some(r4) => match at_step(r4) {
                            None => Err(ParseErrV { field: Field::At, residual: r4 }),
                            Some(r5) => match ws_step(r5) {
                                None => Err(ParseErrV { field: Field::Time, residual: r5 }),
                                Some(r6) => match time_tok_step(r6) {
                                    Err(_) => Err(ParseErrV { field: Field::Time, residual: r6 }),
                                    Ok((tok, r7)) => match time_tok_split(tok) {
                                        None => Err(ParseErrV { field: Field::Time, residual: tok }),
                                        Some((tdig, talpha)) => match ws_step(r7) {
                                            None => Err(
                                                ParseErrV { field: Field::Component, residual: r7 },
                                            ),
                                            Some(r8) => match comp_step(r8) {
                                                None => Err(
                                                    ParseErrV {
                                                        field: Field::Component,
                                                        residual: r8,
                                                    },
                                                ),
                                                Some((comp, r9)) => match ws_step(r9) {
                                                    None => Err(
                                                        ParseErrV { field: Field::Id, residual: r9 },
                                                    ),
                                                    Some(r10) => match id_step(r10) {
                                                        Err(res) => Err(
                                                            ParseErrV {
                                                                field: Field::Id,
                                                                residual: res,
                                                            },
                                                        ),
                                                        Ok((id, r11)) => match ws_step(r11) {
                                                            None => Err(
                                                                ParseErrV {
                                                                    field: Field::Id,
                                                                    residual: r11,
                                                                },
                                                            ),
                                                            Some(msg) => Ok(
                                                                RawV {
                                                                    severity: sev_lit(v),
                                                                    file: file,
                                                                    line: linetok,
                                                                    time: tdig,
                                                                    unit: talpha,
                                                                    component: comp,
                                                                    id: id,
                                                                    message: msg,
                                                                },
                                                            ),
                                                        },
                                                    },
                                                },
                                            },
                                        },
                                    },
                                },
                            },
                        },
                    },
                },
            }
        },
    }
}

/// `lit` is a prefix of `i`.
fn match_prefix(i: &str, lit: &str) -> (b: bool)
    ensures
        b == is_prefix(lit@, i@),
{
    let m = lit.unicode_len();
    let n = i.unicode_len();
    if m > n {
        return false;
    }
    let mut j: usize = 0;
    while j < m
        invariant
            0 <= j <= m,
            m == lit@.len(),
            n == i@.len(),
            m <= n,
            forall|k: int| 0 <= k < j ==> i@[k] == lit@[k],
        decreases m - j,
    {
        if i.get_char(j) != lit.get_char(j) {
            return false;
        }
        j = j + 1;
    }
    true
}

/// Match the severity literal at the head of the line, yielding the remainder
/// and the matched token.
pub fn parse_log_severity<'a>(i: &'a str) -> (r: Result<(&'a str, &'a str), ParseError>)
    ensures
        match r {
            Ok((rest, tok)) => {
                &&& sev_match(i@) is Some
                &&& tok@ == sev_lit(sev_match(i@)->Some_0)
                &&& rest@ == i@.skip(tok@.len() as int)
            },
            Err(e) => {
                &&& sev_match(i@) is None
                &&& e@.field == Field::Severity
                &&& e@.residual == i@
            },
        },
{
    proof {
        reveal_strlit("UVM_INFO");
        reveal_strlit("UVM_WARNING");
        reveal_strlit("UVM_ERROR");
        reveal_strlit("UVM_FATAL");
        assert("UVM_INFO"@ =~= sev_lit(Severity::INFO));
        assert("UVM_WARNING"@ =~= sev_lit(Severity::WARNING));
        assert("UVM_ERROR"@ =~= sev_lit(Severity::ERROR));
        assert("UVM_FATAL"@ =~= sev_lit(Severity::FATAL));
    }
    let n = i.unicode_len();
    if match_prefix(i, "UVM_INFO") {
        let tok = i.substring_char(0, 8);
        let rest = i.substring_char(8, n);
        proof {
            assert(tok@ =~= sev_lit(Severity::INFO));
            assert(rest@ =~= i@.skip(8));
        }
        Ok((rest, tok))
    } else if match_prefix(i, "UVM_WARNING") {
        let tok = i.substring_char(0, 11);
        let rest = i.substring_char(11, n);
        proof {
            assert(tok@ =~= sev_lit(Severity::WARNING));
            assert(rest@ =~= i@.skip(11));
        }
        Ok((rest, tok))
    } else if match_prefix(i, "UVM_ERROR") {
        let tok = i.substring_char(0, 9);
        let rest = i.substring_char(9, n);
        proof {
            assert(tok@ =~= sev_lit(Severity::ERROR));
            assert(rest@ =~= i@.skip(9));
        }
        Ok((rest, tok))
    } else if match_prefix(i, "UVM_FATAL") {
        let tok = i.substring_char(0, 9);
        let rest = i.substring_char(9, n);
        proof {
            assert(tok@ =~= sev_lit(Severity::FATAL));
            assert(rest@ =~= i@.skip(9));
        }
        Ok((rest, tok))
    } else {
        Err(ParseError { field: Field::Severity, residual: String::from_str(i) })
    }
}

/// Consume one-or-more whitespace characters, charging a failure to `f`.
fn space1<'a>(i: &'a str, f: Field) -> (r: Result<&'a str, ParseError>)
    ensures
        match r {
            Ok(rest) => ws_step(i@) == Some(rest@),
            Err(e) => {
                &&& ws_step(i@) is None
                &&& e@.field == f
                &&& e@.residual == i@
            },
        },
{
    let n = i.unicode_len();
    let k = scan(i, CharClass::Space);
    proof {
        lemma_skip_while(i@, class_pred(CharClass::Space));
    }
    if k == 0 {
        Err(ParseError { field: f, residual: String::from_str(i) })
    } else {
        let rest = i.substring_char(k, n);
        proof {
            assert(rest@ =~= i@.skip(k as int));
        }
        Ok(rest)
    }
}

/// Parse `FILE(LINE)`, yielding the remainder and the file and line tokens.
pub fn parse_file_line<'a>(i: &'a str) -> (r: Result<(&'a str, (&'a str, &'a str)), ParseError>)
    ensures
        match r {
            Ok((rest, (file, line))) => file_step(i@) == Ok::<_, Seq<char>>(
                (file@, line@, rest@),
            ),
            Err(e) => {
                &&& file_step(i@) is Err
                &&& e@.field == Field::FileLine
                &&& e@.residual == file_step(i@)->Err_0
            },
        },
{
    let n = i.unicode_len();
    let k = scan(i, CharClass::NonParen);
    proof {
        lemma_skip_while(i@, class_pred(CharClass::NonParen));
    }
    if k == 0 {
        return Err(ParseError { field: Field::FileLine, residual: String::from_str(i) });
    }
    if k == n {
        let empty = i.substring_char(n, n);
        proof {
            assert(empty@ =~= i@.skip(n as int));
        }
        return Err(ParseError { field: Field::FileLine, residual: String::from_str(empty) });
    }
    let file = i.substring_char(0, k);
    let after = i.substring_char(k + 1, n);
    proof {
        assert(file@ =~= i@.take(k as int));
        assert(after@ =~= i@.skip(k + 1));
    }
    let m = after.unicode_len();
    let d = scan(after, CharClass::Digit);
    proof {
        lemma_skip_while(after@, class_pred(CharClass::Digit));
    }
    if d == 0 {
        return Err(ParseError { field: Field::FileLine, residual: String::from_str(after) });
    }
    if d == m || after.get_char(d) != ')' {
        let res = after.substring_char(d, m);
        proof {
            assert(res@ =~= after@.skip(d as int));
        }
        return Err(ParseError { field: Field::FileLine, residual: String::from_str(res) });
    }
    let line = after.substring_char(0, d);
    let rest = after.substring_char(d + 1, m);
    proof {
        assert(line@ =~= after@.take(d as int));
        assert(rest@ =~= after@.skip(d + 1));
    }
    Ok((rest, (file, line)))
}

/// Consume the literal `@` separator.
fn expect_at<'a>(i: &'a str) -> (r: Result<&'a str, ParseError>)
    ensures
        match r {
            Ok(rest) => at_step(i@) == Some(rest@),
            Err(e) => {
                &&& at_step(i@) is None
                &&& e@.field == Field::At
                &&& e@.residual == i@
            },
        },
{
    let n = i.unicode_len();
    if n > 0 && i.get_char(0) == '@' {
        let rest = i.substring_char(1, n);
        proof {
            assert(rest@ =~= i@.skip(1));
        }
        Ok(rest)
    } else {
        Err(ParseError { field: Field::At, residual: String::from_str(i) })
    }
}

/// Take the raw time token: everything before the mandatory `:`.
pub fn parse_time<'a>(i: &'a str) -> (r: Result<(&'a str, &'a str), ParseError>)
    ensures
        match r {
            Ok((rest, tok)) => time_tok_step(i@) == Ok::<_, ()>((tok@, rest@)),
            Err(e) => {
                &&& time_tok_step(i@) is Err
                &&& e@.field == Field::Time
                &&& e@.residual == i@
            },
        },
{
    let n = i.unicode_len();
    let k = find(i, ':');
    if k == n {
        Err(ParseError { field: Field::Time, residual: String::from_str(i) })
    } else {
        let tok = i.substring_char(0, k);
        let rest = i.substring_char(k + 1, n);
        proof {
            assert(tok@ =~= i@.take(k as int));
            assert(rest@ =~= i@.skip(k + 1));
        }
        Ok((rest, tok))
    }
}

/// Split a raw time token into its digit run and its unit code.
fn split_time_token<'a>(t: &'a str) -> (r: Result<(&'a str, &'a str), ()>)
    ensures
        match r {
            Ok((dig, alpha)) => time_tok_split(t@) == Some((dig@, alpha@)),
            Err(_) => time_tok_split(t@) is None,
        },
{
    let n = t.unicode_len();
    let d = scan(t, CharClass::Digit);
    proof {
        lemma_skip_while(t@, class_pred(CharClass::Digit));
    }
    if d == 0 {
        return Err(());
    }
    let rest = t.substring_char(d, n);
    proof {
        assert(rest@ =~= t@.skip(d as int));
    }
    let a = scan(rest, CharClass::Alpha);
    proof {
        lemma_skip_while(rest@, class_pred(CharClass::Alpha));
    }
    if a == n - d {
        let dig = t.substring_char(0, d);
        proof {
            assert(dig@ =~= t@.take(d as int));
        }
        Ok((dig, rest))
    } else {
        Err(())
    }
}

/// Take the component: one non-empty run of non-whitespace characters.
pub fn not_whitespace<'a>(i: &'a str) -> (r: Result<(&'a str, &'a str), ParseError>)
    ensures
        match r {
            Ok((rest, tok)) => comp_step(i@) == Some((tok@, rest@)),
            Err(e) => {
                &&& comp_step(i@) is None
                &&& e@.field == Field::Component
                &&& e@.residual == i@
            },
        },
{
    let n = i.unicode_len();
    let k = scan(i, CharClass::NonSpace);
    proof {
        lemma_skip_while(i@, class_pred(CharClass::NonSpace));
    }
    if k == 0 {
        Err(ParseError { field: Field::Component, residual: String::from_str(i) })
    } else {
        let tok = i.substring_char(0, k);
        let rest = i.substring_char(k, n);
        proof {
            assert(tok@ =~= i@.take(k as int));
            assert(rest@ =~= i@.skip(k as int));
        }
        Ok((rest, tok))
    }
}

/// Parse `[ID]`, yielding the remainder and the id token.
pub fn parse_id<'a>(i: &'a str) -> (r: Result<(&'a str, &'a str), ParseError>)
    ensures
        match r {
            Ok((rest, id)) => id_step(i@) == Ok::<_, Seq<char>>((id@, rest@)),
            Err(e) => {
                &&& id_step(i@) is Err
                &&& e@.field == Field::Id
                &&& e@.residual == id_step(i@)->Err_0
            },
        },
{
    let n = i.unicode_len();
    if n == 0 || i.get_char(0) != '[' {
        return Err(ParseError { field: Field::Id, residual: String::from_str(i) });
    }
    let t = i.substring_char(1, n);
    proof {
        assert(t@ =~= i@.skip(1));
    }
    let m = t.unicode_len();
    let k = find(t, ']');
    if k == m {
        Err(ParseError { field: Field::Id, residual: String::from_str(t) })
    } else {
        let id = t.substring_char(0, k);
        let rest = t.substring_char(k + 1, m);
        proof {
            assert(id@ =~= t@.take(k as int));
            assert(rest@ =~= t@.skip(k + 1));
        }
        Ok((rest, id))
    }
}

/// Parse one whole line into its raw textual fields, or fail on the first
/// field that cannot be matched, never re-deriving an earlier field.
pub fn parse_log_line<'a>(i: &'a str) -> (r: Result<RawFields<'a>, ParseError>)
    ensures
        match r {
            Ok(raw) => spec_parse_raw(i@) == Ok::<_, ParseErrV>(raw@),
            Err(e) => spec_parse_raw(i@) == Err::<RawV, _>(e@),
        },
{
    let (r1, sevtok) = match parse_log_severity(i) {
        Ok(x) => x,
        Err(e) => {
            return Err(e);
        },
    };
    let r2 = match space1(r1, Field::FileLine) {
        Ok(x) => x,
        Err(e) => {
            return Err(e);
        },
    };
    let (r3, (file, linetok)) = match parse_file_line(r2) {
        Ok(x) => x,
        Err(e) => {
            return Err(e);
        },
    };
    let r4 = match space1(r3, Field::At) {
        Ok(x) => x,
        Err(e) => {
            return Err(e);
        },
    };
    let r5 = match expect_at(r4) {
        Ok(x) => x,
        Err(e) => {
            return Err(e);
        },
    };
    let r6 = match space1(r5, Field::Time) {
        Ok(x) => x,
        Err(e) => {
            return Err(e);
        },
    };
    let (r7, timetok) = match parse_time(r6) {
        Ok(x) => x,
        Err(e) => {
            return Err(e);
        },
    };
    let (tdig, talpha) = match split_time_token(timetok) {
        Ok(x) => x,
        Err(_) => {
            return Err(ParseError { field: Field::Time, residual: String::from_str(timetok) });
        },
    };
    let r8 = match space1(r7, Field::Component) {
        Ok(x) => x,
        Err(e) => {
            return Err(e);
        },
    };
    let (r9, comp) = match not_whitespace(r8) {
        Ok(x) => x,
        Err(e) => {
            return Err(e);
        },
    };
    let r10 = match space1(r9, Field::Id) {
        Ok(x) => x,
        Err(e) => {
            return Err(e);
        },
    };
    let (r11, id) = match parse_id(r10) {
        Ok(x) => x,
        Err(e) => {
            return Err(e);
        },
    };
    let msg = match space1(r11, Field::Id) {
        Ok(x) => x,
        Err(e) => {
            return Err(e);
        },
    };
    Ok(
        RawFields {
            severity: sevtok,
            file,
            line: linetok,
            time: tdig,
            unit: talpha,
            component: comp,
            id,
            message: msg,
        },
    )
}

} // verus!
