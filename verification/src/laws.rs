//! The library's laws: rendering a well-formed record and parsing it back
//! yields the record again; a line with no closing bracket on its id never
//! parses; an unrecognized unit suffix degrades to an unset unit; absent
//! filter sets keep nothing.
use vstd::prelude::*;

use crate::digits::{all_digits, dec_rep, digits_val, lemma_dec_rep};
use crate::log::{
    canonical, sev_lit, spec_severity_from, spec_unit_from, unit_code, LineV, Severity, TimeUnit,
};
use crate::parser::{
    at_step, comp_step, file_step, id_step, is_prefix, sev_match, spec_parse_raw, time_tok_split,
    time_tok_step, ws_step, ParseErrV, RawV,
};
use crate::scan::{
    class_pred, find_char, lemma_skip_while, lemma_skip_while_concat, lemma_skip_while_is, ne_pred,
    skip_while, CharClass,
};
use crate::{is_alpha, is_digit, is_space, spec_filter, spec_parse_line};

verus! {

/// A record whose fields can stand in the grammar: the file is non-empty,
/// does not start with whitespace and holds no `(`; the component is one
/// non-empty run of non-whitespace; the id holds no `]`; the message does
/// not start with whitespace.
pub open spec fn line_wf(l: LineV) -> bool {
    &&& l.file.len() > 0
    &&& !is_space(l.file[0])
    &&& (forall|j: int| 0 <= j < l.file.len() ==> #[trigger] l.file[j] != '(')
    &&& l.component.len() > 0
    &&& (forall|j: int| 0 <= j < l.component.len() ==> !is_space(#[trigger] l.component[j]))
    &&& (forall|j: int| 0 <= j < l.id.len() ==> #[trigger] l.id[j] != ']')
    &&& (l.message.len() > 0 ==> !is_space(l.message[0]))
}

/// The record with its time unit replaced.
pub open spec fn with_unit(l: LineV, tu: Option<TimeUnit>) -> LineV {
    LineV {
        severity: l.severity,
        file: l.file,
        line: l.line,
        time: l.time,
        time_unit: tu,
        component: l.component,
        id: l.id,
        message: l.message,
    }
}

/// The canonical form of a record with an arbitrary suffix written between
/// the timestamp digits and the `:` terminator.
pub open spec fn rendered_with(l: LineV, u: Seq<char>) -> Seq<char> {
    sev_lit(l.severity) + seq![' '] + l.file + seq!['('] + dec_rep(l.line as nat) + seq![')', ' ', '@', ' ']
        + dec_rep(l.time as nat) + u + seq![':', ' '] + l.component + seq![' ', '['] + l.id
        + seq![']', ' '] + l.message
}

/// The severity literal at the head of a line is matched, whatever follows.
proof fn lemma_sev_match(v: Severity, rest: Seq<char>)
    ensures
        sev_match(sev_lit(v) + rest) == Some(v),
{
    let s = sev_lit(v) + rest;
    assert(is_prefix(sev_lit(v), s));
    if v != Severity::INFO {
        assert(s[4] == sev_lit(v)[4]);
        assert(!is_prefix(sev_lit(Severity::INFO), s));
    }
    if v == Severity::ERROR || v == Severity::FATAL {
        assert(!is_prefix(sev_lit(Severity::WARNING), s));
    }
    if v == Severity::FATAL {
        assert(!is_prefix(sev_lit(Severity::ERROR), s));
    }
}

/// A single space followed by text not starting with whitespace is consumed
/// as exactly one whitespace run.
proof fn lemma_ws_one(rest: Seq<char>)
    requires
        rest.len() > 0 ==> !is_space(rest[0]),
    ensures
        ws_step(seq![' '] + rest) == Some(rest),
{
    lemma_skip_while_concat(seq![' '], rest, class_pred(CharClass::Space));
    assert((seq![' '] + rest).skip(1) =~= rest);
}

/// `FILE(LINE)` at the head of a line parses into its file and digit tokens.
proof fn lemma_file(file: Seq<char>, dig: Seq<char>, rest: Seq<char>)
    requires
        file.len() > 0,
        forall|j: int| 0 <= j < file.len() ==> #[trigger] file[j] != '(',
        dig.len() > 0,
        all_digits(dig),
    ensures
        file_step(file + seq!['('] + dig + seq![')'] + rest) == Ok::<_, Seq<char>>(
            (file, dig, rest),
        ),
{
    let s = file + seq!['('] + dig + seq![')'] + rest;
    let tail = seq!['('] + dig + seq![')'] + rest;
    assert(s =~= file + tail);
    assert(tail[0] == '(');
    lemma_skip_while_concat(file, tail, class_pred(CharClass::NonParen));
    let k = skip_while(s, class_pred(CharClass::NonParen));
    assert(k == file.len());
    assert(s.take(k) =~= file);
    let after = s.skip(k + 1);
    let tail2 = seq![')'] + rest;
    assert(after =~= dig + tail2);
    assert(tail2[0] == ')');
    lemma_skip_while_concat(dig, tail2, class_pred(CharClass::Digit));
    let d = skip_while(after, class_pred(CharClass::Digit));
    assert(d == dig.len());
    assert(after[d] == ')');
    assert(after.take(d) =~= dig);
    assert(after.skip(d + 1) =~= rest);
}

/// The time token is everything before the first `:`.
proof fn lemma_time_tok(tok: Seq<char>, rest: Seq<char>)
    requires
        forall|j: int| 0 <= j < tok.len() ==> #[trigger] tok[j] != ':',
    ensures
        time_tok_step(tok + seq![':'] + rest) == Ok::<_, ()>((tok, rest)),
{
    let s = tok + seq![':'] + rest;
    let tail = seq![':'] + rest;
    assert(s =~= tok + tail);
    assert(tail[0] == ':');
    lemma_skip_while_concat(tok, tail, ne_pred(':'));
    let k = find_char(s, ':');
    assert(k == tok.len());
    assert(s.take(k) =~= tok);
    assert(s.skip(k + 1) =~= rest);
}

/// A digit run followed by an alphabetic run is a valid time token, split
/// into exactly those two parts.
proof fn lemma_time_split(dig: Seq<char>, u: Seq<char>)
    requires
        dig.len() > 0,
        all_digits(dig),
        forall|j: int| 0 <= j < u.len() ==> is_alpha(#[trigger] u[j]),
    ensures
        time_tok_split(dig + u) == Some((dig, u)),
{
    let tok = dig + u;
    lemma_skip_while_concat(dig, u, class_pred(CharClass::Digit));
    let d = skip_while(tok, class_pred(CharClass::Digit));
    assert(d == dig.len());
    assert(tok.skip(d) =~= u);
    lemma_skip_while_is(u, class_pred(CharClass::Alpha), u.len() as int);
    assert(tok.take(d) =~= dig);
}

/// A non-whitespace run followed by whitespace is consumed as the component.
proof fn lemma_comp(comp: Seq<char>, rest: Seq<char>)
    requires
        comp.len() > 0,
        forall|j: int| 0 <= j < comp.len() ==> !is_space(#[trigger] comp[j]),
        rest.len() > 0,
        is_space(rest[0]),
    ensures
        comp_step(comp + rest) == Some((comp, rest)),
{
    lemma_skip_while_concat(comp, rest, class_pred(CharClass::NonSpace));
    let s = comp + rest;
    let k = skip_while(s, class_pred(CharClass::NonSpace));
    assert(k == comp.len());
    assert(s.take(k) =~= comp);
    assert(s.skip(k) =~= rest);
}

/// `[ID]` at the head of a line parses into the id token.
proof fn lemma_id(id: Seq<char>, rest: Seq<char>)
    requires
        forall|j: int| 0 <= j < id.len() ==> #[trigger] id[j] != ']',
    ensures
        id_step(seq!['['] + id + seq![']'] + rest) == Ok::<_, Seq<char>>((id, rest)),
{
    let s = seq!['['] + id + seq![']'] + rest;
    assert(s[0] == '[');
    let t = s.skip(1);
    let tail = seq![']'] + rest;
    assert(t =~= id + tail);
    assert(tail[0] == ']');
    lemma_skip_while_concat(id, tail, ne_pred(']'));
    let k = find_char(t, ']');
    assert(k == id.len());
    assert(t.take(k) =~= id);
    assert(t.skip(k + 1) =~= rest);
}

/// The canonical severity literal names its own severity when read back.
proof fn lemma_sev_lit_named(v: Severity)
    ensures
        spec_severity_from(sev_lit(v)) == Some(v),
{
    if v == Severity::FATAL {
        assert(sev_lit(Severity::FATAL)[4] != sev_lit(Severity::ERROR)[4]);
        assert(sev_lit(Severity::FATAL) != sev_lit(Severity::ERROR));
    }
}

/// Parsing the canonical form of a well-formed record, with any alphabetic
/// run written as the time-unit suffix, succeeds and yields the record back,
/// its unit set to whatever unit that run names — unset when it names none.
#[verifier::rlimit(100)]
#[verifier::spinoff_prover]
pub proof fn lemma_parse_rendered(l: LineV, u: Seq<char>)
    requires
        line_wf(l),
        forall|j: int| 0 <= j < u.len() ==> is_alpha(#[trigger] u[j]),
    ensures
        spec_parse_line(rendered_with(l, u)) == Ok::<LineV, ParseErrV>(
            with_unit(l, spec_unit_from(u)),
        ),
{
    let s = rendered_with(l, u);
    let lit = sev_lit(l.severity);
    let linedig = dec_rep(l.line as nat);
    let timedig = dec_rep(l.time as nat);
    lemma_dec_rep(l.line as nat);
    lemma_dec_rep(l.time as nat);

    let t14 = l.message;
    let t13 = seq![' '] + t14;
    let t12 = seq!['['] + l.id + seq![']'] + t13;
    let t11 = seq![' '] + t12;
    let t10 = l.component + t11;
    let t9 = seq![' '] + t10;
    let tok = timedig + u;
    let t8 = tok + seq![':'] + t9;
    let t7 = seq![' '] + t8;
    let t6 = seq!['@'] + t7;
    let t5 = seq![' '] + t6;
    let t4 = linedig + seq![')'] + t5;
    let t2 = l.file + seq!['('] + t4;
    let t1 = seq![' '] + t2;
    assert(s =~= lit + t1);

    // Severity literal, then one space.
    lemma_sev_match(l.severity, t1);
    assert(sev_match(s) == Some(l.severity));
    assert(s.skip(lit.len() as int) =~= t1);
    assert(t2[0] == l.file[0]);
    lemma_ws_one(t2);

    // FILE(LINE), one space, `@`, one space.
    lemma_file(l.file, linedig, t5);
    assert(t2 =~= l.file + seq!['('] + linedig + seq![')'] + t5);
    assert(file_step(t2) == Ok::<_, Seq<char>>((l.file, linedig, t5)));
    assert(t6[0] == '@');
    lemma_ws_one(t6);
    assert(t6.skip(1) =~= t7);
    assert(at_step(t6) == Some(t7));
    assert(t8[0] == timedig[0] && is_digit(timedig[0]));
    lemma_ws_one(t8);

    // The time token up to `:`, split into digits and suffix, then one space.
    assert(forall|j: int| 0 <= j < tok.len() ==> #[trigger] tok[j] != ':');
    lemma_time_tok(tok, t9);
    lemma_time_split(timedig, u);
    assert(t10[0] == l.component[0]);
    lemma_ws_one(t10);

    // The component, one space, `[ID]`, one space, then the message.
    lemma_comp(l.component, t11);
    lemma_ws_one(t12);
    lemma_id(l.id, t13);
    assert(t12 =~= seq!['['] + l.id + seq![']'] + t13);
    assert(id_step(t12) == Ok::<_, Seq<char>>((l.id, t13)));
    lemma_ws_one(t14);

    let raw = RawV {
        severity: lit,
        file: l.file,
        line: linedig,
        time: timedig,
        unit: u,
        component: l.component,
        id: l.id,
        message: l.message,
    };
    assert(spec_parse_raw(s) == Ok::<_, ParseErrV>(raw));

    // Coercion: the literal names the severity back, and both digit runs
    // carry exactly the rendered values.
    lemma_sev_lit_named(l.severity);
    assert(digits_val(linedig) == l.line as nat);
    assert(digits_val(timedig) == l.time as nat);
    assert(spec_parse_line(s) == Ok::<LineV, ParseErrV>(with_unit(l, spec_unit_from(u))));
}

/// Round trip without a time unit: a successfully re-rendered record parses
/// back to itself when its unit is unset.
pub proof fn lemma_round_trip_no_unit(l: LineV)
    requires
        line_wf(l),
        l.time_unit is None,
    ensures
        spec_parse_line(canonical(l)) == Ok::<LineV, ParseErrV>(l),
{
    let u = Seq::<char>::empty();
    lemma_parse_rendered(l, u);
    assert(canonical(l) =~= rendered_with(l, u));
    assert(spec_unit_from(u) is None);
    assert(with_unit(l, None) == l);
}

/// Round trip with a recognized time unit: the rendered unit suffix parses
/// back to the same unit.
pub proof fn lemma_round_trip_with_unit(l: LineV)
    requires
        line_wf(l),
        l.time_unit is Some,
    ensures
        spec_parse_line(canonical(l)) == Ok::<LineV, ParseErrV>(l),
{
    let tu = l.time_unit->Some_0;
    let u = unit_code(tu);
    lemma_parse_rendered(l, u);
    assert(canonical(l) =~= rendered_with(l, u));
    assert(spec_unit_from(u) == Some(tu));
    assert(with_unit(l, Some(tu)) == l);
}

/// An unrecognized alphabetic time-unit suffix does not fail the line: it
/// parses to the same record with the unit left unset.
pub proof fn lemma_unknown_unit_parses_unset(l: LineV, u: Seq<char>)
    requires
        line_wf(l),
        forall|j: int| 0 <= j < u.len() ==> is_alpha(#[trigger] u[j]),
        spec_unit_from(u) is None,
    ensures
        spec_parse_line(rendered_with(l, u)) == Ok::<LineV, ParseErrV>(with_unit(l, None)),
{
    lemma_parse_rendered(l, u);
}

/// A line with no `]` anywhere cannot close its id token: it always fails to
/// parse, whatever its other fields hold.
pub proof fn lemma_missing_close_bracket_fails(s: Seq<char>)
    requires
        forall|j: int| 0 <= j < s.len() ==> #[trigger] s[j] != ']',
    ensures
        spec_parse_line(s) is Err,
{
    if spec_parse_raw(s) is Ok {
        let v = sev_match(s)->Some_0;
        let r1 = s.skip(sev_lit(v).len() as int);
        let r2 = ws_step(r1)->Some_0;
        let r3 = file_step(r2)->Ok_0.2;
        let r4 = ws_step(r3)->Some_0;
        let r5 = at_step(r4)->Some_0;
        let r6 = ws_step(r5)->Some_0;
        let r7 = time_tok_step(r6)->Ok_0.1;
        let r8 = ws_step(r7)->Some_0;
        let r9 = comp_step(r8)->Some_0.1;
        let r10 = ws_step(r9)->Some_0;

        // Every remainder is a suffix of the line, so it too holds no `]`.
        assert(forall|j: int| 0 <= j < r1.len() ==> #[trigger] r1[j] != ']');
        lemma_ws_suffix_free(r1, r2);
        lemma_file_suffix_free(r2, r3);
        lemma_ws_suffix_free(r3, r4);
        assert(forall|j: int| 0 <= j < r5.len() ==> #[trigger] r5[j] != ']');
        lemma_ws_suffix_free(r5, r6);
        lemma_time_suffix_free(r6, r7);
        lemma_ws_suffix_free(r7, r8);
        lemma_comp_suffix_free(r8, r9);
        lemma_ws_suffix_free(r9, r10);

        // But a successful id step needs a `]` inside `r10`.
        let t = r10.skip(1);
        let k = find_char(t, ']');
        lemma_skip_while(t, ne_pred(']'));
        assert(id_step(r10) is Ok);
        assert(k < t.len());
        assert(t[k] == ']');
        assert(false);
    }
}

/// No `]` in the input means none in the remainder a whitespace step leaves.
proof fn lemma_ws_suffix_free(a: Seq<char>, b: Seq<char>)
    requires
        forall|j: int| 0 <= j < a.len() ==> #[trigger] a[j] != ']',
        ws_step(a) == Some(b),
    ensures
        forall|j: int| 0 <= j < b.len() ==> #[trigger] b[j] != ']',
{
    let k = skip_while(a, class_pred(CharClass::Space));
    lemma_skip_while(a, class_pred(CharClass::Space));
    assert(forall|j: int| 0 <= j < b.len() ==> b[j] == a[j + k]);
}

/// No `]` in the input means none in the remainder the file step leaves.
proof fn lemma_file_suffix_free(a: Seq<char>, b: Seq<char>)
    requires
        forall|j: int| 0 <= j < a.len() ==> #[trigger] a[j] != ']',
        file_step(a) is Ok,
        b == file_step(a)->Ok_0.2,
    ensures
        forall|j: int| 0 <= j < b.len() ==> #[trigger] b[j] != ']',
{
    let k = skip_while(a, class_pred(CharClass::NonParen));
    lemma_skip_while(a, class_pred(CharClass::NonParen));
    let after = a.skip(k + 1);
    assert(forall|j: int| 0 <= j < after.len() ==> after[j] == a[j + k + 1]);
    let d = skip_while(after, class_pred(CharClass::Digit));
    lemma_skip_while(after, class_pred(CharClass::Digit));
    assert(forall|j: int| 0 <= j < b.len() ==> b[j] == after[j + d + 1]);
}

/// No `]` in the input means none in the remainder the time step leaves.
proof fn lemma_time_suffix_free(a: Seq<char>, b: Seq<char>)
    requires
        forall|j: int| 0 <= j < a.len() ==> #[trigger] a[j] != ']',
        time_tok_step(a) is Ok,
        b == time_tok_step(a)->Ok_0.1,
    ensures
        forall|j: int| 0 <= j < b.len() ==> #[trigger] b[j] != ']',
{
    let k = find_char(a, ':');
    lemma_skip_while(a, ne_pred(':'));
    assert(forall|j: int| 0 <= j < b.len() ==> b[j] == a[j + k + 1]);
}

/// No `]` in the input means none in the remainder the component step leaves.
proof fn lemma_comp_suffix_free(a: Seq<char>, b: Seq<char>)
    requires
        forall|j: int| 0 <= j < a.len() ==> #[trigger] a[j] != ']',
        comp_step(a) is Some,
        b == comp_step(a)->Some_0.1,
    ensures
        forall|j: int| 0 <= j < b.len() ==> #[trigger] b[j] != ']',
{
    let k = skip_while(a, class_pred(CharClass::NonSpace));
    lemma_skip_while(a, class_pred(CharClass::NonSpace));
    assert(forall|j: int| 0 <= j < b.len() ==> b[j] == a[j + k]);
}

/// With both filter sets absent, no line whatsoever is kept.
pub proof fn lemma_filter_absent_keeps_nothing(l: LineV)
    ensures
        !spec_filter(l, None, None),
{
}

} // verus!
