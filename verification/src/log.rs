//! The typed record model: severities, time units, one parsed line, and the
//! ordered log of parsed lines, together with the canonical textual form.
use vstd::prelude::*;

use crate::digits::{dec_rep, u64_to_string};
use crate::scan::str_eq;

verus! {

/// Diagnostic level of a log line.
#[allow(non_camel_case_types)]
#[derive(Debug, Copy, Clone, PartialEq, Eq, Structural)]
pub enum Severity {
    INFO,
    WARNING,
    ERROR,
    FATAL,
}

/// Magnitude qualifier of a timestamp.
#[derive(Debug, Copy, Clone, PartialEq, Eq, Structural)]
pub enum TimeUnit {
    Second,
    Millisecond,
    Microsecond,
    Nanosecond,
    Picosecond,
    Femtosecond,
}

/// Canonical literal of a severity, as written in the log grammar.
pub open spec fn sev_lit(s: Severity) -> Seq<char> {
    match s {
        Severity::INFO => seq!['U', 'V', 'M', '_', 'I', 'N', 'F', 'O'],
        Severity::WARNING => seq!['U', 'V', 'M', '_', 'W', 'A', 'R', 'N', 'I', 'N', 'G'],
        Severity::ERROR => seq!['U', 'V', 'M', '_', 'E', 'R', 'R', 'O', 'R'],
        Severity::FATAL => seq!['U', 'V', 'M', '_', 'F', 'A', 'T', 'A', 'L'],
    }
}

/// The severity named by a token: the canonical literal or an accepted alias.
pub open spec fn spec_severity_from(s: Seq<char>) -> Option<Severity> {
    if s == sev_lit(Severity::INFO) || s == seq!['I', 'N', 'F', 'O'] || s == seq!['i', 'n', 'f', 'o'] {
        Some(Severity::INFO)
    } else if s == sev_lit(Severity::WARNING) || s == seq!['W', 'A', 'R', 'N', 'I', 'N', 'G'] || s
        == seq!['W', 'A', 'R', 'N'] || s == seq!['w', 'a', 'r', 'n'] || s == seq!['w', 'a', 'r', 'n', 'i', 'n', 'g'] {
        Some(Severity::WARNING)
    } else if s == sev_lit(Severity::ERROR) || s == seq!['E', 'R', 'R', 'O', 'R'] || s == seq!['e', 'r', 'r', 'o', 'r'] {
        Some(Severity::ERROR)
    } else if s == sev_lit(Severity::FATAL) || s == seq!['F', 'A', 'T', 'A', 'L'] || s == seq!['f', 'a', 't', 'a', 'l'] {
        Some(Severity::FATAL)
    } else {
        None
    }
}

/// Short suffix code of a time unit, as written after a timestamp.
pub open spec fn unit_code(u: TimeUnit) -> Seq<char> {
    match u {
        TimeUnit::Second => seq!['s'],
        TimeUnit::Millisecond => seq!['m', 's'],
        TimeUnit::Microsecond => seq!['u', 's'],
        TimeUnit::Nanosecond => seq!['n', 's'],
        TimeUnit::Picosecond => seq!['p', 's'],
        TimeUnit::Femtosecond => seq!['f', 's'],
    }
}

/// The time unit named by a suffix code, if it is one of the known codes.
pub open spec fn spec_unit_from(s: Seq<char>) -> Option<TimeUnit> {
    if s == unit_code(TimeUnit::Second) {
        Some(TimeUnit::Second)
    } else if s == unit_code(TimeUnit::Millisecond) {
        Some(TimeUnit::Millisecond)
    } else if s == unit_code(TimeUnit::Microsecond) {
        Some(TimeUnit::Microsecond)
    } else if s == unit_code(TimeUnit::Nanosecond) {
        Some(TimeUnit::Nanosecond)
    } else if s == unit_code(TimeUnit::Picosecond) {
        Some(TimeUnit::Picosecond)
    } else if s == unit_code(TimeUnit::Femtosecond) {
        Some(TimeUnit::Femtosecond)
    } else {
        None
    }
}

impl Severity {
    /// Read a severity token: the canonical literal or an accepted alias.
    pub fn from_str(s: &str) -> (r: Option<Severity>)
        ensures
            r == spec_severity_from(s@),
    {
        proof {
            reveal_strlit("UVM_INFO");
            reveal_strlit("INFO");
            reveal_strlit("info");
            reveal_strlit("UVM_WARNING");
            reveal_strlit("WARNING");
            reveal_strlit("WARN");
            reveal_strlit("warn");
            reveal_strlit("warning");
            reveal_strlit("UVM_ERROR");
            reveal_strlit("ERROR");
            reveal_strlit("error");
            reveal_strlit("UVM_FATAL");
            reveal_strlit("FATAL");
            reveal_strlit("fatal");
            assert("UVM_INFO"@ =~= sev_lit(Severity::INFO));
            assert("INFO"@ =~= seq!['I', 'N', 'F', 'O']);
            assert("info"@ =~= seq!['i', 'n', 'f', 'o']);
            assert("UVM_WARNING"@ =~= sev_lit(Severity::WARNING));
            assert("WARNING"@ =~= seq!['W', 'A', 'R', 'N', 'I', 'N', 'G']);
            assert("WARN"@ =~= seq!['W', 'A', 'R', 'N']);
            assert("warn"@ =~= seq!['w', 'a', 'r', 'n']);
            assert("warning"@ =~= seq!['w', 'a', 'r', 'n', 'i', 'n', 'g']);
            assert("UVM_ERROR"@ =~= sev_lit(Severity::ERROR));
            assert("ERROR"@ =~= seq!['E', 'R', 'R', 'O', 'R']);
            assert("error"@ =~= seq!['e', 'r', 'r', 'o', 'r']);
            assert("UVM_FATAL"@ =~= sev_lit(Severity::FATAL));
            assert("FATAL"@ =~= seq!['F', 'A', 'T', 'A', 'L']);
            assert("fatal"@ =~= seq!['f', 'a', 't', 'a', 'l']);
        }
        if str_eq(s, "UVM_INFO") || str_eq(s, "INFO") || str_eq(s, "info") {
            Some(Severity::INFO)
        } else if str_eq(s, "UVM_WARNING") || str_eq(s, "WARNING") || str_eq(s, "WARN") || str_eq(
            s,
            "warn",
        ) || str_eq(s, "warning") {
            Some(Severity::WARNING)
        } else if str_eq(s, "UVM_ERROR") || str_eq(s, "ERROR") || str_eq(s, "error") {
            Some(Severity::ERROR)
        } else if str_eq(s, "UVM_FATAL") || str_eq(s, "FATAL") || str_eq(s, "fatal") {
            Some(Severity::FATAL)
        } else {
            None
        }
    }

    /// Canonical literal of this severity.
    pub fn as_str(self) -> (r: &'static str)
        ensures
            r@ == sev_lit(self),
    {
        proof {
            reveal_strlit("UVM_INFO");
            reveal_strlit("UVM_WARNING");
            reveal_strlit("UVM_ERROR");
            reveal_strlit("UVM_FATAL");
            assert("UVM_INFO"@ =~= sev_lit(Severity::INFO));
            assert("UVM_WARNING"@ =~= sev_lit(Severity::WARNING));
            assert("UVM_ERROR"@ =~= sev_lit(Severity::ERROR));
            assert("UVM_FATAL"@ =~= sev_lit(Severity::FATAL));
        }
        match self {
            Severity::INFO => "UVM_INFO",
            Severity::WARNING => "UVM_WARNING",
            Severity::ERROR => "UVM_ERROR",
            Severity::FATAL => "UVM_FATAL",
        }
    }
}

impl TimeUnit {
    /// Read a time-unit suffix code.
    pub fn from_str(s: &str) -> (r: Option<TimeUnit>)
        ensures
            r == spec_unit_from(s@),
    {
        proof {
            reveal_strlit("s");
            reveal_strlit("ms");
            reveal_strlit("us");
            reveal_strlit("ns");
            reveal_strlit("ps");
            reveal_strlit("fs");
            assert("s"@ =~= unit_code(TimeUnit::Second));
            assert("ms"@ =~= unit_code(TimeUnit::Millisecond));
            assert("us"@ =~= unit_code(TimeUnit::Microsecond));
            assert("ns"@ =~= unit_code(TimeUnit::Nanosecond));
            assert("ps"@ =~= unit_code(TimeUnit::Picosecond));
            assert("fs"@ =~= unit_code(TimeUnit::Femtosecond));
        }
        if str_eq(s, "s") {
            Some(TimeUnit::Second)
        } else if str_eq(s, "ms") {
            Some(TimeUnit::Millisecond)
        } else if str_eq(s, "us") {
            Some(TimeUnit::Microsecond)
        } else if str_eq(s, "ns") {
            Some(TimeUnit::Nanosecond)
        } else if str_eq(s, "ps") {
            Some(TimeUnit::Picosecond)
        } else if str_eq(s, "fs") {
            Some(TimeUnit::Femtosecond)
        } else {
            None
        }
    }

    /// Suffix code of this time unit.
    pub fn as_str(self) -> (r: &'static str)
        ensures
            r@ == unit_code(self),
    {
        proof {
            reveal_strlit("s");
            reveal_strlit("ms");
            reveal_strlit("us");
            reveal_strlit("ns");
            reveal_strlit("ps");
            reveal_strlit("fs");
            assert("s"@ =~= unit_code(TimeUnit::Second));
            assert("ms"@ =~= unit_code(TimeUnit::Millisecond));
            assert("us"@ =~= unit_code(TimeUnit::Microsecond));
            assert("ns"@ =~= unit_code(TimeUnit::Nanosecond));
            assert("ps"@ =~= unit_code(TimeUnit::Picosecond));
            assert("fs"@ =~= unit_code(TimeUnit::Femtosecond));
        }
        match self {
            TimeUnit::Second => "s",
            TimeUnit::Millisecond => "ms",
            TimeUnit::Microsecond => "us",
            TimeUnit::Nanosecond => "ns",
            TimeUnit::Picosecond => "ps",
            TimeUnit::Femtosecond => "fs",
        }
    }
}

/// Mathematical model of one parsed line.
pub ghost struct LineV {
    pub severity: Severity,
    pub file: Seq<char>,
    pub line: u32,
    pub time: u64,
    pub time_unit: Option<TimeUnit>,
    pub component: Seq<char>,
    pub id: Seq<char>,
    pub message: Seq<char>,
}

/// One parsed log line.
#[derive(Debug, Clone, PartialEq)]
pub struct Line {
    pub severity: Severity,
    pub file: String,
    pub line: u32,
    pub time: u64,
    pub time_unit: Option<TimeUnit>,
    pub component: String,
    pub id: String,
    pub message: String,
}

impl View for Line {
    type V = LineV;

    open spec fn view(&self) -> LineV {
        LineV {
            severity: self.severity,
            file: self.file@,
            line: self.line,
            time: self.time,
            time_unit: self.time_unit,
            component: self.component@,
            id: self.id@,
            message: self.message@,
        }
    }
}

/// Suffix written for an optional time unit: its code, or nothing.
pub open spec fn unit_suffix(u: Option<TimeUnit>) -> Seq<char> {
    match u {
        Some(t) => unit_code(t),
        None => Seq::<char>::empty(),
    }
}

/// Canonical textual form of a line, reassembled exactly per the grammar.
pub open spec fn canonical(l: LineV) -> Seq<char> {
    sev_lit(l.severity) + seq![' '] + l.file + seq!['('] + dec_rep(l.line as nat) + seq![')', ' ', '@', ' ']
        + dec_rep(l.time as nat) + unit_suffix(l.time_unit) + seq![':', ' '] + l.component + seq![' ', '[']
        + l.id + seq![']', ' '] + l.message
}

impl Line {
    /// Render this line in its canonical textual form.
    pub fn render(&self) -> (r: String)
        ensures
            r@ == canonical(self@),
    {
        let mut s = String::from_str(self.severity.as_str());
        s.append(" ");
        s.append(self.file.as_str());
        s.append("(");
        let line_dec = u64_to_string(self.line as u64);
        s.append(line_dec.as_str());
        s.append(") @ ");
        let time_dec = u64_to_string(self.time);
        s.append(time_dec.as_str());
        match self.time_unit {
            Some(u) => s.append(u.as_str()),
            None => (),
        }
        s.append(": ");
        s.append(self.component.as_str());
        s.append(" [");
        s.append(self.id.as_str());
        s.append("] ");
        s.append(self.message.as_str());
        proof {
            reveal_strlit(" ");
            reveal_strlit("(");
            reveal_strlit(") @ ");
            reveal_strlit(": ");
            reveal_strlit(" [");
            reveal_strlit("] ");
            assert(" "@ =~= seq![' ']);
            assert("("@ =~= seq!['(']);
            assert(") @ "@ =~= seq![')', ' ', '@', ' ']);
            assert(": "@ =~= seq![':', ' ']);
            assert(" ["@ =~= seq![' ', '[']);
            assert("] "@ =~= seq![']', ' ']);
            assert(s@ =~= canonical(self@));
        }
        s
    }
}

/// The ordered, append-only collection of parsed lines, in file order.
#[derive(Debug, Clone)]
pub struct Log {
    logs: Vec<Line>,
}

impl View for Log {
    type V = Seq<LineV>;

    closed spec fn view(&self) -> Seq<LineV> {
        self.logs@.map_values(|l: Line| l@)
    }
}

impl Log {
    /// Create an empty log.
    pub fn new() -> (r: Log)
        ensures
            r@ == Seq::<LineV>::empty(),
    {
        let r = Log { logs: Vec::new() };
        proof {
            assert(r@ =~= Seq::<LineV>::empty());
        }
        r
    }

    /// Append one line at the end, keeping insertion order.
    pub fn push(&mut self, line: Line)
        ensures
            final(self)@ == old(self)@.push(line@),
    {
        self.logs.push(line);
        proof {
            assert(self@ =~= old(self)@.push(line@));
        }
    }

    /// Number of lines held.
    pub fn len(&self) -> (r: usize)
        ensures
            r == self@.len(),
    {
        self.logs.len()
    }

    /// The line at one position of the insertion order.
    pub fn get(&self, i: usize) -> (r: &Line)
        requires
            i < self@.len(),
        ensures
            r@ == self@[i as int],
    {
        &self.logs[i]
    }

    /// The sub-log of lines kept by the optional id and severity sets, in the
    /// same order.
    pub fn filtered(&self, ids: &Option<Vec<String>>, sevs: &Option<Vec<Severity>>) -> (r: Log)
        ensures
            r@ == self@.filter(
                crate::filter_pred(crate::ids_view(*ids), crate::sevs_view(*sevs)),
            ),
    {
        let ghost pred = crate::filter_pred(crate::ids_view(*ids), crate::sevs_view(*sevs));
        let mut out = Log::new();
        let n = self.len();
        let mut i: usize = 0;
        proof {
            reveal(Seq::filter);
            assert(self@.take(0).filter(pred) =~= Seq::<LineV>::empty());
        }
        while i < n
            invariant
                0 <= i <= n,
                n == self@.len(),
                out@ == self@.take(i as int).filter(pred),
                pred == crate::filter_pred(crate::ids_view(*ids), crate::sevs_view(*sevs)),
            decreases n - i,
        {
            let line = self.get(i);
            proof {
                reveal(Seq::filter);
                assert(self@.take(i + 1).drop_last() =~= self@.take(i as int));
                assert(self@.take(i + 1).last() == self@[i as int]);
            }
            if crate::filter(line, ids, sevs) {
                out.push(line.duplicate());
            }
            i = i + 1;
        }
        proof {
            assert(self@.take(n as int) =~= self@);
        }
        out
    }
}

impl Line {
    /// An equal copy of this line.
    pub fn duplicate(&self) -> (r: Line)
        ensures
            r@ == self@,
    {
        Line {
            severity: self.severity,
            file: self.file.clone(),
            line: self.line,
            time: self.time,
            time_unit: self.time_unit,
            component: self.component.clone(),
            id: self.id.clone(),
            message: self.message.clone(),
        }
    }
}

} // verus!
