//! Reading of the kernel's pressure stall information: which series and
//! averaging window each `avgN=` field of a `/proc/pressure/*` file fills.
//! The values are decimal fractions; reading them as numbers is the
//! runtime's.

use vstd::prelude::*;
use crate::text::{after_prefix, split_ws, str_eq, strip_text_prefix, words, push_char};

verus! {

/// A pressure series: a resource, and whether some or all tasks stalled.
#[derive(Debug, Clone, Copy, PartialEq, Eq, Structural)]
pub enum PressureSeries {
    CpuSome,
    MemorySome,
    MemoryFull,
    IoSome,
    IoFull,
}

/// An averaging window, in seconds.
#[derive(Debug, Clone, Copy, PartialEq, Eq, Structural)]
pub enum PressureWindow {
    Avg10,
    Avg60,
    Avg300,
}

/// One field found in a pressure file: where it goes and its text.
pub struct PressureField {
    pub series: PressureSeries,
    pub window: PressureWindow,
    pub text: String,
}

/// The series a source file and a line kind (`some` or `full`) fill.
pub open spec fn series_of(source: Seq<char>, kind: Seq<char>) -> Option<PressureSeries> {
    if source == "cpu"@ && kind == "some"@ {
        Some(PressureSeries::CpuSome)
    } else if source == "memory"@ && kind == "some"@ {
        Some(PressureSeries::MemorySome)
    } else if source == "memory"@ && kind == "full"@ {
        Some(PressureSeries::MemoryFull)
    } else if source == "io"@ && kind == "some"@ {
        Some(PressureSeries::IoSome)
    } else if source == "io"@ && kind == "full"@ {
        Some(PressureSeries::IoFull)
    } else {
        None
    }
}

/// The window and value text of a word `avg10=…`, `avg60=…` or `avg300=…`.
pub open spec fn window_of(word: Seq<char>) -> Option<(PressureWindow, Seq<char>)> {
    match after_prefix(word, "avg10="@) {
        Some(v) => Some((PressureWindow::Avg10, v)),
        None => match after_prefix(word, "avg60="@) {
            Some(v) => Some((PressureWindow::Avg60, v)),
            None => match after_prefix(word, "avg300="@) {
                Some(v) => Some((PressureWindow::Avg300, v)),
                None => None,
            },
        },
    }
}

/// The fields of the words after a line's kind.
pub open spec fn word_fields(series: PressureSeries, ws: Seq<Seq<char>>) -> Seq<(PressureSeries, PressureWindow, Seq<char>)>
    decreases ws.len(),
{
    if ws.len() == 0 {
        seq![]
    } else {
        word_fields(series, ws.drop_last()) + match window_of(ws.last()) {
            Some((w, v)) => seq![(series, w, v)],
            None => seq![],
        }
    }
}

/// The fields of one line: its first word is its kind.
pub open spec fn line_fields(source: Seq<char>, line: Seq<char>) -> Seq<(PressureSeries, PressureWindow, Seq<char>)> {
    let ws = split_ws(line);
    if ws.len() == 0 {
        seq![]
    } else {
        match series_of(source, ws[0]) {
            Some(s) => word_fields(s, ws.drop_first()),
            None => seq![],
        }
    }
}

/// The lines of `s` after a pending line `cur` and the lines `acc` already
/// found.
pub open spec fn lines_acc(s: Seq<char>, cur: Seq<char>, acc: Seq<Seq<char>>) -> Seq<Seq<char>>
    decreases s.len(),
{
    if s.len() == 0 {
        if cur.len() > 0 {
            acc.push(cur)
        } else {
            acc
        }
    } else if s[0] == '\n' {
        lines_acc(s.drop_first(), seq![], acc.push(cur))
    } else {
        lines_acc(s.drop_first(), cur.push(s[0]), acc)
    }
}

/// The lines of `s` (`str::lines`, up to the carriage returns that end
/// lines, which are white space to what reads the lines).
pub open spec fn split_lines(s: Seq<char>) -> Seq<Seq<char>> {
    lines_acc(s, seq![], seq![])
}

/// The fields of a whole file, line by line.
pub open spec fn file_fields(source: Seq<char>, lines: Seq<Seq<char>>) -> Seq<(PressureSeries, PressureWindow, Seq<char>)>
    decreases lines.len(),
{
    if lines.len() == 0 {
        seq![]
    } else {
        file_fields(source, lines.drop_last()) + line_fields(source, lines.last())
    }
}

pub open spec fn fields_view(v: Seq<PressureField>) -> Seq<(PressureSeries, PressureWindow, Seq<char>)> {
    v.map_values(|f: PressureField| (f.series, f.window, f.text@))
}

fn series_for(source: &str, kind: &str) -> (r: Option<PressureSeries>)
    ensures
        r == series_of(source@, kind@),
{
    if str_eq(source, "cpu") && str_eq(kind, "some") {
        Some(PressureSeries::CpuSome)
    } else if str_eq(source, "memory") && str_eq(kind, "some") {
        Some(PressureSeries::MemorySome)
    } else if str_eq(source, "memory") && str_eq(kind, "full") {
        Some(PressureSeries::MemoryFull)
    } else if str_eq(source, "io") && str_eq(kind, "some") {
        Some(PressureSeries::IoSome)
    } else if str_eq(source, "io") && str_eq(kind, "full") {
        Some(PressureSeries::IoFull)
    } else {
        None
    }
}

fn window_for(word: &str) -> (r: Option<(PressureWindow, String)>)
    ensures
        match r {
            Some((w, v)) => window_of(word@) == Some((w, v@)),
            None => window_of(word@) is None,
        },
{
    match strip_text_prefix(word, "avg10=") {
        Some(v) => Some((PressureWindow::Avg10, v)),
        None => match strip_text_prefix(word, "avg60=") {
            Some(v) => Some((PressureWindow::Avg60, v)),
            None => match strip_text_prefix(word, "avg300=") {
                Some(v) => Some((PressureWindow::Avg300, v)),
                None => None,
            },
        },
    }
}

/// The fields of one line (see `line_fields`), appended to `out`.
fn push_line_fields(out: &mut Vec<PressureField>, source: &str, line: &str)
    ensures
        fields_view(final(out)@) == fields_view(old(out)@) + line_fields(source@, line@),
{
    let ws = words(line);
    let ghost all = split_ws(line@);
    if ws.len() == 0 {
        assert(fields_view(out@) =~= fields_view(out@) + Seq::<(PressureSeries, PressureWindow, Seq<char>)>::empty());
        return;
    }
    let series = match series_for(source, ws[0].as_str()) {
        Some(s) => s,
        None => {
            assert(fields_view(out@) =~= fields_view(out@) + Seq::<(PressureSeries, PressureWindow, Seq<char>)>::empty());
            return;
        },
    };
    let ghost start = fields_view(out@);
    let ghost rest = all.drop_first();
    let n = ws.len();
    for i in 1..n
        invariant
            n == ws@.len(),
            n == all.len(),
            rest == all.drop_first(),
            all == split_ws(line@),
            forall|j: int| 0 <= j < n ==> #[trigger] ws@[j]@ == all[j],
            fields_view(out@) == start + word_fields(series, rest.take(i - 1)),
    {
        proof {
            assert(rest.take(i as int).drop_last() =~= rest.take(i - 1));
            assert(rest.take(i as int).last() == ws@[i as int]@);
        }
        let ghost before = fields_view(out@);
        match window_for(ws[i].as_str()) {
            Some((w, v)) => {
                let ghost vv = v@;
                out.push(PressureField { series, window: w, text: v });
                assert(fields_view(out@) =~= before + seq![(series, w, vv)]);
            },
            None => {
                assert(fields_view(out@) =~= before + Seq::<(PressureSeries, PressureWindow, Seq<char>)>::empty());
            },
        }
    }
    proof {
        assert(rest.take(n - 1) =~= rest);
    }
}

/// The fields of a pressure file from `source` (`cpu`, `memory` or `io`),
/// in file order; a later field for the same series and window overrides
/// an earlier one.
pub fn pressure_fields(source: &str, content: &str) -> (r: Vec<PressureField>)
    ensures
        fields_view(r@) == file_fields(source@, split_lines(content@)),
{
    let chars = crate::text::chars_of(content);
    let n = chars.len();
    let mut out: Vec<PressureField> = Vec::new();
    let mut line = String::new();
    let mut i: usize = 0;
    let ghost mut done: Seq<Seq<char>> = seq![];
    proof {
        assert(content@.skip(0) =~= content@);
        assert(line@ =~= Seq::<char>::empty());
    }
    while i < n
        invariant
            chars@ == content@,
            n == content@.len(),
            i <= n,
            split_lines(content@) == lines_acc(content@.skip(i as int), line@, done),
            fields_view(out@) == file_fields(source@, done),
        decreases n - i,
    {
        let c = chars[i];
        proof {
            assert(content@.skip(i as int)[0] == c);
            assert(content@.skip(i as int).drop_first() =~= content@.skip(i + 1));
        }
        if c == '\n' {
            let ghost before = done;
            push_line_fields(&mut out, source, line.as_str());
            proof {
                done = done.push(line@);
                assert(done.drop_last() =~= before);
            }
            line = String::new();
            assert(line@ =~= Seq::<char>::empty());
        } else {
            push_char(&mut line, c);
        }
        i = i + 1;
    }
    proof {
        assert(content@.skip(i as int).len() == 0);
    }
    if line.unicode_len() > 0 {
        let ghost before = done;
        push_line_fields(&mut out, source, line.as_str());
        proof {
            done = done.push(line@);
            assert(done.drop_last() =~= before);
        }
    }
    out
}

} // verus!
