use vstd::prelude::*;
use crate::config::opt_view;
use crate::export::{lemma_views_push, views, zero_padded, zero_padded_string};
use crate::outcome::UrlTestResult;
use crate::text::{decimal_of, decimal_string, pad_right, padded, truncate_string, truncated};

verus! {

broadcast use lemma_views_push;

/// The column separator of the report tables.
pub open spec fn sep() -> Seq<char> {
    " | "@
}

/// A duration in nanoseconds rounded to the nearest hundredth of a second, halves up.
pub open spec fn centis_of(nanos: nat) -> nat {
    (nanos / 5_000_000 + 1) / 2
}

/// A duration as seconds with two decimals and an `s`.
pub open spec fn duration_text(nanos: nat) -> Seq<char> {
    decimal_of(centis_of(nanos) / 100) + "."@ + zero_padded(centis_of(nanos) % 100, 2) + "s"@
}

/// The pass/fail cell: the word, colored when asked, taking seven visible characters.
pub open spec fn passed_cell(passed: bool, color: bool) -> Seq<char> {
    let word = if passed {
        "PASS"@
    } else {
        "FAIL"@
    };
    if color {
        let start = if passed {
            "\x1b[32m"@
        } else {
            "\x1b[31m"@
        };
        padded(start + word + "\x1b[0m"@, 16)
    } else {
        padded(word, 7)
    }
}

/// The table row of a result.
pub open spec fn row_text(r: UrlTestResult, color: bool) -> Seq<char> {
    let state = match r.state_param {
        Some(s) => s@,
        None => "N/A"@,
    };
    let status = match r.status_code {
        Some(c) => decimal_of(c as nat),
        None => "N/A"@,
    };
    let error = match r.error_message {
        Some(e) => e@,
        None => "None"@,
    };
    padded(truncated(r.environment_name@, 10), 10) + sep() + padded(truncated(state, 18), 20)
        + sep() + padded(status, 10) + sep() + passed_cell(r.passed, color) + sep() + padded(
        duration_text(r.duration_nanos as nat),
        10,
    ) + sep() + padded(truncated(error, 58), 60)
}

/// The header line of a table.
pub open spec fn header_text() -> Seq<char> {
    padded("Env"@, 10) + sep() + padded("State"@, 20) + sep() + padded("Status"@, 10) + sep()
        + padded("Passed"@, 7) + sep() + padded("Duration"@, 10) + sep() + padded(
        "Error Message"@,
        60,
    )
}

/// The rule under a table's header.
pub open spec fn rule_text() -> Seq<char> {
    Seq::new(128, |i: int| '-')
}

/// A duration as seconds with two decimals and an `s`.
pub fn duration_string(nanos: u64) -> (r: String)
    ensures
        r@ == duration_text(nanos as nat),
{
    let centis: u64 = (nanos / 5_000_000 + 1) / 2;
    let mut r = decimal_string(centis / 100);
    r.append(".");
    let frac = zero_padded_string(centis % 100, 2);
    r.append(frac.as_str());
    r.append("s");
    r
}

/// The table row of a result, with the pass/fail word colored when `color` is set.
pub fn format_result_row(res: &UrlTestResult, color: bool) -> (r: String)
    ensures
        r@ == row_text(*res, color),
{
    let env = truncate_string(res.environment_name.as_str(), 10);
    let mut r = pad_right(env.as_str(), 10);
    r.append(" | ");
    let state = match &res.state_param {
        Some(s) => truncate_string(s.as_str(), 18),
        None => truncate_string("N/A", 18),
    };
    r.append(pad_right(state.as_str(), 20).as_str());
    r.append(" | ");
    let status = match res.status_code {
        Some(c) => decimal_string(c as u64),
        None => String::from_str("N/A"),
    };
    r.append(pad_right(status.as_str(), 10).as_str());
    r.append(" | ");
    let word = if res.passed {
        "PASS"
    } else {
        "FAIL"
    };
    let cell = if color {
        let mut c = String::from_str(
            if res.passed {
                "\x1b[32m"
            } else {
                "\x1b[31m"
            },
        );
        c.append(word);
        c.append("\x1b[0m");
        pad_right(c.as_str(), 16)
    } else {
        pad_right(word, 7)
    };
    r.append(cell.as_str());
    r.append(" | ");
    let duration = duration_string(res.duration_nanos);
    r.append(pad_right(duration.as_str(), 10).as_str());
    r.append(" | ");
    let error = match &res.error_message {
        Some(e) => truncate_string(e.as_str(), 58),
        None => truncate_string("None", 58),
    };
    r.append(pad_right(error.as_str(), 60).as_str());
    r
}

/// The header line of a table.
pub fn report_header() -> (r: String)
    ensures
        r@ == header_text(),
{
    let mut r = pad_right("Env", 10);
    r.append(" | ");
    r.append(pad_right("State", 20).as_str());
    r.append(" | ");
    r.append(pad_right("Status", 10).as_str());
    r.append(" | ");
    r.append(pad_right("Passed", 7).as_str());
    r.append(" | ");
    r.append(pad_right("Duration", 10).as_str());
    r.append(" | ");
    r.append(pad_right("Error Message", 60).as_str());
    r
}

/// The rule under a table's header.
pub fn report_rule() -> (r: String)
    ensures
        r@ == rule_text(),
{
    let mut r = String::new();
    let mut k: usize = 0;
    while k < 128
        invariant
            k <= 128,
            r@ == Seq::new(k as nat, |i: int| '-'),
        decreases 128 - k,
    {
        r.append("-");
        proof {
            reveal_strlit("-");
        }
        assert(r@ =~= Seq::new((k + 1) as nat, |i: int| '-'));
        k = k + 1;
    }
    r
}

} // verus!

verus! {

/// The lines of a table: header, rule, then one row per result in order.
pub open spec fn table_lines(results: Seq<UrlTestResult>, color: bool) -> Seq<Seq<char>> {
    seq![header_text(), rule_text()] + Seq::new(
        results.len(),
        |i: int| row_text(results[i], color),
    )
}

/// The lines of the report: the passing table, or a note that nothing passed, then the
/// failing table when anything failed. Each title follows an empty line.
pub open spec fn report_lines_of(
    passing: Seq<UrlTestResult>,
    failing: Seq<UrlTestResult>,
    color: bool,
) -> Seq<Seq<char>> {
    let first = if passing.len() > 0 {
        seq![Seq::empty(), "--- Passing Tests Report ("@ + decimal_of(passing.len()) + ") ---"@]
            + table_lines(passing, color) + seq![
            Seq::empty(),
            "--- Passing Tests Report End ---"@,
        ]
    } else {
        seq![Seq::empty(), "--- No Passing Tests Detected ---"@]
    };
    let second = if failing.len() > 0 {
        seq![Seq::empty(), "--- Failing Tests Report ("@ + decimal_of(failing.len()) + ") ---"@]
            + table_lines(failing, color) + seq![
            Seq::empty(),
            "--- Failing Tests Report End ---"@,
        ]
    } else {
        Seq::empty()
    };
    first + second
}

/// Appends the lines of a table to `lines`.
fn push_table(lines: &mut Vec<String>, results: &Vec<UrlTestResult>, color: bool)
    ensures
        views(final(lines)@) == views(old(lines)@) + table_lines(results@, color),
{
    let ghost start = views(lines@);
    lines.push(report_header());
    lines.push(report_rule());
    let mut i: usize = 0;
    while i < results.len()
        invariant
            i <= results@.len(),
            views(lines@) == start + seq![header_text(), rule_text()] + Seq::new(
                i as nat,
                |k: int| row_text(results@[k], color),
            ),
        decreases results@.len() - i,
    {
        lines.push(format_result_row(&results[i], color));
        proof {
            assert(views(lines@) =~= start + seq![header_text(), rule_text()] + Seq::new(
                (i + 1) as nat,
                |k: int| row_text(results@[k], color),
            ));
        }
        i = i + 1;
    }
    assert(views(lines@) =~= start + table_lines(results@, color));
}

/// A line made of `head`, a number and `tail`.
fn titled(head: &str, n: usize, tail: &str) -> (r: String)
    ensures
        r@ == head@ + decimal_of(n as nat) + tail@,
{
    let mut r = String::from_str(head);
    r.append(decimal_string(n as u64).as_str());
    r.append(tail);
    r
}

/// The lines of the report for results already split and sorted.
pub fn report_lines(passing: &Vec<UrlTestResult>, failing: &Vec<UrlTestResult>, color: bool) -> (r: Vec<String>)
    ensures
        views(r@) == report_lines_of(passing@, failing@, color),
{
    let mut lines: Vec<String> = Vec::new();
    if passing.len() > 0 {
        lines.push(String::new());
        lines.push(titled("--- Passing Tests Report (", passing.len(), ") ---"));
        push_table(&mut lines, passing, color);
        lines.push(String::new());
        lines.push(String::from_str("--- Passing Tests Report End ---"));
    } else {
        lines.push(String::new());
        lines.push(String::from_str("--- No Passing Tests Detected ---"));
    }
    let ghost first = views(lines@);
    assert(first =~= report_lines_of(passing@, Seq::empty(), color));
    if failing.len() > 0 {
        lines.push(String::new());
        lines.push(titled("--- Failing Tests Report (", failing.len(), ") ---"));
        push_table(&mut lines, failing, color);
        lines.push(String::new());
        lines.push(String::from_str("--- Failing Tests Report End ---"));
    }
    assert(views(lines@) =~= report_lines_of(passing@, failing@, color));
    lines
}

} // verus!
