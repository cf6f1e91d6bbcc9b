//! The output sink's encoding: one self-contained JSON record per line.

use vstd::prelude::*;
use crate::report::{ReportView, RepositoryReport, ResultView, TimingView};
use crate::text::{
    decimal, has_no_newline, is_line, lemma_streams_read_back, lemma_terminated_concat, lines_of,
    push_decimal, terminated,
};

verus! {

/// The error type of `serde_json`.
#[verifier::external_type_specification]
#[verifier::external_body]
pub struct ExJsonError(serde_json::Error);

/// The JSON string literal that `serde_json` writes for a text: the text in
/// double quotes, with quotes, backslashes and control characters escaped.
pub uninterp spec fn json_string(text: Seq<char>) -> Seq<char>;

/// `serde_json::to_string` on a string slice. The literal is a function of
/// the text alone. Serializing a string slice into memory has no cause to
/// fail, so the call succeeds; and since every control character is written
/// as an escape sequence, the literal holds no line feed.
#[verifier::external_body]
fn json_quote(text: &str) -> (res: Result<String, serde_json::Error>)
    ensures
        res is Ok,
        res is Ok ==> res->Ok_0@ == json_string(text@),
        res is Ok ==> has_no_newline(res->Ok_0@),
{
    serde_json::to_string(text)
}

/// Appends the JSON string literal of `text` to `out`.
pub(crate) fn push_json_string(out: &mut String, text: &str)
    ensures
        final(out)@ == old(out)@ + json_string(text@),
        has_no_newline(json_string(text@)),
{
    match json_quote(text) {
        Ok(literal) => out.append(literal.as_str()),
        Err(_) => {},
    }
}

/// The text fields of a record: for each analyzer, in order, a comma, the
/// analyzer's name and the text captured from it.
pub open spec fn text_fields(results: Seq<ResultView>) -> Seq<char>
    decreases results.len(),
{
    if results.len() == 0 {
        Seq::empty()
    } else {
        text_fields(results.drop_last()) + ","@ + json_string(results.last().name) + ":"@
            + json_string(results.last().text)
    }
}

/// The separator written before the field at position `index` of an object.
pub open spec fn separator(index: int) -> Seq<char> {
    if index == 0 {
        Seq::empty()
    } else {
        ","@
    }
}

/// The fields of the timing sub-record: for each analyzer, in order and
/// separated by commas, the analyzer's name and its elapsed milliseconds.
pub open spec fn timing_fields(timings: Seq<TimingView>) -> Seq<char>
    decreases timings.len(),
{
    if timings.len() == 0 {
        Seq::empty()
    } else {
        timing_fields(timings.drop_last()) + separator(timings.len() - 1) + json_string(
            timings.last().name,
        ) + ":"@ + decimal(timings.last().elapsed_ms as nat)
    }
}

/// The record of a report, without its line terminator: a JSON object that
/// holds the repository name, then one text field per analyzer, then the
/// timing sub-record with one number per analyzer.
pub open spec fn record_body(report: ReportView) -> Seq<char> {
    "{\"name\":"@ + json_string(report.name) + text_fields(report.results) + ",\"time_ms\":{"@
        + timing_fields(report.timings) + "}}"@
}

/// The line written for a report: its record followed by a line feed.
pub open spec fn record_line(report: ReportView) -> Seq<char> {
    record_body(report).push('\n')
}

/// No character of a decimal numeral is a line feed.
pub proof fn lemma_decimal_has_no_newline(n: nat)
    ensures
        has_no_newline(decimal(n)),
    decreases n,
{
    if n >= 10 {
        lemma_decimal_has_no_newline(n / 10);
    }
}

/// Encodes a report as one line of the output stream.
pub fn render_report(report: &RepositoryReport) -> (line: String)
    ensures
        line@ == record_line(report@),
        is_line(record_body(report@)),
{
    let ghost view = report@;
    let mut out = String::new();
    proof {
        reveal_strlit("{\"name\":");
        reveal_strlit(",");
        reveal_strlit(":");
        reveal_strlit(",\"time_ms\":{");
        reveal_strlit("}}");
    }
    out.append("{\"name\":");
    push_json_string(&mut out, report.name.as_str());
    let ghost head = out@;
    assert(head =~= "{\"name\":"@ + json_string(view.name));
    assert(view.results.take(0) =~= Seq::<ResultView>::empty());
    assert(out@ =~= head + text_fields(view.results.take(0)));
    let n = report.results.len();
    for i in 0..n
        invariant
            n == report.results.len(),
            view == report@,
            has_no_newline(out@),
            has_no_newline(","@),
            has_no_newline(":"@),
            out@ == head + text_fields(view.results.take(i as int)),
    {
        let ghost before = view.results.take(i as int);
        let ghost upto = view.results.take(i + 1);
        assert(upto.drop_last() =~= before);
        assert(upto.last() == report.results[i as int]@);
        out.append(",");
        push_json_string(&mut out, report.results[i].name.as_str());
        out.append(":");
        push_json_string(&mut out, report.results[i].text.as_str());
        assert(out@ =~= head + text_fields(upto));
    }
    assert(view.results.take(n as int) =~= view.results);
    out.append(",\"time_ms\":{");
    let ghost middle = out@;
    assert(view.timings.take(0) =~= Seq::<TimingView>::empty());
    assert(out@ =~= middle + timing_fields(view.timings.take(0)));
    let m = report.timings.entries.len();
    for i in 0..m
        invariant
            m == report.timings.entries.len(),
            view == report@,
            has_no_newline(out@),
            has_no_newline(","@),
            has_no_newline(":"@),
            out@ == middle + timing_fields(view.timings.take(i as int)),
    {
        let ghost before = view.timings.take(i as int);
        let ghost upto = view.timings.take(i + 1);
        assert(upto.drop_last() =~= before);
        assert(upto.last() == report.timings.entries[i as int]@);
        if i > 0 {
            out.append(",");
        }
        assert(out@ =~= middle + timing_fields(before) + separator(i as int));
        push_json_string(&mut out, report.timings.entries[i].name.as_str());
        out.append(":");
        push_decimal(&mut out, report.timings.entries[i].elapsed_ms);
        proof {
            lemma_decimal_has_no_newline(report.timings.entries[i as int].elapsed_ms as nat);
        }
        assert(out@ =~= middle + timing_fields(upto));
    }
    assert(view.timings.take(m as int) =~= view.timings);
    out.append("}}");
    assert(out@ =~= record_body(view));
    assert(out@.last() == '}');
    out.push('\n');
    out
}

/// The records of a sequence of reports, in order and without terminators.
pub open spec fn record_bodies(reports: Seq<ReportView>) -> Seq<Seq<char>> {
    reports.map_values(|r: ReportView| record_body(r))
}

/// The contents of reports.
pub open spec fn report_views(reports: Seq<RepositoryReport>) -> Seq<ReportView> {
    reports.map_values(|r: RepositoryReport| r@)
}

/// The output stream of a batch: the line of every report, in order.
pub open spec fn stream_of(reports: Seq<ReportView>) -> Seq<char> {
    terminated(record_bodies(reports))
}

/// A stream holds one line per report, each line being the record of its
/// own report; and a stream appended to another reads back, line by line, as
/// the records of the first batch followed by those of the second, none of
/// them changed by its neighbours.
pub proof fn lemma_streams_hold_their_records(first: Seq<ReportView>, second: Seq<ReportView>)
    requires
        forall|i: int| 0 <= i < first.len() ==> is_line(record_body(#[trigger] first[i])),
        forall|i: int| 0 <= i < second.len() ==> is_line(record_body(#[trigger] second[i])),
    ensures
        lines_of(stream_of(first)).len() == first.len(),
        lines_of(stream_of(first)) == record_bodies(first),
        lines_of(stream_of(second)) == record_bodies(second),
        lines_of(stream_of(first) + stream_of(second)) == record_bodies(first + second),
        stream_of(first) + stream_of(second) == stream_of(first + second),
{
    lemma_streams_read_back(record_bodies(first), record_bodies(second));
    lemma_terminated_concat(record_bodies(first), record_bodies(second));
    assert(record_bodies(first + second) =~= record_bodies(first) + record_bodies(second));
}

/// Encodes the reports of a whole batch: one line per report, in order.
pub fn render_all(reports: &Vec<RepositoryReport>) -> (stream: String)
    ensures
        stream@ == stream_of(report_views(reports@)),
        lines_of(stream@) == record_bodies(report_views(reports@)),
        lines_of(stream@).len() == reports.len(),
{
    let ghost views = report_views(reports@);
    let mut stream = String::new();
    let n = reports.len();
    assert(views.take(0) =~= Seq::<ReportView>::empty());
    assert(record_bodies(views.take(0)) =~= Seq::<Seq<char>>::empty());
    for i in 0..n
        invariant
            n == reports.len(),
            views == report_views(reports@),
            stream@ == stream_of(views.take(i as int)),
            forall|k: int| 0 <= k < i ==> is_line(record_body(#[trigger] views[k])),
    {
        let line = render_report(&reports[i]);
        stream.append(line.as_str());
        proof {
            let upto = record_bodies(views.take(i + 1));
            assert(upto.drop_last() =~= record_bodies(views.take(i as int)));
            assert(upto.last() == record_body(views[i as int]));
            assert(stream@ =~= stream_of(views.take(i + 1)));
        }
    }
    proof {
        assert(views.take(n as int) =~= views);
        lemma_streams_hold_their_records(views, Seq::empty());
    }
    stream
}

} // verus!
