//! The syntax of the configuration file, and the report of errors in it.

use std::collections::BTreeMap;

use vstd::prelude::*;
use vstd::utf8::encode_utf8;

use crate::nesting::is_shallow;

verus! {

/// A place in the text at which the TOML parser found an error: a range of
/// bytes, and what is wrong.
#[derive(Debug, Clone, PartialEq, Eq)]
pub struct ParserError {
    pub lo: usize,
    pub hi: usize,
    pub desc: String,
}

/// A `ParserError` as mathematical values.
pub struct ParserErrorView {
    pub lo: usize,
    pub hi: usize,
    pub desc: Seq<char>,
}

impl View for ParserError {
    type V = ParserErrorView;

    open spec fn view(&self) -> ParserErrorView {
        ParserErrorView { lo: self.lo, hi: self.hi, desc: self.desc@ }
    }
}

/// An error, and the number of a line, counted from 0, to which it belongs.
#[derive(Debug, Clone, PartialEq, Eq)]
pub struct LineReport {
    pub line: usize,
    pub desc: String,
}

/// A `LineReport` as mathematical values.
pub struct LineReportView {
    pub line: int,
    pub desc: Seq<char>,
}

impl View for LineReport {
    type V = LineReportView;

    open spec fn view(&self) -> LineReportView {
        LineReportView { line: self.line as int, desc: self.desc@ }
    }
}

/// The views of a list of errors.
pub open spec fn error_views(errors: Seq<ParserError>) -> Seq<ParserErrorView> {
    errors.map_values(|error: ParserError| error@)
}

/// The views of a list of reports.
pub open spec fn report_views(reports: Seq<LineReport>) -> Seq<LineReportView> {
    reports.map_values(|report: LineReport| report@)
}

/// The byte that ends a line.
pub const LINE_FEED: u8 = 10;

/// The byte that may stand before the one that ends a line.
pub const CARRIAGE_RETURN: u8 = 13;

/// A line without the carriage return at its end.
pub open spec fn without_return(line: Seq<u8>) -> Seq<u8> {
    if line.len() > 0 && line.last() == CARRIAGE_RETURN {
        line.drop_last()
    } else {
        line
    }
}

/// Where the first line feed of a text is, or else the length of the text.
pub open spec fn line_end(text: Seq<u8>) -> int
    decreases text.len(),
{
    if text.len() == 0 || text[0] == LINE_FEED {
        0
    } else {
        1 + line_end(text.skip(1))
    }
}

/// The lines of a text, without their ends: a line feed, or a carriage return
/// and a line feed. What follows the last line feed is a line unless empty.
pub open spec fn lines(text: Seq<u8>) -> Seq<Seq<u8>>
    decreases text.len(),
{
    let end = line_end(text);
    if text.len() == 0 {
        Seq::empty()
    } else if 0 <= end < text.len() {
        seq![without_return(text.take(end))] + lines(text.skip(end + 1))
    } else {
        seq![text]
    }
}

/// How many bytes the first `n` lines hold.
pub open spec fn bytes_before(lines: Seq<Seq<u8>>, n: nat) -> nat
    decreases n,
{
    if n == 0 {
        0
    } else {
        bytes_before(lines, (n - 1) as nat) + lines[n - 1].len()
    }
}

/// Whether an error counts as one of line `n`: its offset lies between the
/// number of bytes in the lines before and that number with the line itself.
pub open spec fn belongs_to(error: ParserErrorView, lines: Seq<Seq<u8>>, n: nat) -> bool {
    bytes_before(lines, n) <= error.lo <= bytes_before(lines, n) + lines[n as int].len()
}

/// The errors that belong to line `n`, in the order in which they were found.
pub open spec fn line_report(
    errors: Seq<ParserErrorView>,
    lines: Seq<Seq<u8>>,
    n: nat,
) -> Seq<LineReportView> {
    errors.filter(|error: ParserErrorView| belongs_to(error, lines, n)).map_values(
        |error: ParserErrorView| LineReportView { line: n as int, desc: error.desc },
    )
}

/// The errors that belong to the first `n` lines, line by line.
pub open spec fn report(
    errors: Seq<ParserErrorView>,
    lines: Seq<Seq<u8>>,
    n: nat,
) -> Seq<LineReportView>
    decreases n,
{
    if n == 0 {
        Seq::empty()
    } else {
        report(errors, lines, (n - 1) as nat) + line_report(errors, lines, (n - 1) as nat)
    }
}

/// The errors in a text, line by line; lines and offsets are those of its UTF-8
/// form.
pub open spec fn text_report(errors: Seq<ParserErrorView>, text: Seq<char>) -> Seq<LineReportView> {
    report(errors, lines(encode_utf8(text)), lines(encode_utf8(text)).len())
}

/// A value in a TOML document.
#[verifier::external_type_specification]
#[verifier::external_body]
pub struct ExTomlValue(toml::Value);

/// What `toml::Parser` makes of a text: a table, or the errors in it.
pub uninterp spec fn toml_parse(text: Seq<char>) -> Result<
    Map<String, toml::Value>,
    Seq<ParserErrorView>,
>;

/// Calls `toml::Parser::parse` on a new parser for the text: the table, or the
/// list of errors, which then is not empty. The parser, and the conversion and
/// the drop of what it builds, call themselves for each level of nesting, of
/// arrays, of inline tables and of the keys in a header; so a text nested more
/// deeply than the stack can hold is left out.
#[verifier::external_body]
fn run_parser(text: &str) -> (parsed: Result<BTreeMap<String, toml::Value>, Vec<ParserError>>)
    requires
        is_shallow(text@),
    ensures
        match parsed {
            Ok(table) => toml_parse(text@) == Ok::<_, Seq<ParserErrorView>>(table@),
            Err(errors) => {
                &&& toml_parse(text@) == Err::<Map<String, toml::Value>, _>(error_views(errors@))
                &&& errors@.len() > 0
            },
        },
{
    let mut parser = toml::Parser::new(text);
    match parser.parse() {
        Some(table) => Ok(table),
        None => Err(
            parser.errors.into_iter().map(
                |error| ParserError { lo: error.lo, hi: error.hi, desc: error.desc },
            ).collect(),
        ),
    }
}

proof fn lemma_line_end(text: Seq<u8>, end: int)
    requires
        0 <= end <= text.len(),
        forall|i: int| 0 <= i < end ==> text[i] != LINE_FEED,
        end == text.len() || text[end] == LINE_FEED,
    ensures
        line_end(text) == end,
    decreases text.len(),
{
    if end > 0 {
        assert forall|i: int| 0 <= i < end - 1 implies text.skip(1)[i] != LINE_FEED by {
            assert(text.skip(1)[i] == text[i + 1]);
        }
        lemma_line_end(text.skip(1), end - 1);
    }
}

/// Where the line that begins at `start` ends: at the next line feed, or at the
/// end of the text.
fn find_line_end(text: &[u8], start: usize) -> (end: usize)
    requires
        start <= text@.len(),
    ensures
        start <= end <= text@.len(),
        end - start == line_end(text@.skip(start as int)),
        end == text@.len() || text@[end as int] == LINE_FEED,
{
    let mut end: usize = start;
    while end < text.len() && text[end] != LINE_FEED
        invariant
            start <= end <= text@.len(),
            forall|i: int| start <= i < end ==> text@[i] != LINE_FEED,
        decreases text@.len() - end,
    {
        end = end + 1;
    }
    proof {
        let rest = text@.skip(start as int);
        assert forall|i: int| 0 <= i < end - start implies rest[i] != LINE_FEED by {
            assert(rest[i] == text@[start + i]);
        }
        lemma_line_end(rest, end - start);
    }
    end
}

/// Adds the errors that belong to line `n`, which has `len` bytes and `offset`
/// bytes in the lines before it.
fn report_line(
    reports: &mut Vec<LineReport>,
    errors: &Vec<ParserError>,
    Ghost(lines): Ghost<Seq<Seq<u8>>>,
    n: usize,
    offset: usize,
    len: usize,
)
    requires
        n < lines.len(),
        offset == bytes_before(lines, n as nat),
        len == lines[n as int].len(),
        offset + len <= usize::MAX,
    ensures
        report_views(final(reports)@) == report_views(old(reports)@) + line_report(
            error_views(errors@),
            lines,
            n as nat,
        ),
{
    let ghost all = error_views(errors@);
    let ghost before = report_views(reports@);
    proof {
        reveal(Seq::filter);
        assert(all.take(0) =~= Seq::empty());
        assert(before + line_report(all.take(0), lines, n as nat) =~= before);
    }
    for i in 0..errors.len()
        invariant
            n < lines.len(),
            offset == bytes_before(lines, n as nat),
            len == lines[n as int].len(),
            offset + len <= usize::MAX,
            all == error_views(errors@),
            report_views(reports@) == before + line_report(all.take(i as int), lines, n as nat),
    {
        let ghost so_far = reports@;
        let ghost error = all[i as int];
        proof {
            lemma_line_report_push(all.take(i as int), error, lines, n as nat);
            assert(all.take(i + 1) =~= all.take(i as int).push(error));
        }
        if errors[i].lo >= offset && errors[i].lo <= offset + len {
            let entry = LineReport { line: n, desc: errors[i].desc.clone() };
            reports.push(entry);
            assert(report_views(reports@) =~= report_views(so_far).push(entry@));
        }
        assert(report_views(reports@) =~= before + line_report(
            all.take(i + 1),
            lines,
            n as nat,
        ));
    }
    assert(all.take(errors@.len() as int) =~= all);
}

proof fn lemma_line_report_push(
    errors: Seq<ParserErrorView>,
    error: ParserErrorView,
    lines: Seq<Seq<u8>>,
    n: nat,
)
    ensures
        line_report(errors.push(error), lines, n) == if belongs_to(error, lines, n) {
            line_report(errors, lines, n).push(LineReportView { line: n as int, desc: error.desc })
        } else {
            line_report(errors, lines, n)
        },
{
    reveal(Seq::filter);
    assert(errors.push(error).drop_last() =~= errors);
    assert(line_report(errors.push(error), lines, n) =~= if belongs_to(error, lines, n) {
        line_report(errors, lines, n).push(LineReportView { line: n as int, desc: error.desc })
    } else {
        line_report(errors, lines, n)
    });
}

/// The errors in a text, line by line.
pub fn error_report(data: &str, errors: &Vec<ParserError>) -> (reports: Vec<LineReport>)
    ensures
        report_views(reports@) == text_report(error_views(errors@), data@),
{
    let text: &[u8] = data.as_bytes();
    let ghost all = lines(text@);
    let mut reports: Vec<LineReport> = Vec::new();
    let mut offset: usize = 0;
    let mut index: usize = 0;
    let mut start: usize = 0;
    proof {
        assert(text@.skip(0) =~= text@);
        assert(all.skip(0) =~= all);
        assert(report_views(reports@) =~= Seq::empty());
    }
    while start < text.len()
        invariant
            all == lines(text@),
            start <= text@.len(),
            offset <= start,
            index <= start,
            index <= all.len(),
            all.skip(index as int) == lines(text@.skip(start as int)),
            offset == bytes_before(all, index as nat),
            report_views(reports@) == report(error_views(errors@), all, index as nat),
        decreases text@.len() - start,
    {
        let ghost rest = text@.skip(start as int);
        let end = find_line_end(text, start);
        let mut len: usize = end - start;
        if end < text.len() && len > 0 && text[end - 1] == CARRIAGE_RETURN {
            len = len - 1;
        }
        let next: usize = if end < text.len() {
            end + 1
        } else {
            end
        };
        proof {
            let here = lines(rest);
            assert(all.skip(index as int).len() > 0);
            assert(all[index as int] == here[0]);
            assert(here[0].len() == len) by {
                if end < text@.len() {
                    let line = rest.take(end - start);
                    assert(len < end - start || here[0] == line);
                    assert(end > start ==> line.last() == text@[end - 1]);
                }
            }
            assert(all.skip(index + 1) =~= lines(text@.skip(next as int))) by {
                assert(all.skip(index + 1) =~= here.skip(1));
                if end < text@.len() {
                    assert(rest.skip(end - start + 1) =~= text@.skip(next as int));
                }
            }
        }
        report_line(&mut reports, errors, Ghost(all), index, offset, len);
        offset = offset + len;
        index = index + 1;
        start = next;
    }
    assert(text@.skip(start as int).len() == 0);
    assert(all.skip(index as int).len() == 0);
    reports
}

/// Why a configuration file could not be parsed: the errors, and the report of
/// them line by line.
#[derive(Debug, Clone, PartialEq, Eq)]
pub struct SyntaxFailure {
    pub errors: Vec<ParserError>,
    pub reports: Vec<LineReport>,
}

/// Parses a configuration file, which `nesting_is_bounded` has to admit.
pub fn parse_document(data: &str) -> (document: Result<BTreeMap<String, toml::Value>, SyntaxFailure>)
    requires
        is_shallow(data@),
    ensures
        match document {
            Ok(table) => toml_parse(data@) == Ok::<_, Seq<ParserErrorView>>(table@),
            Err(failure) => {
                &&& toml_parse(data@) == Err::<Map<String, toml::Value>, _>(
                    error_views(failure.errors@),
                )
                &&& failure.errors@.len() > 0
                &&& report_views(failure.reports@) == text_report(
                    error_views(failure.errors@),
                    data@,
                )
            },
        },
{
    match run_parser(data) {
        Ok(table) => Ok(table),
        Err(errors) => {
            let reports = error_report(data, &errors);
            Err(SyntaxFailure { errors, reports })
        },
    }
}

proof fn lemma_line_report_contains(
    errors: Seq<ParserErrorView>,
    lines: Seq<Seq<u8>>,
    n: nat,
    entry: LineReportView,
)
    ensures
        line_report(errors, lines, n).contains(entry) <==> entry.line == n && exists|i: int|
            0 <= i < errors.len() && belongs_to(#[trigger] errors[i], lines, n) && errors[i].desc
                == entry.desc,
    decreases errors.len(),
{
    if errors.len() == 0 {
        reveal(Seq::filter);
        assert(line_report(errors, lines, n).len() == 0);
    } else {
        let rest = errors.drop_last();
        let last = errors.last();
        lemma_line_report_contains(rest, lines, n, entry);
        lemma_line_report_push(rest, last, lines, n);
        assert(errors =~= rest.push(last));
        let before = line_report(rest, lines, n);
        let added = LineReportView { line: n as int, desc: last.desc };
        assert(before.push(added).contains(entry) <==> before.contains(entry) || entry == added) by {
            assert(before.push(added)[before.len() as int] == added);
            if before.contains(entry) {
                let i = choose|i: int| 0 <= i < before.len() && before[i] == entry;
                assert(before.push(added)[i] == entry);
            }
        }
        if exists|i: int|
            0 <= i < rest.len() && belongs_to(#[trigger] rest[i], lines, n) && rest[i].desc
                == entry.desc {
            let i = choose|i: int|
                0 <= i < rest.len() && belongs_to(#[trigger] rest[i], lines, n) && rest[i].desc
                    == entry.desc;
            assert(errors[i] == rest[i]);
        }
        if belongs_to(last, lines, n) && last.desc == entry.desc {
            assert(errors[errors.len() - 1] == last);
        }
        if exists|i: int|
            0 <= i < errors.len() && belongs_to(#[trigger] errors[i], lines, n) && errors[i].desc
                == entry.desc {
            let i = choose|i: int|
                0 <= i < errors.len() && belongs_to(#[trigger] errors[i], lines, n)
                    && errors[i].desc == entry.desc;
            if i < rest.len() {
                assert(rest[i] == errors[i]);
            }
        }
    }
}

/// The report holds an entry for a line exactly where an error with that
/// description belongs to that line.
pub proof fn report_is_complete(
    errors: Seq<ParserErrorView>,
    lines: Seq<Seq<u8>>,
    n: nat,
    entry: LineReportView,
)
    ensures
        report(errors, lines, n).contains(entry) <==> 0 <= entry.line < n && exists|i: int|
            0 <= i < errors.len() && belongs_to(#[trigger] errors[i], lines, entry.line as nat)
                && errors[i].desc == entry.desc,
    decreases n,
{
    if n > 0 {
        let m = (n - 1) as nat;
        report_is_complete(errors, lines, m, entry);
        lemma_line_report_contains(errors, lines, m, entry);
        let before = report(errors, lines, m);
        let here = line_report(errors, lines, m);
        let all = before + here;
        assert(all.contains(entry) <==> before.contains(entry) || here.contains(entry)) by {
            if before.contains(entry) {
                let i = choose|i: int| 0 <= i < before.len() && before[i] == entry;
                assert(all[i] == entry);
            }
            if here.contains(entry) {
                let i = choose|i: int| 0 <= i < here.len() && here[i] == entry;
                assert(all[before.len() + i] == entry);
            }
        }
    }
}

/// An error in the first line is reported there.
pub proof fn first_line_errors_are_found(
    errors: Seq<ParserErrorView>,
    lines: Seq<Seq<u8>>,
    i: int,
)
    requires
        lines.len() > 0,
        0 <= i < errors.len(),
        errors[i].lo <= lines[0].len(),
    ensures
        report(errors, lines, lines.len()).contains(
            LineReportView { line: 0, desc: errors[i].desc },
        ),
{
    let entry = LineReportView { line: 0, desc: errors[i].desc };
    assert(belongs_to(errors[i], lines, 0));
    report_is_complete(errors, lines, lines.len(), entry);
}

/// The report goes through the lines from the first to the last.
pub proof fn report_is_in_line_order(
    errors: Seq<ParserErrorView>,
    lines: Seq<Seq<u8>>,
    n: nat,
    i: int,
    j: int,
)
    requires
        0 <= i <= j < report(errors, lines, n).len(),
    ensures
        0 <= report(errors, lines, n)[i].line <= report(errors, lines, n)[j].line < n,
    decreases n,
{
    if n > 0 {
        let m = (n - 1) as nat;
        let before = report(errors, lines, m);
        let here = line_report(errors, lines, m);
        if j < before.len() {
            report_is_in_line_order(errors, lines, m, i, j);
        } else {
            assert(report(errors, lines, n)[j] == here[j - before.len()]);
            if i < before.len() {
                report_is_in_line_order(errors, lines, m, i, i);
            } else {
                assert(report(errors, lines, n)[i] == here[i - before.len()]);
            }
        }
    }
}

/// Lines end at line feeds: a text without one is a single line, unless it is
/// empty; otherwise the first line is what stands before the first line feed,
/// without a carriage return at its end, and the lines of what follows come
/// after it.
pub proof fn lines_end_at_line_feeds(first: Seq<u8>, rest: Seq<u8>)
    requires
        forall|i: int| 0 <= i < first.len() ==> first[i] != 10,
    ensures
        first.len() == 0 ==> lines(first).len() == 0,
        first.len() > 0 ==> lines(first) == seq![first],
        ({
            let all = lines(first.push(10) + rest);
            let kept = if first.len() > 0 && first.last() == 13 {
                first.len() - 1
            } else {
                first.len() as int
            };
            &&& all.len() == 1 + lines(rest).len()
            &&& all[0] == first.take(kept)
            &&& all.skip(1) == lines(rest)
        }),
{
    if first.len() > 0 {
        lemma_line_end(first, first.len() as int);
    }
    let text = first.push(10) + rest;
    let end = first.len() as int;
    assert forall|i: int| 0 <= i < end implies text[i] != LINE_FEED by {
        assert(text[i] == first[i]);
    }
    assert(text[end] == 10);
    lemma_line_end(text, end);
    assert(text.take(end) =~= first);
    assert(text.skip(end + 1) =~= rest);
    assert(first.take(end) =~= first);
    let all = lines(text);
    assert(all == seq![without_return(first)] + lines(rest));
    assert(all.skip(1) =~= lines(rest));
    if first.len() > 0 && first.last() == 13 {
        assert(first.drop_last() =~= first.take(end - 1));
    }
}

/// An error belongs to a line exactly if its offset lies neither before the
/// bytes of that line nor behind them, where the lines before count with their
/// bytes alone.
pub proof fn errors_belong_by_their_offset(error: ParserErrorView, lines: Seq<Seq<u8>>, n: nat)
    requires
        n < lines.len(),
    ensures
        bytes_before(lines, 0) == 0,
        bytes_before(lines, n + 1) == bytes_before(lines, n) + lines[n as int].len(),
        belongs_to(error, lines, n) <==> bytes_before(lines, n) <= error.lo && error.lo
            <= bytes_before(lines, n + 1),
{
}

/// The report of a line goes through the errors in their order and has one entry
/// for each that belongs to the line, with the number of the line and the
/// description of the error.
pub proof fn line_has_one_entry_for_each_error(
    errors: Seq<ParserErrorView>,
    error: ParserErrorView,
    lines: Seq<Seq<u8>>,
    n: nat,
)
    requires
        n < lines.len(),
    ensures
        line_report(Seq::empty(), lines, n).len() == 0,
        ({
            let before = line_report(errors, lines, n);
            let after = line_report(errors.push(error), lines, n);
            if bytes_before(lines, n) <= error.lo && error.lo <= bytes_before(lines, n + 1) {
                &&& after.drop_last() == before
                &&& after.len() == before.len() + 1
                &&& after.last().line == n
                &&& after.last().desc == error.desc
            } else {
                after == before
            }
        }),
{
    reveal(Seq::filter);
    lemma_line_report_push(errors, error, lines, n);
    let before = line_report(errors, lines, n);
    let added = LineReportView { line: n as int, desc: error.desc };
    assert(before.push(added).drop_last() =~= before);
}

/// The report of a text is that of its lines, each once and all of them, the
/// report of a line behind that of the lines before it.
pub proof fn report_goes_line_by_line(
    errors: Seq<ParserErrorView>,
    text: Seq<char>,
    lines: Seq<Seq<u8>>,
    n: nat,
)
    ensures
        report(errors, lines, 0).len() == 0,
        report(errors, lines, n + 1).len() == report(errors, lines, n).len() + line_report(
            errors,
            lines,
            n,
        ).len(),
        report(errors, lines, n + 1).take(report(errors, lines, n).len() as int) == report(
            errors,
            lines,
            n,
        ),
        report(errors, lines, n + 1).skip(report(errors, lines, n).len() as int) == line_report(
            errors,
            lines,
            n,
        ),
        lines == self::lines(encode_utf8(text)) ==> text_report(errors, text) == report(
            errors,
            lines,
            lines.len(),
        ),
{
    let before = report(errors, lines, n);
    let here = line_report(errors, lines, n);
    let all = report(errors, lines, n + 1);
    assert(all == before + here);
    assert(all.take(before.len() as int) =~= before);
    assert(all.skip(before.len() as int) =~= here);
}

/// A text has an entry in its report for a line exactly where the offset of an
/// error with that description lies within the line.
pub proof fn every_error_within_a_line_is_reported(
    errors: Seq<ParserErrorView>,
    text: Seq<char>,
    entry: LineReportView,
)
    ensures
        ({
            let all = lines(encode_utf8(text));
            text_report(errors, text).contains(entry) <==> {
                &&& 0 <= entry.line < all.len()
                &&& exists|i: int|
                    0 <= i < errors.len() && (#[trigger] errors[i]).desc == entry.desc
                        && bytes_before(all, entry.line as nat) <= errors[i].lo && errors[i].lo
                        <= bytes_before(all, (entry.line + 1) as nat)
            }
        }),
{
    let all = lines(encode_utf8(text));
    report_is_complete(errors, all, all.len(), entry);
    if 0 <= entry.line < all.len() {
        let n = entry.line as nat;
        assert forall|i: int| 0 <= i < errors.len() implies (belongs_to(
            #[trigger] errors[i],
            all,
            n,
        ) <==> bytes_before(all, n) <= errors[i].lo && errors[i].lo <= bytes_before(all, n + 1)) by {
            errors_belong_by_their_offset(errors[i], all, n);
        }
        if text_report(errors, text).contains(entry) {
            let i = choose|i: int|
                0 <= i < errors.len() && belongs_to(#[trigger] errors[i], all, n) && errors[i].desc
                    == entry.desc;
            assert(belongs_to(errors[i], all, n));
        }
        if exists|i: int|
            0 <= i < errors.len() && (#[trigger] errors[i]).desc == entry.desc && bytes_before(
                all,
                n,
            ) <= errors[i].lo && errors[i].lo <= bytes_before(all, n + 1) {
            let i = choose|i: int|
                0 <= i < errors.len() && (#[trigger] errors[i]).desc == entry.desc && bytes_before(
                    all,
                    n,
                ) <= errors[i].lo && errors[i].lo <= bytes_before(all, n + 1);
            assert(belongs_to(errors[i], all, n));
        }
    }
}

/// Errors and entries are their fields, each is seen as it is, and lists of them
/// item by item.
pub proof fn errors_are_their_fields(
    errors: Seq<ParserError>,
    reports: Seq<LineReport>,
    i: int,
    j: int,
)
    requires
        0 <= i < errors.len(),
        0 <= j < reports.len(),
    ensures
        error_views(errors).len() == errors.len(),
        error_views(errors)[i].lo == errors[i].lo,
        error_views(errors)[i].hi == errors[i].hi,
        error_views(errors)[i].desc == errors[i].desc@,
        report_views(reports).len() == reports.len(),
        report_views(reports)[j].line == reports[j].line,
        report_views(reports)[j].desc == reports[j].desc@,
{
}

} // verus!
