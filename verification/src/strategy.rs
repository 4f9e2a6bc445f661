//! The default way to scan one file.
//!
//! The input is cut into lines. In each line that is valid text the pattern is
//! searched once, so a line is reported at most once, with its first match.
//! The report of a file is its path, then one line per match, each closed by
//! a newline; a file without a match has an empty report.

use vstd::prelude::*;
use vstd::utf8::*;
use crate::format::{format_line, line_text, FileMatch, LineColouring};
use crate::lines::{cut_line, lines_from, lines_of, utf8_text};
use crate::paint::{paint_tracked, tinted, Tint};
use crate::pattern::{regex_first_match, Pattern};

verus! {

/// The match that line `number` holds, if its bytes `raw` are valid text and
/// the pattern occurs in it.
pub open spec fn line_match(pattern: Seq<char>, raw: Seq<u8>, number: nat) -> Option<FileMatch> {
    if valid_utf8(raw) {
        match regex_first_match(pattern, decode_utf8(raw)) {
            Some((from, to)) => Some(
                FileMatch {
                    line_number: number,
                    match_start: from as int,
                    match_end: to as int,
                    line_text: decode_utf8(raw),
                },
            ),
            None => None,
        }
    } else {
        None
    }
}

/// The matches in `lines`, in the order of the lines. Lines count from one,
/// and a line that is not valid text still counts.
pub open spec fn matches_among(pattern: Seq<char>, lines: Seq<Seq<u8>>) -> Seq<FileMatch>
    decreases lines.len(),
{
    if lines.len() == 0 {
        Seq::empty()
    } else {
        let earlier = matches_among(pattern, lines.drop_last());
        match line_match(pattern, lines.last(), lines.len()) {
            Some(m) => earlier.push(m),
            None => earlier,
        }
    }
}

/// The matches that a scan of `input` for `pattern` finds.
pub open spec fn matches_in(pattern: Seq<char>, input: Seq<u8>) -> Seq<FileMatch> {
    matches_among(pattern, lines_of(input))
}

/// The views of a list of strings.
pub open spec fn texts(items: Seq<String>) -> Seq<Seq<char>> {
    Seq::new(items.len(), |i: int| items[i]@)
}

/// The items in a row, with `sep` between each two.
pub open spec fn joined(items: Seq<Seq<char>>, sep: Seq<char>) -> Seq<char>
    decreases items.len(),
{
    if items.len() == 0 {
        Seq::empty()
    } else if items.len() == 1 {
        items[0]
    } else {
        joined(items.drop_last(), sep) + sep + items.last()
    }
}

/// What is written for a file whose match lines, joined, are `block`: nothing
/// for an empty block, else the header and the block, a newline behind each.
pub open spec fn report_of(header: Seq<char>, block: Seq<char>) -> Seq<char> {
    if block.len() == 0 {
        Seq::empty()
    } else {
        header + seq!['\n'] + block + seq!['\n']
    }
}

/// Which parts of a report `colored` did paint: the path, and the parts of
/// each line.
pub struct Colouring {
    pub header: bool,
    pub lines: Seq<LineColouring>,
}

/// The report lines for `matches`, the line for each under its colouring.
pub open spec fn report_lines(matches: Seq<FileMatch>, c: Seq<LineColouring>) -> Seq<Seq<char>> {
    Seq::new(matches.len(), |i: int| line_text(matches[i], c[i]))
}

/// The report on the file at `path` with `matches`, under the colouring `c`.
pub open spec fn report_text(path: Seq<char>, matches: Seq<FileMatch>, c: Colouring) -> Seq<char> {
    report_of(tinted(path, Tint::Green, c.header), joined(report_lines(matches, c.lines), seq!['\n']))
}

/// `out` is the report on the file at `path` with `matches`, under some
/// colouring.
pub open spec fn is_report(out: Seq<char>, path: Seq<char>, matches: Seq<FileMatch>) -> bool {
    exists|c: Colouring|
        c.lines.len() == matches.len() && out == #[trigger] report_text(path, matches, c)
}

/// A line is reported at most once: the matches come in the order of their
/// lines, each in a line of its own, and each is what `line_match` finds in
/// that line.
pub proof fn lemma_one_match_per_line(pattern: Seq<char>, lines: Seq<Seq<u8>>)
    ensures
        matches_among(pattern, lines).len() <= lines.len(),
        forall|i: int|
            0 <= i < matches_among(pattern, lines).len() ==> {
                let m = #[trigger] matches_among(pattern, lines)[i];
                &&& 1 <= m.line_number <= lines.len()
                &&& line_match(pattern, lines[m.line_number - 1], m.line_number) == Some(m)
            },
        forall|i: int, j: int|
            0 <= i < j < matches_among(pattern, lines).len() ==> (#[trigger] matches_among(
                pattern,
                lines,
            )[i]).line_number < (#[trigger] matches_among(pattern, lines)[j]).line_number,
    decreases lines.len(),
{
    if lines.len() > 0 {
        let shorter = lines.drop_last();
        lemma_one_match_per_line(pattern, shorter);
        let earlier = matches_among(pattern, shorter);
        let all = matches_among(pattern, lines);
        assert forall|i: int| 0 <= i < all.len() implies {
            let m = #[trigger] all[i];
            &&& 1 <= m.line_number <= lines.len()
            &&& line_match(pattern, lines[m.line_number - 1], m.line_number) == Some(m)
        } by {
            if i < earlier.len() {
                let m = earlier[i];
                assert(all[i] == m);
                assert(shorter[m.line_number - 1] == lines[m.line_number - 1]);
            }
        }
        assert forall|i: int, j: int| 0 <= i < j < all.len() implies (#[trigger] all[i]).line_number
            < (#[trigger] all[j]).line_number by {
            assert(all[i] == earlier[i]);
            if j < earlier.len() {
                assert(all[j] == earlier[j]);
            }
        }
    }
}

/// A line that does not match is not reported: without a match in any line
/// there is no match at all.
pub proof fn lemma_no_match_no_entry(pattern: Seq<char>, lines: Seq<Seq<u8>>)
    requires
        forall|k: int| 0 <= k < lines.len() ==> line_match(pattern, #[trigger] lines[k], (k + 1) as nat) is None,
    ensures
        matches_among(pattern, lines).len() == 0,
    decreases lines.len(),
{
    if lines.len() > 0 {
        let shorter = lines.drop_last();
        assert forall|k: int| 0 <= k < shorter.len() implies line_match(
            pattern,
            #[trigger] shorter[k],
            (k + 1) as nat,
        ) is None by {
            assert(shorter[k] == lines[k]);
        }
        lemma_no_match_no_entry(pattern, shorter);
        assert(lines.last() == lines[lines.len() - 1]);
    }
}

/// Joined items are at least as long as the last of them.
pub proof fn lemma_joined_covers_last(items: Seq<Seq<char>>, sep: Seq<char>)
    requires
        items.len() > 0,
    ensures
        joined(items, sep).len() >= items.last().len(),
{
}

/// A report is empty exactly when there is no match: a file in which no line
/// matches leaves no trace, not even its path, and a file with a match is
/// always reported.
pub proof fn lemma_report_empty_iff_no_match(
    path: Seq<char>,
    matches: Seq<FileMatch>,
    c: Colouring,
)
    ensures
        report_text(path, matches, c).len() == 0 <==> matches.len() == 0,
{
    let lines = report_lines(matches, c.lines);
    if matches.len() > 0 {
        lemma_joined_covers_last(lines, seq!['\n']);
        let last = line_text(matches.last(), c.lines[matches.len() - 1]);
        assert(lines.last() == last);
        assert(last.len() >= 1);
    }
}

/// The report is a function of path, pattern, content and colouring, and of
/// the colouring only as far as it concerns a match: two reports on the same
/// content for the same pattern are the same text if the path and each line
/// were coloured alike in both. This says nothing of whether two scans are
/// coloured alike; that is settled outside the library.
pub proof fn lemma_scan_is_repeatable(
    path: Seq<char>,
    pattern: Seq<char>,
    input: Seq<u8>,
    first: Colouring,
    second: Colouring,
)
    requires
        first.header == second.header,
        forall|i: int|
            0 <= i < matches_in(pattern, input).len() ==> first.lines[i] == second.lines[i],
    ensures
        report_text(path, matches_in(pattern, input), first) == report_text(
            path,
            matches_in(pattern, input),
            second,
        ),
{
    let matches = matches_in(pattern, input);
    assert(report_lines(matches, first.lines) =~= report_lines(matches, second.lines));
}

/// Puts `items` in a row, with `sep` between each two.
pub fn join(items: &Vec<String>, sep: &str) -> (out: String)
    ensures
        out@ == joined(texts(items@), sep@),
{
    let mut out = String::new();
    let mut at: usize = 0;
    assert(texts(items@).take(0) =~= Seq::<Seq<char>>::empty());
    while at < items.len()
        invariant
            at <= items@.len(),
            out@ == joined(texts(items@).take(at as int), sep@),
        decreases items@.len() - at,
    {
        let ghost so_far = texts(items@).take(at as int);
        let ghost with_next = texts(items@).take(at + 1);
        if at > 0 {
            out.append(sep);
        }
        out.append(items[at].as_str());
        proof {
            assert(with_next.drop_last() =~= so_far);
            assert(with_next.last() == items@[at as int]@);
            if at == 0 {
                assert(out@ =~= with_next[0]);
            }
        }
        at = at + 1;
    }
    assert(texts(items@).take(at as int) =~= texts(items@));
    out
}

/// Puts a report together from its header and its lines.
pub fn compose_report(header: &str, lines: &Vec<String>) -> (out: String)
    ensures
        out@ == report_of(header@, joined(texts(lines@), seq!['\n'])),
{
    proof {
        reveal_strlit("\n");
        assert("\n"@ =~= seq!['\n']);
    }
    let block = join(lines, "\n");
    if block.as_str().is_empty() {
        assert(block@ =~= Seq::<char>::empty());
        block
    } else {
        let mut out = String::from_str(header);
        out.append("\n");
        out.append(block.as_str());
        out.append("\n");
        assert(out@ =~= header@ + seq!['\n'] + block@ + seq!['\n']);
        out
    }
}

/// Scans `input`, the content of the file at `path`, for `pattern` and
/// returns the text to write: the report on the lines that match.
pub fn default_strategy(path: &str, input: &[u8], pattern: &Pattern) -> (out: String)
    ensures
        is_report(out@, path@, matches_in(pattern@, input@)),
        out@.len() == 0 <==> matches_in(pattern@, input@).len() == 0,
{
    let mut entries: Vec<String> = Vec::new();
    let mut at: usize = 0;
    let mut lineno: usize = 0;
    let ghost mut done: Seq<Seq<u8>> = Seq::empty();
    let ghost mut colours: Seq<LineColouring> = Seq::empty();
    assert(done + lines_from(input@, 0) =~= lines_of(input@));
    assert(texts(entries@) =~= report_lines(matches_among(pattern@, done), colours));
    while at < input.len()
        invariant
            at <= input@.len(),
            lineno == done.len(),
            lineno <= at,
            done + lines_from(input@, at as int) == lines_of(input@),
            colours.len() == matches_among(pattern@, done).len(),
            entries@.len() == colours.len(),
            texts(entries@) == report_lines(matches_among(pattern@, done), colours),
        decreases input@.len() - at,
    {
        let (raw, next) = cut_line(input, at);
        lineno = lineno + 1;
        let ghost earlier = matches_among(pattern@, done);
        let ghost old_entries = entries@;
        let ghost old_colours = colours;
        proof {
            assert(done.push(raw@) + lines_from(input@, next as int) =~= done + (seq![raw@]
                + lines_from(input@, next as int)));
            assert(done.push(raw@).drop_last() =~= done);
            done = done.push(raw@);
        }
        match utf8_text(raw) {
            Some(line) => {
                match pattern.find(line) {
                    Some((from, to)) => {
                        let entry = format_line(line, lineno, from..to);
                        let ghost m = FileMatch {
                            line_number: lineno as nat,
                            match_start: from as int,
                            match_end: to as int,
                            line_text: line@,
                        };
                        let ghost c = choose|c: LineColouring|
                            entry@ == #[trigger] line_text(m, c);
                        entries.push(entry);
                        proof {
                            colours = colours.push(c);
                            assert(matches_among(pattern@, done) == earlier.push(m));
                            assert forall|i: int| 0 <= i < entries@.len() implies texts(
                                entries@,
                            )[i] == report_lines(earlier.push(m), colours)[i] by {
                                if i < old_entries.len() {
                                    assert(texts(old_entries)[i] == report_lines(
                                        earlier,
                                        old_colours,
                                    )[i]);
                                }
                            }
                            assert(texts(entries@) =~= report_lines(earlier.push(m), colours));
                        }
                    },
                    None => {},
                }
            },
            None => {},
        }
        at = next;
    }
    let (header, Ghost(header_on)) = paint_tracked(path, Tint::Green);
    let out = compose_report(header.as_str(), &entries);
    proof {
        assert(done =~= lines_of(input@)) by {
            assert(lines_from(input@, at as int) =~= Seq::<Seq<u8>>::empty());
        }
        let c = Colouring { header: header_on, lines: colours };
        assert(out@ == report_text(path@, matches_in(pattern@, input@), c));
        lemma_report_empty_iff_no_match(path@, matches_in(pattern@, input@), c);
    }
    out
}

} // verus!
