//! The diagnostic parser: turns the raw text that the Jenkins validation
//! endpoint returns into structured, editor-ready diagnostics.
//!
//! A response that contains the success marker yields no diagnostics at all.
//! Otherwise the response is split into lines and each line is searched for
//! the error shape Jenkins emits:
//!
//! `WorkflowScript: <num>: <message> @ line <line>, column <column>.`
//!
//! where any amount of whitespace may stand between the fixed tokens. The
//! search is leftmost-first: the earliest start position wins; at a given
//! start, the whitespace run before the message is taken as long as
//! possible and the message as short as possible, the message being one or
//! more arbitrary characters. The two captured numbers are one-based; they
//! are converted to zero-based coordinates by saturating subtraction. A line
//! whose numbers do not fit in 32 bits is skipped, as is any line that does
//! not match.

use vstd::prelude::*;

use crate::text::{
    chars_of, contains_exec, contains_seq, digit_end, digit_end_at, digits_val, is_digit,
    parse_u32_digits, prefix_at, prefix_at_exec, spec_lines, strip_cr, lemma_first_nl_found,
    lemma_first_nl_none, ws_end, ws_end_at,
};

verus! {

/// The marker that opens every diagnostic line.
pub open spec fn marker_lit() -> Seq<char> {
    "WorkflowScript:"@
}

/// The fixed word before the authoritative line number.
pub open spec fn line_word_lit() -> Seq<char> {
    "line"@
}

/// The fixed word before the column number.
pub open spec fn column_word_lit() -> Seq<char> {
    "column"@
}

/// The substring whose presence anywhere in a response means the
/// Jenkinsfile was accepted.
pub open spec fn success_lit() -> Seq<char> {
    "Jenkinsfile successfully validated."@
}

/// The source tag carried by every diagnostic this crate produces.
pub open spec fn source_tag_lit() -> Seq<char> {
    "jenkinsfile-ls"@
}

/// A zero-based position in a document.
#[derive(Clone, Copy, Debug, PartialEq, Eq, Structural)]
pub struct Position {
    pub line: u32,
    pub character: u32,
}

/// A half-open text range given by two positions.
#[derive(Clone, Copy, Debug, PartialEq, Eq, Structural)]
pub struct Range {
    pub start: Position,
    pub end: Position,
}

/// Severity levels of a diagnostic; this crate only ever emits `Error`.
#[derive(Clone, Copy, Debug, PartialEq, Eq, Structural)]
pub enum DiagnosticSeverity {
    Error,
    Warning,
    Information,
    Hint,
}

/// One structured finding, shaped for publication to an editor.
#[derive(Debug, PartialEq)]
pub struct Diagnostic {
    pub range: Range,
    pub severity: Option<DiagnosticSeverity>,
    pub source: Option<String>,
    pub message: String,
}

/// Mathematical image of a `Diagnostic`.
pub struct DiagView {
    pub start_line: u32,
    pub start_char: u32,
    pub end_line: u32,
    pub end_char: u32,
    pub severity: Option<DiagnosticSeverity>,
    pub source: Option<Seq<char>>,
    pub message: Seq<char>,
}

impl View for Diagnostic {
    type V = DiagView;

    open spec fn view(&self) -> DiagView {
        DiagView {
            start_line: self.range.start.line,
            start_char: self.range.start.character,
            end_line: self.range.end.line,
            end_char: self.range.end.character,
            severity: self.severity,
            source: match self.source {
                Some(s) => Some(s@),
                None => None,
            },
            message: self.message@,
        }
    }
}

pub open spec fn views_of(ds: Seq<Diagnostic>) -> Seq<DiagView> {
    ds.map_values(|d: Diagnostic| d@)
}

/// What one successful pattern match captures from a line.
pub struct LineCapture {
    pub msg: Seq<char>,
    pub line_digits: Seq<char>,
    pub col_digits: Seq<char>,
}

/// Matches the tail of the pattern, `<ws> @ <ws> line <ws> <digits> , <ws>
/// column <ws> <digits> .`, starting exactly at position `j` of `l`.
/// Returns the two captured digit runs.
pub open spec fn tail_match(l: Seq<char>, j: int) -> Option<(Seq<char>, Seq<char>)> {
    let k = ws_end(l, j);
    if k <= j {
        None
    } else if !(k < l.len() && l[k] == '@') {
        None
    } else {
        let a = ws_end(l, k + 1);
        if a <= k + 1 {
            None
        } else if !prefix_at(l, a, line_word_lit()) {
            None
        } else {
            let b = ws_end(l, a + line_word_lit().len());
            if b <= a + line_word_lit().len() {
                None
            } else {
                let c = digit_end(l, b);
                if c <= b {
                    None
                } else if !(c < l.len() && l[c] == ',') {
                    None
                } else {
                    let d = ws_end(l, c + 1);
                    if d <= c + 1 {
                        None
                    } else if !prefix_at(l, d, column_word_lit()) {
                        None
                    } else {
                        let e = ws_end(l, d + column_word_lit().len());
                        if e <= d + column_word_lit().len() {
                            None
                        } else {
                            let f = digit_end(l, e);
                            if f <= e {
                                None
                            } else if !(f < l.len() && l[f] == '.') {
                                None
                            } else {
                                Some((l.subrange(b, c), l.subrange(e, f)))
                            }
                        }
                    }
                }
            }
        }
    }
}

/// The shortest message end `j` at or after the given candidate for which
/// the pattern tail matches; the message then spans `[ms, j)`.
pub open spec fn search_msg_end(l: Seq<char>, ms: int, j: int) -> Option<LineCapture>
    decreases l.len() + 1 - j,
{
    if j > l.len() {
        None
    } else {
        match tail_match(l, j) {
            Some(g) => Some(
                LineCapture { msg: l.subrange(ms, j), line_digits: g.0, col_digits: g.1 },
            ),
            None => search_msg_end(l, ms, j + 1),
        }
    }
}

/// The preferred message start: the latest position `ms` in `(p1, m]` for
/// which some message end completes the match. Later starts are preferred
/// because the whitespace run before the message is matched greedily.
pub open spec fn search_msg_start(l: Seq<char>, p1: int, ms: int) -> Option<LineCapture>
    decreases ms - p1,
{
    if ms <= p1 {
        None
    } else {
        match search_msg_end(l, ms, ms + 1) {
            Some(cap) => Some(cap),
            None => search_msg_start(l, p1, ms - 1),
        }
    }
}

/// Matches the whole pattern starting exactly at position `i` of `l`.
pub open spec fn match_at(l: Seq<char>, i: int) -> Option<LineCapture> {
    if !prefix_at(l, i, marker_lit()) {
        None
    } else {
        let p0 = i + marker_lit().len();
        let q = ws_end(l, p0);
        if q <= p0 {
            None
        } else {
            let r = digit_end(l, q);
            if r <= q {
                None
            } else if !(r < l.len() && l[r] == ':') {
                None
            } else {
                let m = ws_end(l, r + 1);
                if m <= r + 1 {
                    None
                } else {
                    search_msg_start(l, r + 1, m)
                }
            }
        }
    }
}

/// The leftmost match in `l` at or after position `i`.
pub open spec fn search_start(l: Seq<char>, i: int) -> Option<LineCapture>
    decreases l.len() - i,
{
    if i < 0 || i >= l.len() {
        None
    } else {
        match match_at(l, i) {
            Some(cap) => Some(cap),
            None => search_start(l, i + 1),
        }
    }
}

/// The capture of one line of validator output, if the line matches.
pub open spec fn line_match(l: Seq<char>) -> Option<LineCapture> {
    search_start(l, 0)
}

/// One-based to zero-based coordinate conversion, saturating at zero.
pub open spec fn zero_based(n: u32) -> u32 {
    if n == 0 {
        0
    } else {
        (n - 1) as u32
    }
}

/// The diagnostic built from a reported line, column and message.
pub open spec fn diag_of(ln: u32, col: u32, msg: Seq<char>) -> DiagView {
    DiagView {
        start_line: zero_based(ln),
        start_char: zero_based(col),
        end_line: zero_based(ln),
        end_char: zero_based(col),
        severity: Some(DiagnosticSeverity::Error),
        source: Some(source_tag_lit()),
        message: msg,
    }
}

/// The diagnostic a single line of output yields, if any: the line must
/// match the pattern and both numbers must fit in 32 bits.
pub open spec fn line_diag(l: Seq<char>) -> Option<DiagView> {
    match line_match(l) {
        None => None,
        Some(cap) => if digits_val(cap.line_digits) <= u32::MAX && digits_val(cap.col_digits)
            <= u32::MAX {
            Some(
                diag_of(
                    digits_val(cap.line_digits) as u32,
                    digits_val(cap.col_digits) as u32,
                    cap.msg,
                ),
            )
        } else {
            None
        },
    }
}

/// All diagnostics of a sequence of lines, in line order.
pub open spec fn diags_of_lines(ls: Seq<Seq<char>>) -> Seq<DiagView>
    decreases ls.len(),
{
    if ls.len() == 0 {
        Seq::empty()
    } else {
        match line_diag(ls[0]) {
            Some(d) => seq![d] + diags_of_lines(ls.drop_first()),
            None => diags_of_lines(ls.drop_first()),
        }
    }
}

/// What parsing a whole response body yields.
pub open spec fn parse_spec(s: Seq<char>) -> Seq<DiagView> {
    if contains_seq(s, success_lit()) {
        Seq::empty()
    } else {
        diags_of_lines(spec_lines(s))
    }
}

/// Indices of the two digit captures of a successful tail match.
struct TailIdx {
    ln_lo: usize,
    ln_hi: usize,
    col_lo: usize,
    col_hi: usize,
}

fn tail_match_at(
    l: &Vec<char>,
    j: usize,
    word_line: &Vec<char>,
    word_column: &Vec<char>,
) -> (r: Option<TailIdx>)
    requires
        j <= l@.len(),
        word_line@ == line_word_lit(),
        word_column@ == column_word_lit(),
    ensures
        match r {
            Some(t) => {
                &&& tail_match(l@, j as int) == Some(
                    (
                        l@.subrange(t.ln_lo as int, t.ln_hi as int),
                        l@.subrange(t.col_lo as int, t.col_hi as int),
                    ),
                )
                &&& t.ln_lo <= t.ln_hi <= l@.len()
                &&& t.col_lo <= t.col_hi <= l@.len()
                &&& forall|k: int| t.ln_lo <= k < t.ln_hi ==> is_digit(l@[k])
                &&& forall|k: int| t.col_lo <= k < t.col_hi ==> is_digit(l@[k])
            },
            None => tail_match(l@, j as int) is None,
        },
{
    let k = ws_end_at(l, j);
    if k == j {
        return None;
    }
    if k == l.len() || l[k] != '@' {
        return None;
    }
    let a = ws_end_at(l, k + 1);
    if a == k + 1 {
        return None;
    }
    if !prefix_at_exec(l, a, word_line) {
        return None;
    }
    let b = ws_end_at(l, a + word_line.len());
    if b == a + word_line.len() {
        return None;
    }
    let c = digit_end_at(l, b);
    if c == b {
        return None;
    }
    if c == l.len() || l[c] != ',' {
        return None;
    }
    let d = ws_end_at(l, c + 1);
    if d == c + 1 {
        return None;
    }
    if !prefix_at_exec(l, d, word_column) {
        return None;
    }
    let e = ws_end_at(l, d + word_column.len());
    if e == d + word_column.len() {
        return None;
    }
    let f = digit_end_at(l, e);
    if f == e {
        return None;
    }
    if f == l.len() || l[f] != '.' {
        return None;
    }
    Some(TailIdx { ln_lo: b, ln_hi: c, col_lo: e, col_hi: f })
}

/// Indices of all three captures of a successful full match.
struct CaptureIdx {
    msg_lo: usize,
    msg_hi: usize,
    ln_lo: usize,
    ln_hi: usize,
    col_lo: usize,
    col_hi: usize,
}

#[verifier::loop_isolation(false)]
fn match_at_exec(
    l: &Vec<char>,
    i: usize,
    marker: &Vec<char>,
    word_line: &Vec<char>,
    word_column: &Vec<char>,
) -> (r: Option<CaptureIdx>)
    requires
        i <= l@.len(),
        marker@ == marker_lit(),
        word_line@ == line_word_lit(),
        word_column@ == column_word_lit(),
    ensures
        match r {
            Some(m) => {
                &&& match_at(l@, i as int) == Some(
                    LineCapture {
                        msg: l@.subrange(m.msg_lo as int, m.msg_hi as int),
                        line_digits: l@.subrange(m.ln_lo as int, m.ln_hi as int),
                        col_digits: l@.subrange(m.col_lo as int, m.col_hi as int),
                    },
                )
                &&& m.msg_lo <= m.msg_hi <= l@.len()
                &&& m.ln_lo <= m.ln_hi <= l@.len()
                &&& m.col_lo <= m.col_hi <= l@.len()
                &&& forall|k: int| m.ln_lo <= k < m.ln_hi ==> is_digit(l@[k])
                &&& forall|k: int| m.col_lo <= k < m.col_hi ==> is_digit(l@[k])
            },
            None => match_at(l@, i as int) is None,
        },
{
    let n = l.len();
    if !prefix_at_exec(l, i, marker) {
        return None;
    }
    let p0 = i + marker.len();
    let q = ws_end_at(l, p0);
    if q == p0 {
        return None;
    }
    let r = digit_end_at(l, q);
    if r == q {
        return None;
    }
    if r == l.len() || l[r] != ':' {
        return None;
    }
    let p1 = r + 1;
    let m = ws_end_at(l, p1);
    if m == p1 {
        return None;
    }
    // Latest message start first, earliest message end first.
    let mut ms = m;
    while ms > p1
        invariant
            p1 <= ms <= m <= l@.len(),
            search_msg_start(l@, p1 as int, m as int) == search_msg_start(
                l@,
                p1 as int,
                ms as int,
            ),
            word_line@ == line_word_lit(),
            word_column@ == column_word_lit(),
        decreases ms - p1,
    {
        // Candidates for the message end are ms + 1 ..= l.len(); `t` is the
        // last candidate already ruled out.
        let mut t = ms;
        while t < l.len()
            invariant
                ms <= t <= l@.len(),
                p1 < ms,
                search_msg_end(l@, ms as int, ms + 1) == search_msg_end(l@, ms as int, t + 1),
                word_line@ == line_word_lit(),
                word_column@ == column_word_lit(),
            decreases l@.len() - t,
        {
            let cand = t + 1;
            match tail_match_at(l, cand, word_line, word_column) {
                Some(tm) => {
                    proof {
                        let cap = LineCapture {
                            msg: l@.subrange(ms as int, cand as int),
                            line_digits: l@.subrange(tm.ln_lo as int, tm.ln_hi as int),
                            col_digits: l@.subrange(tm.col_lo as int, tm.col_hi as int),
                        };
                        assert(search_msg_end(l@, ms as int, cand as int) == Some(cap));
                        assert(search_msg_end(l@, ms as int, ms + 1) == Some(cap));
                        assert(search_msg_start(l@, p1 as int, ms as int) == Some(cap));
                        assert(search_msg_start(l@, p1 as int, m as int) == Some(cap));
                        assert(match_at(l@, i as int) == Some(cap));
                    }
                    return Some(
                        CaptureIdx {
                            msg_lo: ms,
                            msg_hi: cand,
                            ln_lo: tm.ln_lo,
                            ln_hi: tm.ln_hi,
                            col_lo: tm.col_lo,
                            col_hi: tm.col_hi,
                        },
                    );
                },
                None => {
                    proof {
                        assert(search_msg_end(l@, ms as int, cand as int) == search_msg_end(
                            l@,
                            ms as int,
                            cand + 1,
                        ));
                    }
                },
            }
            t = cand;
        }
        proof {
            assert(search_msg_end(l@, ms as int, t + 1) is None);
            assert(search_msg_start(l@, p1 as int, ms as int) == search_msg_start(
                l@,
                p1 as int,
                ms - 1,
            ));
        }
        ms = ms - 1;
    }
    proof {
        assert(search_msg_start(l@, p1 as int, ms as int) is None);
        assert(match_at(l@, i as int) is None);
    }
    None
}

/// Matches one line of output, building the diagnostic when the line
/// matches and its numbers fit.
fn match_line(line: &Vec<char>, line_str: &str) -> (r: Option<Diagnostic>)
    requires
        line@ == line_str@,
    ensures
        r is Some <==> line_diag(line@) is Some,
        r matches Some(d) ==> line_diag(line@) == Some(d@),
{
    let marker = chars_of("WorkflowScript:");
    let word_line = chars_of("line");
    let word_column = chars_of("column");
    let n = line.len();
    let mut i: usize = 0;
    while i < n
        invariant
            n == line@.len(),
            0 <= i <= n,
            line@ == line_str@,
            marker@ == marker_lit(),
            word_line@ == line_word_lit(),
            word_column@ == column_word_lit(),
            search_start(line@, 0) == search_start(line@, i as int),
        decreases n - i,
    {
        match match_at_exec(line, i, &marker, &word_line, &word_column) {
            Some(cap) => {
                let ln = parse_u32_digits(line, cap.ln_lo, cap.ln_hi);
                let col = parse_u32_digits(line, cap.col_lo, cap.col_hi);
                match (ln, col) {
                    (Some(lv), Some(cv)) => {
                        let msg = line_str.substring_char(cap.msg_lo, cap.msg_hi);
                        let lz = if lv == 0 {
                            0
                        } else {
                            lv - 1
                        };
                        let cz = if cv == 0 {
                            0
                        } else {
                            cv - 1
                        };
                        let pos = Position { line: lz, character: cz };
                        return Some(
                            Diagnostic {
                                range: Range { start: pos, end: pos },
                                severity: Some(DiagnosticSeverity::Error),
                                source: Some("jenkinsfile-ls".to_owned()),
                                message: msg.to_owned(),
                            },
                        );
                    },
                    _ => {
                        return None;
                    },
                }
            },
            None => {},
        }
        i = i + 1;
    }
    None
}

proof fn lemma_views_of_push(ds: Seq<Diagnostic>, d: Diagnostic)
    ensures
        views_of(ds.push(d)) == views_of(ds).push(d@),
{
    assert(views_of(ds.push(d)) =~= views_of(ds).push(d@));
}

/// The first line of `s.skip(pos)`, where `j` is the position of the first
/// newline at or after `pos` (or the end), and `line_hi` drops a carriage
/// return that stands right before that newline.
proof fn lemma_split_first_line(s: Seq<char>, pos: int, j: int, line_hi: int, next: int)
    requires
        0 <= pos <= j <= s.len(),
        pos < s.len(),
        forall|k: int| pos <= k < j ==> s[k] != '\n',
        j < s.len() ==> s[j] == '\n',
        line_hi == if j < s.len() && j > pos && s[j - 1] == '\r' {
            j - 1
        } else {
            j
        },
        next == if j < s.len() {
            j + 1
        } else {
            j
        },
    ensures
        spec_lines(s.skip(pos)) == seq![s.subrange(pos, line_hi)] + spec_lines(s.skip(next)),
{
    let rest = s.skip(pos);
    if j < s.len() {
        lemma_first_nl_found(rest, j - pos);
        assert(rest.take(j - pos) =~= s.subrange(pos, j));
        assert(rest.skip(j - pos + 1) =~= s.skip(j + 1));
        if j > pos && s[j - 1] == '\r' {
            assert(s.subrange(pos, j).last() == s[j - 1]);
            assert(strip_cr(s.subrange(pos, j)) =~= s.subrange(pos, line_hi));
        } else {
            assert(strip_cr(s.subrange(pos, j)) =~= s.subrange(pos, line_hi));
        }
    } else {
        lemma_first_nl_none(rest);
        assert(rest =~= s.subrange(pos, line_hi));
        assert(s.skip(next) =~= Seq::<char>::empty());
        assert(seq![s.subrange(pos, line_hi)] + spec_lines(s.skip(next)) =~= seq![
            s.subrange(pos, line_hi),
        ]);
    }
}

/// Unfolds `diags_of_lines` over one leading line.
proof fn lemma_diags_step(first: Seq<char>, tail: Seq<Seq<char>>)
    ensures
        diags_of_lines(seq![first] + tail) == match line_diag(first) {
            Some(d) => seq![d] + diags_of_lines(tail),
            None => diags_of_lines(tail),
        },
{
    let ls = seq![first] + tail;
    assert(ls[0] == first);
    assert(ls.drop_first() =~= tail);
}

/// Parse the raw body of a validation response into diagnostics, one per
/// line of output that matches the error pattern, in line order; a body
/// containing the success marker yields none.
pub fn parse_jenkins_response(response: &str) -> (r: Vec<Diagnostic>)
    ensures
        views_of(r@) == parse_spec(response@),
{
    let chars = chars_of(response);
    let success = chars_of("Jenkinsfile successfully validated.");
    if contains_exec(&chars, &success) {
        let r: Vec<Diagnostic> = Vec::new();
        proof {
            assert(views_of(r@) =~= parse_spec(response@));
        }
        return r;
    }
    let mut out: Vec<Diagnostic> = Vec::new();
    let mut pos: usize = 0;
    let len = chars.len();
    proof {
        assert(response@.skip(0) =~= response@);
        assert(views_of(out@) + diags_of_lines(spec_lines(response@)) =~= diags_of_lines(
            spec_lines(response@),
        ));
    }
    while pos < len
        invariant
            len == response@.len(),
            chars@ == response@,
            0 <= pos <= len,
            !contains_seq(response@, success_lit()),
            diags_of_lines(spec_lines(response@)) == views_of(out@) + diags_of_lines(
                spec_lines(response@.skip(pos as int)),
            ),
        decreases len - pos,
    {
        // Find the next newline.
        let mut j = pos;
        while j < len && chars[j] != '\n'
            invariant
                len == response@.len(),
                chars@ == response@,
                pos <= j <= len,
                forall|k: int| pos <= k < j ==> response@[k] != '\n',
            decreases len - j,
        {
            j = j + 1;
        }
        let found_nl = j < len;
        let line_hi = if found_nl && j > pos && chars[j - 1] == '\r' {
            j - 1
        } else {
            j
        };
        let next = if found_nl {
            j + 1
        } else {
            j
        };
        let ghost line_seq = response@.subrange(pos as int, line_hi as int);
        proof {
            lemma_split_first_line(response@, pos as int, j as int, line_hi as int, next as int);
            lemma_diags_step(line_seq, spec_lines(response@.skip(next as int)));
        }
        let line_str = response.substring_char(pos, line_hi);
        let line_vec = chars_of(line_str);
        let d = match_line(&line_vec, line_str);
        let ghost out_before = out@;
        match d {
            Some(diag) => {
                proof {
                    lemma_views_of_push(out@, diag);
                }
                out.push(diag);
            },
            None => {},
        }
        proof {
            let tail = diags_of_lines(spec_lines(response@.skip(next as int)));
            match line_diag(line_seq) {
                Some(dv) => {
                    assert(views_of(out_before) + (seq![dv] + tail) =~= views_of(
                        out_before,
                    ).push(dv) + tail);
                },
                None => {
                    assert(out@ == out_before);
                },
            }
        }
        pos = next;
    }
    proof {
        assert(response@.skip(len as int) =~= Seq::<char>::empty());
        assert(views_of(out@) + diags_of_lines(spec_lines(response@.skip(len as int))) =~= views_of(
            out@,
        ));
    }
    out
}

/// The canonical shape of every diagnostic this parser yields: a point
/// range, error severity, and the crate's source tag.
pub open spec fn diag_shape_ok(d: DiagView) -> bool {
    &&& d.start_line == d.end_line
    &&& d.start_char == d.end_char
    &&& d.severity == Some(DiagnosticSeverity::Error)
    &&& d.source == Some(source_tag_lit())
}

proof fn lemma_diags_of_lines_shape(ls: Seq<Seq<char>>, i: int)
    requires
        0 <= i < diags_of_lines(ls).len(),
    ensures
        diag_shape_ok(diags_of_lines(ls)[i]),
        exists|ln: u32, col: u32, msg: Seq<char>| diags_of_lines(ls)[i] == diag_of(ln, col, msg),
    decreases ls.len(),
{
    if ls.len() > 0 {
        match line_diag(ls[0]) {
            Some(d) => {
                if i == 0 {
                    let cap = line_match(ls[0]).unwrap();
                    assert(diags_of_lines(ls)[i] == diag_of(
                        digits_val(cap.line_digits) as u32,
                        digits_val(cap.col_digits) as u32,
                        cap.msg,
                    ));
                } else {
                    lemma_diags_of_lines_shape(ls.drop_first(), i - 1);
                }
            },
            None => {
                lemma_diags_of_lines_shape(ls.drop_first(), i);
            },
        }
    }
}

/// Law: a response that contains the success marker parses to nothing.
pub proof fn lemma_success_parses_empty(s: Seq<char>)
    requires
        contains_seq(s, success_lit()),
    ensures
        parse_spec(s) == Seq::<DiagView>::empty(),
{
}

/// Law: an empty response parses to nothing.
pub proof fn lemma_empty_response_parses_empty(s: Seq<char>)
    requires
        s.len() == 0,
    ensures
        parse_spec(s) == Seq::<DiagView>::empty(),
{
    if !contains_seq(s, success_lit()) {
        assert(spec_lines(s) == Seq::<Seq<char>>::empty());
    }
}

/// Law: every parsed diagnostic is a point range (start equals end), has
/// error severity, carries the crate's source tag, and its coordinates are
/// the reported one-based numbers shifted down by one, saturating at zero.
pub proof fn lemma_parse_diag_shape(s: Seq<char>, i: int)
    requires
        0 <= i < parse_spec(s).len(),
    ensures
        diag_shape_ok(parse_spec(s)[i]),
        exists|ln: u32, col: u32, msg: Seq<char>| parse_spec(s)[i] == diag_of(ln, col, msg),
{
    lemma_diags_of_lines_shape(spec_lines(s), i);
}

/// Law: the zero-based conversion maps a reported 0 or 1 to 0 and any
/// larger number to its predecessor.
pub proof fn lemma_zero_based_saturates(n: u32)
    ensures
        n == 0 ==> zero_based(n) == 0,
        n == 1 ==> zero_based(n) == 0,
        n > 0 ==> zero_based(n) == n - 1,
{
}

/// How many lines yield a diagnostic.
pub open spec fn diagnostic_line_count(ls: Seq<Seq<char>>) -> nat
    decreases ls.len(),
{
    if ls.len() == 0 {
        0
    } else {
        (if line_diag(ls[0]) is Some {
            1nat
        } else {
            0nat
        }) + diagnostic_line_count(ls.drop_first())
    }
}

proof fn lemma_diags_of_lines_len(ls: Seq<Seq<char>>)
    ensures
        diags_of_lines(ls).len() == diagnostic_line_count(ls),
    decreases ls.len(),
{
    if ls.len() > 0 {
        lemma_diags_of_lines_len(ls.drop_first());
    }
}

/// Law: outside the success case, the parser yields exactly one diagnostic
/// per line that matches the pattern with numbers in range.
pub proof fn lemma_parse_len_counts_matching_lines(s: Seq<char>)
    requires
        !contains_seq(s, success_lit()),
    ensures
        parse_spec(s).len() == diagnostic_line_count(spec_lines(s)),
{
    lemma_diags_of_lines_len(spec_lines(s));
}

/// How many lines match the error pattern, whatever their numbers hold.
pub open spec fn matching_line_count(ls: Seq<Seq<char>>) -> nat
    decreases ls.len(),
{
    if ls.len() == 0 {
        0
    } else {
        (if line_match(ls[0]) is Some {
            1nat
        } else {
            0nat
        }) + matching_line_count(ls.drop_first())
    }
}

/// The captured numbers are small enough to convert to coordinates.
pub open spec fn capture_fits(cap: LineCapture) -> bool {
    digits_val(cap.line_digits) <= u32::MAX && digits_val(cap.col_digits) <= u32::MAX
}

proof fn lemma_counts_agree(ls: Seq<Seq<char>>)
    requires
        forall|i: int|
            0 <= i < ls.len() ==> (#[trigger] line_match(ls[i]) matches Some(cap)
                ==> capture_fits(cap)),
    ensures
        diagnostic_line_count(ls) == matching_line_count(ls),
    decreases ls.len(),
{
    if ls.len() > 0 {
        assert(line_match(ls[0]) matches Some(cap) ==> capture_fits(cap));
        assert forall|i: int|
            0 <= i < ls.drop_first().len() implies (#[trigger] line_match(ls.drop_first()[i])
            matches Some(cap) ==> capture_fits(cap)) by {
            assert(ls.drop_first()[i] == ls[i + 1]);
            assert(line_match(ls[i + 1]) matches Some(cap) ==> capture_fits(cap));
        }
        lemma_counts_agree(ls.drop_first());
    }
}

/// Law: outside the success case, and as long as every matching line
/// reports numbers that fit in 32 bits, the parser yields exactly one
/// diagnostic per line that matches the pattern.
pub proof fn lemma_parse_len_equals_matching_lines(s: Seq<char>)
    requires
        !contains_seq(s, success_lit()),
        forall|i: int|
            0 <= i < spec_lines(s).len() ==> (#[trigger] line_match(spec_lines(s)[i]) matches Some(
                cap,
            ) ==> capture_fits(cap)),
    ensures
        parse_spec(s).len() == matching_line_count(spec_lines(s)),
{
    lemma_diags_of_lines_len(spec_lines(s));
    lemma_counts_agree(spec_lines(s));
}

/// Law: parsing is deterministic, so parsing the same input twice gives
/// the same diagnostics.
pub proof fn lemma_parse_deterministic(s: Seq<char>, r1: Seq<DiagView>, r2: Seq<DiagView>)
    requires
        r1 == parse_spec(s),
        r2 == parse_spec(s),
    ensures
        r1 == r2,
{
}

} // verus!
