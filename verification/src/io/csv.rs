//! Layout of CSV / TSV / semicolon-separated numeric tables.
//!
//! Lines are trimmed; empty lines, `#` comments and header lines (any field
//! with an ASCII letter) are skipped; the delimiter is the most frequent of
//! `,`, `;` and tab in the first content line. The remaining lines are data
//! rows, split into trimmed fields whose numbers the caller reads.
use vstd::prelude::*;

use crate::lagrangian::string_views;
use crate::text::{nat_decimal, push_nat, push_str, to_chars};
use crate::SpireError;

verus! {

// ---------------------------------------------------------------------------
// Splitting and trimming
// ---------------------------------------------------------------------------

/// The pieces of `s` between occurrences of `d` (as `str::split` with a
/// character pattern: `n` occurrences give `n + 1` pieces).
pub open spec fn split_on(s: Seq<char>, d: char) -> Seq<Seq<char>>
    decreases s.len(),
{
    if s.len() == 0 {
        seq![Seq::empty()]
    } else {
        let p = split_on(s.drop_last(), d);
        if s.last() == d {
            p.push(Seq::empty())
        } else {
            p.update(p.len() - 1, p.last().push(s.last()))
        }
    }
}

proof fn lemma_split_nonempty(s: Seq<char>, d: char)
    ensures
        split_on(s, d).len() >= 1,
    decreases s.len(),
{
    if s.len() > 0 {
        lemma_split_nonempty(s.drop_last(), d);
    }
}

/// The lines of `s`: the pieces between newlines, without a final empty
/// piece (a trailing newline does not start a line).
pub open spec fn lines_spec(s: Seq<char>) -> Seq<Seq<char>> {
    let p = split_on(s, '\n');
    if p.last().len() == 0 { p.drop_last() } else { p }
}

/// Unicode `White_Space` characters (`char::is_whitespace`).
pub open spec fn is_ws(c: char) -> bool {
    c == '\t' || c == '\n' || c == '\u{0B}' || c == '\u{0C}' || c == '\r' || c == ' '
        || c == '\u{85}' || c == '\u{A0}' || c == '\u{1680}'
        || ('\u{2000}' <= c && c <= '\u{200A}')
        || c == '\u{2028}' || c == '\u{2029}' || c == '\u{202F}' || c == '\u{205F}' || c == '\u{3000}'
}

fn is_ws_exec(c: char) -> (r: bool)
    ensures
        r == is_ws(c),
{
    c == '\t' || c == '\n' || c == '\u{0B}' || c == '\u{0C}' || c == '\r' || c == ' '
        || c == '\u{85}' || c == '\u{A0}' || c == '\u{1680}'
        || ('\u{2000}' <= c && c <= '\u{200A}')
        || c == '\u{2028}' || c == '\u{2029}' || c == '\u{202F}' || c == '\u{205F}' || c == '\u{3000}'
}

/// `s` without leading whitespace.
pub open spec fn trim_start_spec(s: Seq<char>) -> Seq<char>
    decreases s.len(),
{
    if s.len() > 0 && is_ws(s[0]) { trim_start_spec(s.drop_first()) } else { s }
}

/// `s` without trailing whitespace.
pub open spec fn trim_end_spec(s: Seq<char>) -> Seq<char>
    decreases s.len(),
{
    if s.len() > 0 && is_ws(s.last()) { trim_end_spec(s.drop_last()) } else { s }
}

/// `s` without leading and trailing whitespace (`str::trim`).
pub open spec fn trim_spec(s: Seq<char>) -> Seq<char> {
    trim_end_spec(trim_start_spec(s))
}

proof fn lemma_trim_start_skip(s: Seq<char>, k: int)
    requires
        0 <= k <= s.len(),
        forall|i: int| 0 <= i < k ==> is_ws(#[trigger] s[i]),
    ensures
        trim_start_spec(s) == trim_start_spec(s.skip(k)),
    decreases k,
{
    if k > 0 {
        assert(s.drop_first().skip(k - 1) =~= s.skip(k));
        assert forall|i: int| 0 <= i < k - 1 implies is_ws(#[trigger] s.drop_first()[i]) by {
            assert(s.drop_first()[i] == s[i + 1]);
        }
        lemma_trim_start_skip(s.drop_first(), k - 1);
    } else {
        assert(s.skip(0) =~= s);
    }
}

proof fn lemma_trim_end_take(s: Seq<char>, k: int)
    requires
        0 <= k <= s.len(),
        forall|i: int| k <= i < s.len() ==> is_ws(#[trigger] s[i]),
    ensures
        trim_end_spec(s) == trim_end_spec(s.take(k)),
    decreases s.len() - k,
{
    if k < s.len() {
        assert(s.drop_last().take(k) =~= s.take(k));
        assert forall|i: int| k <= i < s.drop_last().len() implies is_ws(#[trigger] s.drop_last()[i]) by {
            assert(s.drop_last()[i] == s[i]);
        }
        lemma_trim_end_take(s.drop_last(), k);
    } else {
        assert(s.take(k) =~= s);
    }
}

/// The characters `cs[lo..hi]` without surrounding whitespace.
fn trim_range(cs: &Vec<char>, lo: usize, hi: usize) -> (r: Vec<char>)
    requires
        lo <= hi <= cs@.len(),
    ensures
        r@ == trim_spec(cs@.subrange(lo as int, hi as int)),
{
    let ghost s = cs@.subrange(lo as int, hi as int);
    let mut a: usize = lo;
    while a < hi && is_ws_exec(cs[a])
        invariant
            lo <= a <= hi <= cs@.len(),
            s == cs@.subrange(lo as int, hi as int),
            forall|i: int| 0 <= i < a - lo ==> is_ws(#[trigger] s[i]),
        decreases hi - a,
    {
        a = a + 1;
    }
    proof {
        lemma_trim_start_skip(s, a - lo);
        assert(s.skip(a - lo) =~= cs@.subrange(a as int, hi as int));
        if a < hi {
            assert(!is_ws(cs@.subrange(a as int, hi as int)[0]));
        }
    }
    let ghost t = cs@.subrange(a as int, hi as int);
    assert(trim_start_spec(s) == t);
    let mut b: usize = hi;
    while b > a && is_ws_exec(cs[b - 1])
        invariant
            lo <= a <= b <= hi <= cs@.len(),
            t == cs@.subrange(a as int, hi as int),
            forall|i: int| b - a <= i < t.len() ==> is_ws(#[trigger] t[i]),
        decreases b - a,
    {
        b = b - 1;
    }
    proof {
        lemma_trim_end_take(t, b - a);
        assert(t.take(b - a) =~= cs@.subrange(a as int, b as int));
    }
    let mut r: Vec<char> = Vec::new();
    let mut i: usize = a;
    while i < b
        invariant
            a <= i <= b <= cs@.len(),
            r@ == cs@.subrange(a as int, i as int),
        decreases b - i,
    {
        r.push(cs[i]);
        assert(cs@.subrange(a as int, i + 1) =~= cs@.subrange(a as int, i as int).push(cs@[i as int]));
        i = i + 1;
    }
    r
}

/// Whether a text is empty or whitespace only.
pub fn is_blank_text(s: &str) -> (r: bool)
    ensures
        r == (trim_spec(s@).len() == 0),
{
    let cs = to_chars(s);
    let t = trim_range(&cs, 0, cs.len());
    assert(cs@.subrange(0, cs@.len() as int) =~= s@);
    t.len() == 0
}

/// The characters of a vector as a string.
fn chars_to_string(cs: &Vec<char>) -> (s: String)
    ensures
        s@ == cs@,
{
    let mut s = String::new();
    let mut i: usize = 0;
    while i < cs.len()
        invariant
            i <= cs@.len(),
            s@ == cs@.take(i as int),
        decreases cs@.len() - i,
    {
        crate::text::push_char(&mut s, cs[i]);
        assert(cs@.take(i + 1) =~= cs@.take(i as int).push(cs@[i as int]));
        i = i + 1;
    }
    assert(cs@.take(cs@.len() as int) =~= cs@);
    s
}

/// Boundaries of the pieces of `cs` between occurrences of `d`.
fn split_bounds(cs: &Vec<char>, d: char) -> (b: Vec<(usize, usize)>)
    ensures
        b@.len() == split_on(cs@, d).len(),
        forall|k: int| 0 <= k < b@.len() ==> (#[trigger] b@[k]).0 <= b@[k].1 <= cs@.len()
            && cs@.subrange(b@[k].0 as int, b@[k].1 as int) == split_on(cs@, d)[k],
{
    let mut b: Vec<(usize, usize)> = Vec::new();
    let mut start: usize = 0;
    let mut i: usize = 0;
    while i < cs.len()
        invariant
            start <= i <= cs@.len(),
            b@.len() + 1 == split_on(cs@.take(i as int), d).len(),
            forall|k: int| 0 <= k < b@.len() ==> (#[trigger] b@[k]).0 <= b@[k].1 <= i
                && cs@.subrange(b@[k].0 as int, b@[k].1 as int) == split_on(cs@.take(i as int), d)[k],
            cs@.subrange(start as int, i as int) == split_on(cs@.take(i as int), d).last(),
        decreases cs@.len() - i,
    {
        let ghost pre = cs@.take(i as int);
        let ghost p = split_on(pre, d);
        assert(cs@.take(i + 1).drop_last() =~= pre);
        assert(cs@.take(i + 1).last() == cs@[i as int]);
        if cs[i] == d {
            b.push((start, i));
            start = i + 1;
            assert(cs@.subrange(start as int, (i + 1) as int) =~= Seq::<char>::empty());
        } else {
            assert(cs@.subrange(start as int, (i + 1) as int) =~= cs@.subrange(start as int, i as int).push(cs@[i as int]));
        }
        i = i + 1;
    }
    assert(cs@.take(cs@.len() as int) =~= cs@);
    b.push((start, i));
    b
}

// ---------------------------------------------------------------------------
// Delimiter and header detection
// ---------------------------------------------------------------------------

/// Number of occurrences of `c` in `s`.
pub open spec fn char_count(s: Seq<char>, c: char) -> nat
    decreases s.len(),
{
    if s.len() == 0 { 0 } else { char_count(s.drop_last(), c) + if s.last() == c { 1nat } else { 0nat } }
}

/// The delimiter of a line: the most frequent of `,`, `;` and tab (the
/// earlier one on ties, `,` when none occurs).
pub open spec fn delimiter_spec(line: Seq<char>) -> char {
    let c = char_count(line, ',');
    let s = char_count(line, ';');
    let t = char_count(line, '\t');
    let (best, n) = if s > c { (';', s) } else { (',', c) };
    if t > n { '\t' } else { best }
}

fn count_char(cs: &Vec<char>, c: char) -> (n: usize)
    ensures
        n == char_count(cs@, c),
{
    let mut n: usize = 0;
    let mut i: usize = 0;
    while i < cs.len()
        invariant
            i <= cs@.len(),
            n <= i,
            n == char_count(cs@.take(i as int), c),
        decreases cs@.len() - i,
    {
        assert(cs@.take(i + 1).drop_last() =~= cs@.take(i as int));
        if cs[i] == c {
            n = n + 1;
        }
        i = i + 1;
    }
    assert(cs@.take(cs@.len() as int) =~= cs@);
    n
}

/// Detect the delimiter of a line (see [`delimiter_spec`]).
pub fn detect_delimiter(line: &str) -> (d: char)
    ensures
        d == delimiter_spec(line@),
{
    let cs = to_chars(line);
    let candidates: [char; 3] = [',', ';', '\t'];
    let mut best = ',';
    let mut best_count: usize = 0;
    let c0 = count_char(&cs, candidates[0]);
    if c0 > best_count {
        best = candidates[0];
        best_count = c0;
    }
    let c1 = count_char(&cs, candidates[1]);
    if c1 > best_count {
        best = candidates[1];
        best_count = c1;
    }
    let c2 = count_char(&cs, candidates[2]);
    if c2 > best_count {
        best = candidates[2];
        best_count = c2;
    }
    best
}

/// An ASCII letter.
pub open spec fn is_ascii_letter(c: char) -> bool {
    ('a' <= c && c <= 'z') || ('A' <= c && c <= 'Z')
}

/// A line is a header when some field holds an ASCII letter.
pub open spec fn header_spec(fields: Seq<Seq<char>>) -> bool {
    exists|i: int, j: int| 0 <= i < fields.len() && 0 <= j < fields[i].len() && is_ascii_letter(#[trigger] fields[i][j])
}

/// Whether some field holds an ASCII letter.
pub fn looks_like_header(fields: &[&str]) -> (r: bool)
    ensures
        r == header_spec(crate::lagrangian::str_views(fields@)),
{
    let ghost v = crate::lagrangian::str_views(fields@);
    let mut i: usize = 0;
    while i < fields.len()
        invariant
            v == crate::lagrangian::str_views(fields@),
            i <= fields@.len(),
            forall|a: int, b: int| 0 <= a < i && 0 <= b < v[a].len() ==> !is_ascii_letter(#[trigger] v[a][b]),
        decreases fields@.len() - i,
    {
        let cs = to_chars(fields[i]);
        let mut j: usize = 0;
        while j < cs.len()
            invariant
                v == crate::lagrangian::str_views(fields@),
                i < fields@.len(),
                cs@ == v[i as int],
                j <= cs@.len(),
                forall|b: int| 0 <= b < j ==> !is_ascii_letter(#[trigger] cs@[b]),
            decreases cs@.len() - j,
        {
            let c = cs[j];
            if ('a' <= c && c <= 'z') || ('A' <= c && c <= 'Z') {
                assert(is_ascii_letter(v[i as int][j as int]));
                return true;
            }
            j = j + 1;
        }
        i = i + 1;
    }
    false
}

// ---------------------------------------------------------------------------
// Table layout
// ---------------------------------------------------------------------------

/// One data row: its 1-based line number and its trimmed fields.
#[derive(Debug)]
pub struct NumericRowText {
    /// 1-based line number in the input.
    pub line_number: usize,
    /// Trimmed field texts.
    pub fields: Vec<String>,
}

/// Layout of a numeric table: its data rows, how many lines were skipped,
/// and the delimiter.
#[derive(Debug)]
pub struct TableLayout {
    /// Data rows, in input order.
    pub rows: Vec<NumericRowText>,
    /// Number of skipped (empty, comment or header) lines.
    pub skipped_lines: usize,
    /// Field delimiter.
    pub delimiter: char,
}

/// A trimmed line that carries no data: empty or a `#` comment.
pub open spec fn is_blank_or_comment(t: Seq<char>) -> bool {
    t.len() == 0 || t[0] == '#'
}

/// The delimiter of a text: that of its first line that is neither blank nor
/// a comment, `,` when there is none.
pub open spec fn text_delimiter(lines: Seq<Seq<char>>) -> char
    decreases lines.len(),
{
    if lines.len() == 0 {
        ','
    } else if !is_blank_or_comment(trim_spec(lines[0])) {
        delimiter_spec(trim_spec(lines[0]))
    } else {
        text_delimiter(lines.drop_first())
    }
}

/// The trimmed fields of a trimmed line.
pub open spec fn line_fields(t: Seq<char>, d: char) -> Seq<Seq<char>> {
    split_on(t, d).map_values(|f: Seq<char>| trim_spec(f))
}

/// Whether a line is skipped: blank, comment or header.
pub open spec fn skipped_line(line: Seq<char>, d: char) -> bool {
    is_blank_or_comment(trim_spec(line)) || header_spec(line_fields(trim_spec(line), d))
}

/// The data rows among the first `n` lines: (line number, fields).
pub open spec fn data_rows(lines: Seq<Seq<char>>, d: char, n: int) -> Seq<(int, Seq<Seq<char>>)>
    decreases n,
{
    if n <= 0 {
        Seq::empty()
    } else if skipped_line(lines[n - 1], d) {
        data_rows(lines, d, n - 1)
    } else {
        data_rows(lines, d, n - 1).push((n, line_fields(trim_spec(lines[n - 1]), d)))
    }
}

/// Number of skipped lines among the first `n` lines.
pub open spec fn skipped_count(lines: Seq<Seq<char>>, d: char, n: int) -> nat
    decreases n,
{
    if n <= 0 {
        0
    } else {
        skipped_count(lines, d, n - 1) + if skipped_line(lines[n - 1], d) { 1nat } else { 0nat }
    }
}

/// Every line of a table is accounted for exactly once: the data rows and
/// the skipped lines together are all the lines.
pub proof fn lemma_rows_and_skipped_cover_lines(lines: Seq<Seq<char>>, d: char, n: int)
    requires
        0 <= n <= lines.len(),
    ensures
        data_rows(lines, d, n).len() + skipped_count(lines, d, n) == n,
    decreases n,
{
    if n > 0 {
        lemma_rows_and_skipped_cover_lines(lines, d, n - 1);
    }
}

/// The data rows keep the input order: their line numbers strictly increase
/// and lie between 1 and the number of lines.
pub proof fn lemma_data_rows_ordered(lines: Seq<Seq<char>>, d: char, n: int)
    requires
        0 <= n <= lines.len(),
    ensures
        forall|i: int| 0 <= i < data_rows(lines, d, n).len() ==> 1 <= #[trigger] data_rows(lines, d, n)[i].0 <= n,
        forall|i: int, j: int| 0 <= i < j < data_rows(lines, d, n).len() ==>
            #[trigger] data_rows(lines, d, n)[i].0 < #[trigger] data_rows(lines, d, n)[j].0,
    decreases n,
{
    if n > 0 {
        lemma_data_rows_ordered(lines, d, n - 1);
        let prev = data_rows(lines, d, n - 1);
        let cur = data_rows(lines, d, n);
        if !skipped_line(lines[n - 1], d) {
            assert(cur == prev.push((n, line_fields(trim_spec(lines[n - 1]), d))));
            assert forall|i: int| 0 <= i < cur.len() implies 1 <= #[trigger] cur[i].0 <= n by {
                if i < prev.len() {
                    assert(cur[i] == prev[i]);
                }
            }
            assert forall|i: int, j: int| 0 <= i < j < cur.len() implies #[trigger] cur[i].0 < #[trigger] cur[j].0 by {
                assert(cur[i] == prev[i]);
                if j < prev.len() {
                    assert(cur[j] == prev[j]);
                } else {
                    assert(1 <= prev[i].0 <= n - 1);
                }
            }
        }
    }
}

/// The row `r` holds line number `n` and the fields `fs`.
pub open spec fn row_is(r: NumericRowText, row: (int, Seq<Seq<char>>)) -> bool {
    r.line_number as int == row.0 && string_views(r.fields@) == row.1
}

/// Lay out a numeric table (see the module documentation). Fails with a
/// `DataParseError` when no data row remains.
pub fn scan_numeric_table(text: &str) -> (r: Result<TableLayout, SpireError>)
    ensures
        ({
            let lines = lines_spec(text@);
            let d = text_delimiter(lines);
            let rows = data_rows(lines, d, lines.len() as int);
            &&& rows.len() == 0 ==> (r matches Err(SpireError::DataParseError(m))
                    && m@ == "No numeric data rows found in input file"@)
            &&& rows.len() > 0 ==> (r matches Ok(t)
                    && t.delimiter == d
                    && t.skipped_lines == skipped_count(lines, d, lines.len() as int)
                    && t.rows@.len() == rows.len()
                    && forall|k: int| 0 <= k < rows.len() ==> #[trigger] row_is(t.rows@[k], rows[k]))
        }),
{
    let cs = to_chars(text);
    let bounds = split_bounds(&cs, '\n');
    let ghost pieces = split_on(cs@, '\n');
    proof { lemma_split_nonempty(cs@, '\n'); }
    let last = bounds[bounds.len() - 1];
    let n_lines: usize = if last.0 == last.1 { bounds.len() - 1 } else { bounds.len() };
    let ghost lines = lines_spec(text@);
    assert(lines.len() == n_lines);
    assert(forall|k: int| 0 <= k < n_lines ==> #[trigger] lines[k] == pieces[k]);
    let delimiter = first_delimiter(&cs, &bounds, n_lines, Ghost(lines), Ghost(pieces));
    // Rows.
    let mut rows: Vec<NumericRowText> = Vec::new();
    let mut skipped: usize = 0;
    let mut i: usize = 0;
    while i < n_lines
        invariant
            i <= n_lines == lines.len() <= bounds@.len(),
            bounds@.len() == pieces.len(),
            forall|j: int| 0 <= j < n_lines ==> #[trigger] lines[j] == pieces[j],
            forall|j: int| 0 <= j < bounds@.len() ==> (#[trigger] bounds@[j]).0 <= bounds@[j].1 <= cs@.len()
                && cs@.subrange(bounds@[j].0 as int, bounds@[j].1 as int) == pieces[j],
            skipped == skipped_count(lines, delimiter, i as int),
            skipped <= i,
            rows@.len() == data_rows(lines, delimiter, i as int).len(),
            forall|j: int| 0 <= j < rows@.len() ==> #[trigger] row_is(rows@[j], data_rows(lines, delimiter, i as int)[j]),
        decreases n_lines - i,
    {
        let t = trim_range(&cs, bounds[i].0, bounds[i].1);
        assert(t@ == trim_spec(lines[i as int]));
        if t.len() == 0 || t[0] == '#' {
            skipped = skipped + 1;
        } else {
            let fb = split_bounds(&t, delimiter);
            let mut fields: Vec<String> = Vec::new();
            let mut f: usize = 0;
            while f < fb.len()
                invariant
                    f <= fb@.len(),
                    fb@.len() == split_on(t@, delimiter).len(),
                    forall|q: int| 0 <= q < fb@.len() ==> (#[trigger] fb@[q]).0 <= fb@[q].1 <= t@.len()
                        && t@.subrange(fb@[q].0 as int, fb@[q].1 as int) == split_on(t@, delimiter)[q],
                    fields@.len() == f,
                    forall|q: int| 0 <= q < f ==> #[trigger] fields@[q]@ == trim_spec(split_on(t@, delimiter)[q]),
                decreases fb@.len() - f,
            {
                let piece = trim_range(&t, fb[f].0, fb[f].1);
                fields.push(chars_to_string(&piece));
                f = f + 1;
            }
            assert(string_views(fields@) =~= line_fields(t@, delimiter));
            let header = fields_have_letter(&fields);
            if header {
                skipped = skipped + 1;
            } else {
                rows.push(NumericRowText { line_number: i + 1, fields });
            }
        }
        i = i + 1;
    }
    if rows.len() == 0 {
        return Err(SpireError::DataParseError(String::from_str("No numeric data rows found in input file")));
    }
    Ok(TableLayout { rows, skipped_lines: skipped, delimiter })
}

/// Message of the error for data row `line` when it holds fewer than the
/// two (x, y) fields a numeric table needs.
pub open spec fn narrow_row_text(line: nat) -> Seq<char> {
    "Row "@ + nat_decimal(line) + " must contain at least x,y columns"@
}

/// Check that a data row holds at least the x and y fields: `Ok` exactly
/// when it has two or more, else a `DataParseError` naming its line.
/// (A table is read row by row, each row's numbers before its width, so
/// the reader calls this after reading the row's numbers.)
pub fn check_row_width(row: &NumericRowText) -> (r: Result<(), SpireError>)
    ensures
        row.fields@.len() >= 2 <==> r is Ok,
        row.fields@.len() < 2 ==> (r matches Err(SpireError::DataParseError(m))
            && m@ == narrow_row_text(row.line_number as nat)),
{
    if row.fields.len() >= 2 {
        return Ok(());
    }
    let mut m = String::from_str("Row ");
    push_nat(&mut m, row.line_number as u64);
    push_str(&mut m, " must contain at least x,y columns");
    Err(SpireError::DataParseError(m))
}

/// The delimiter of the first content line among the first `n_lines` pieces.
fn first_delimiter(
    cs: &Vec<char>,
    bounds: &Vec<(usize, usize)>,
    n_lines: usize,
    Ghost(lines): Ghost<Seq<Seq<char>>>,
    Ghost(pieces): Ghost<Seq<Seq<char>>>,
) -> (d: char)
    requires
        n_lines == lines.len() <= bounds@.len(),
        bounds@.len() == pieces.len(),
        forall|j: int| 0 <= j < n_lines ==> #[trigger] lines[j] == pieces[j],
        forall|j: int| 0 <= j < bounds@.len() ==> (#[trigger] bounds@[j]).0 <= bounds@[j].1 <= cs@.len()
            && cs@.subrange(bounds@[j].0 as int, bounds@[j].1 as int) == pieces[j],
    ensures
        d == text_delimiter(lines),
{
    let mut k: usize = 0;
    assert(lines.skip(0) =~= lines);
    while k < n_lines
        invariant
            k <= n_lines == lines.len() <= bounds@.len(),
            bounds@.len() == pieces.len(),
            forall|j: int| 0 <= j < n_lines ==> #[trigger] lines[j] == pieces[j],
            forall|j: int| 0 <= j < bounds@.len() ==> (#[trigger] bounds@[j]).0 <= bounds@[j].1 <= cs@.len()
                && cs@.subrange(bounds@[j].0 as int, bounds@[j].1 as int) == pieces[j],
            text_delimiter(lines) == text_delimiter(lines.skip(k as int)),
        decreases n_lines - k,
    {
        let t = trim_range(cs, bounds[k].0, bounds[k].1);
        assert(lines.skip(k as int)[0] == lines[k as int]);
        assert(lines.skip(k as int).drop_first() =~= lines.skip(k + 1));
        if t.len() > 0 && t[0] != '#' {
            let ts = chars_to_string(&t);
            return detect_delimiter(ts.as_str());
        }
        k = k + 1;
    }
    assert(lines.skip(k as int).len() == 0);
    ','
}

/// Whether some string of `fields` holds an ASCII letter.
fn fields_have_letter(fields: &Vec<String>) -> (r: bool)
    ensures
        r == header_spec(string_views(fields@)),
{
    let ghost v = string_views(fields@);
    let mut i: usize = 0;
    while i < fields.len()
        invariant
            v == string_views(fields@),
            i <= fields@.len(),
            forall|a: int, b: int| 0 <= a < i && 0 <= b < v[a].len() ==> !is_ascii_letter(#[trigger] v[a][b]),
        decreases fields@.len() - i,
    {
        let cs = to_chars(fields[i].as_str());
        let mut j: usize = 0;
        while j < cs.len()
            invariant
                v == string_views(fields@),
                i < fields@.len(),
                cs@ == v[i as int],
                j <= cs@.len(),
                forall|b: int| 0 <= b < j ==> !is_ascii_letter(#[trigger] cs@[b]),
            decreases cs@.len() - j,
        {
            let c = cs[j];
            if ('a' <= c && c <= 'z') || ('A' <= c && c <= 'Z') {
                assert(is_ascii_letter(v[i as int][j as int]));
                return true;
            }
            j = j + 1;
        }
        i = i + 1;
    }
    false
}

} // verus!
