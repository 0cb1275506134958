//! The heuristic line scanner: one pass over the source text, carrying an
//! open-block count and a string-literal state across lines, and emitting
//! errors and style warnings as it goes.
//!
//! The whole behaviour is pinned down by the spec-level model `scan_report`,
//! which folds `scan_line` over the split lines and then appends the
//! end-of-input diagnostics and the summary.

use vstd::prelude::*;
use vstd::string::StringExecFns;

use crate::text::contains_chars;
use crate::text::contains_seq;
use crate::text::dec_digits;
use crate::text::eq_chars;
use crate::text::first_token;
use crate::text::first_token_chars;
use crate::text::has_two_tokens;
use crate::text::has_two_tokens_chars;
use crate::text::chars_of;
use crate::text::starts_with_chars;
use crate::text::starts_with_seq;
use crate::text::subvec;
use crate::text::trim_chars;
use crate::text::trim_seq;
use crate::text::u64_to_dec;

verus! {

// ---------------------------------------------------------------------------
// Splitting the source into lines
// ---------------------------------------------------------------------------

/// Index of the first line feed at or after `i`, or the length.
pub open spec fn next_newline(s: Seq<char>, i: int) -> int
    decreases s.len() - i
        when 0 <= i <= s.len()
{
    if i >= s.len() {
        s.len() as int
    } else if s[i] == '\n' {
        i
    } else {
        next_newline(s, i + 1)
    }
}

/// `next_newline` stays between its start and the length.
pub proof fn lemma_next_newline_bounds(s: Seq<char>, i: int)
    requires
        0 <= i <= s.len(),
    ensures
        i <= next_newline(s, i) <= s.len(),
    decreases s.len() - i,
{
    if i < s.len() && s[i] != '\n' {
        lemma_next_newline_bounds(s, i + 1);
    }
}

/// `next_newline(s, i)` is exactly the position `k` before which there is no
/// line feed from `i` on and which holds one (or the end).
pub proof fn lemma_next_newline_is(s: Seq<char>, i: int, k: int)
    requires
        0 <= i <= k <= s.len(),
        forall|j: int| i <= j < k ==> s[j] != '\n',
        k < s.len() ==> s[k] == '\n',
    ensures
        next_newline(s, i) == k,
    decreases k - i,
{
    if i < k {
        lemma_next_newline_is(s, i + 1, k);
    }
}

/// The text of the line that starts at `i` and whose line feed (or the end of
/// the input) sits at `e`: a carriage return just before a line feed is not
/// part of the line.
pub open spec fn line_content(s: Seq<char>, i: int, e: int) -> Seq<char> {
    if e < s.len() && i <= e - 1 && s[e - 1] == '\r' {
        s.subrange(i, e - 1)
    } else {
        s.subrange(i, e)
    }
}

/// The lines of `s` from position `i` on: split at line feeds, with a final
/// line without a terminator included and no empty line after a terminator
/// that ends the input.
pub open spec fn split_lines_from(s: Seq<char>, i: int) -> Seq<Seq<char>>
    decreases s.len() - i
        when 0 <= i <= s.len()
        via split_lines_from_decreases
{
    if i >= s.len() {
        Seq::<Seq<char>>::empty()
    } else {
        let e = next_newline(s, i);
        if e >= s.len() {
            seq![line_content(s, i, e)]
        } else {
            seq![line_content(s, i, e)] + split_lines_from(s, e + 1)
        }
    }
}

#[via_fn]
proof fn split_lines_from_decreases(s: Seq<char>, i: int) {
    if 0 <= i < s.len() {
        lemma_next_newline_bounds(s, i);
    }
}

/// Splits the source into its lines, as `split_lines_from` describes.
pub fn split_lines(src: &Vec<char>) -> (r: Vec<Vec<char>>)
    ensures
        r.deep_view() == split_lines_from(src@, 0),
{
    let n = src.len();
    let mut r: Vec<Vec<char>> = Vec::new();
    let mut i: usize = 0;
    while i < n
        invariant
            i <= n == src@.len(),
            split_lines_from(src@, 0) == r.deep_view() + split_lines_from(src@, i as int),
        decreases n - i,
    {
        let mut e: usize = i;
        while e < n
            invariant
                i <= e <= n == src@.len(),
                forall|j: int| i <= j < e ==> src@[j] != '\n',
            ensures
                i <= e <= n,
                forall|j: int| i <= j < e ==> src@[j] != '\n',
                e < n ==> src@[e as int] == '\n',
            decreases n - e,
        {
            if src[e] == '\n' {
                break;
            }
            e = e + 1;
        }
        proof {
            lemma_next_newline_is(src@, i as int, e as int);
        }
        let line: Vec<char> = if e < n && i < e && src[e - 1] == '\r' {
            subvec(src, i, e - 1)
        } else {
            subvec(src, i, e)
        };
        proof {
            assert(line@ == line_content(src@, i as int, e as int));
        }
        let ghost pre = r.deep_view();
        r.push(line);
        proof {
            assert(line.deep_view() =~= line@);
            assert(r.deep_view() =~= pre.push(line@));
            assert(pre + split_lines_from(src@, i as int) =~= r.deep_view()
                + (if e < n {
                    split_lines_from(src@, e as int + 1)
                } else {
                    Seq::<Seq<char>>::empty()
                }));
        }
        if e < n {
            i = e + 1;
        } else {
            i = n;
        }
    }
    proof {
        assert(r.deep_view() + split_lines_from(src@, n as int) =~= r.deep_view());
    }
    r
}

// ---------------------------------------------------------------------------
// The per-line rules
// ---------------------------------------------------------------------------

/// The string-literal state after scanning `line` from position `i`, starting
/// inside a literal opened by `delim` when `in_str` holds: a quote opens a
/// literal, the matching quote closes it unless the next character in the
/// line is a backslash.
pub open spec fn string_scan(line: Seq<char>, i: int, in_str: bool, delim: char) -> (bool, char)
    decreases line.len() - i
        when 0 <= i <= line.len()
{
    if i >= line.len() {
        (in_str, delim)
    } else {
        let c = line[i];
        if !in_str && (c == '"' || c == '\'') {
            string_scan(line, i + 1, true, c)
        } else if in_str && c == delim && !(i + 1 < line.len() && line[i + 1] == '\\') {
            string_scan(line, i + 1, false, delim)
        } else {
            string_scan(line, i + 1, in_str, delim)
        }
    }
}

/// A trimmed line that opens a block: it starts with one of the fixed
/// keywords, or carries a block-parameter marker.
pub open spec fn is_block_opener(t: Seq<char>) -> bool {
    starts_with_seq(t, "def "@) || starts_with_seq(t, "class "@) || starts_with_seq(
        t,
        "module "@,
    ) || starts_with_seq(t, "if "@) || starts_with_seq(t, "unless "@) || starts_with_seq(
        t,
        "while "@,
    ) || starts_with_seq(t, "for "@) || starts_with_seq(t, "case "@) || starts_with_seq(
        t,
        "begin"@,
    ) || contains_seq(t, "do |"@)
}

/// A trimmed line whose print-like call spells a newline as a two-character
/// escape, which the style rules discourage.
pub open spec fn warns_puts_escape(t: Seq<char>) -> bool {
    contains_seq(t, "puts"@) && contains_seq(t, "\\n"@)
}

/// The leading words that are exempt from the bare-argument warning.
pub open spec fn exempt_leading_word(t: Seq<char>) -> bool {
    t == "if"@ || t == "unless"@ || t == "while"@ || t == "for"@ || t == "class"@ || t
        == "module"@ || t == "def"@ || t == "end"@ || t == "puts"@ || t == "print"@ || t == "p"@
}

/// A trimmed line that looks like a bare-word method call with arguments:
/// spaced tokens, no parenthesis, no assignment, and a first token outside
/// the keyword list.
pub open spec fn warns_bare_args(t: Seq<char>) -> bool {
    contains_seq(t, " "@) && !contains_seq(t, "("@) && !contains_seq(t, "="@) && has_two_tokens(
        t,
    ) && !exempt_leading_word(first_token(t))
}

// ---------------------------------------------------------------------------
// The diagnostic messages
// ---------------------------------------------------------------------------

/// The error for a closer with no matching opener on line `n`.
pub open spec fn msg_unexpected_end(n: nat) -> Seq<char> {
    "Line "@ + dec_digits(n) + ": Unexpected 'end' - no matching block opening"@
}

/// The warning for a print-like call that spells a newline escape, on line `n`.
pub open spec fn msg_puts_warning(n: nat) -> Seq<char> {
    "Line "@ + dec_digits(n) + ": Consider using multiple puts statements instead of \\n"@
}

/// The warning for a bare-word call without parentheses, on line `n`.
pub open spec fn msg_parens_warning(n: nat) -> Seq<char> {
    "Line "@ + dec_digits(n) + ": Consider using parentheses for method arguments"@
}

/// The aggregate error for `k` block openers left unmatched at the end.
pub open spec fn msg_missing_ends(k: nat) -> Seq<char> {
    "Missing "@ + dec_digits(k) + " 'end' statement(s)"@
}

/// The error for a string literal still open at the end, with its delimiter.
pub open spec fn msg_unclosed_string(d: char) -> Seq<char> {
    "Unclosed string literal (started with "@ + seq![d] + ")"@
}

/// The summary line for `e` errors and `w` warnings.
pub open spec fn summary_counts(e: nat, w: nat) -> Seq<char> {
    "Found "@ + dec_digits(e) + " error(s) and "@ + dec_digits(w) + " warning(s)"@
}

// ---------------------------------------------------------------------------
// The scan model
// ---------------------------------------------------------------------------

/// The scanner's state after some prefix of the lines: the open-block count,
/// the string-literal state, and the diagnostics gathered so far.
pub ghost struct ScanModel {
    pub opens: nat,
    pub in_str: bool,
    pub delim: char,
    pub errors: Seq<Seq<char>>,
    pub warnings: Seq<Seq<char>>,
}

/// The state before any line is scanned.
pub open spec fn initial_state() -> ScanModel {
    ScanModel { opens: 0, in_str: false, delim: ' ', errors: Seq::empty(), warnings: Seq::empty() }
}

/// One line's effect on the state. `n` is the 1-based line number. The
/// string state is updated from the raw line; the block and style rules look
/// at the trimmed line. A line that matches any opener pattern raises the
/// count once; a line that is exactly `end` lowers it, or is reported when
/// the count is already zero.
pub open spec fn scan_line(st: ScanModel, line: Seq<char>, n: nat) -> ScanModel {
    let t = trim_seq(line);
    let strstate = string_scan(line, 0, st.in_str, st.delim);
    let opens1: nat = if is_block_opener(t) {
        st.opens + 1
    } else {
        st.opens
    };
    let opens2: nat = if t == "end"@ && opens1 > 0 {
        (opens1 - 1) as nat
    } else {
        opens1
    };
    let errors2 = if t == "end"@ && opens1 == 0 {
        st.errors.push(msg_unexpected_end(n))
    } else {
        st.errors
    };
    let warnings1 = if warns_puts_escape(t) {
        st.warnings.push(msg_puts_warning(n))
    } else {
        st.warnings
    };
    let warnings2 = if warns_bare_args(t) {
        warnings1.push(msg_parens_warning(n))
    } else {
        warnings1
    };
    ScanModel { opens: opens2, in_str: strstate.0, delim: strstate.1, errors: errors2, warnings: warnings2 }
}

/// The state after the first `i` lines.
pub open spec fn scan_upto(lines: Seq<Seq<char>>, i: int) -> ScanModel
    decreases i
        when 0 <= i <= lines.len()
{
    if i <= 0 {
        initial_state()
    } else {
        scan_line(scan_upto(lines, i - 1), lines[i - 1], i as nat)
    }
}

/// The errors of the finished report: the per-line errors, then the
/// missing-closer aggregate, then the unclosed-string error.
pub open spec fn final_errors(st: ScanModel) -> Seq<Seq<char>> {
    let e1 = if st.opens > 0 {
        st.errors.push(msg_missing_ends(st.opens))
    } else {
        st.errors
    };
    if st.in_str {
        e1.push(msg_unclosed_string(st.delim))
    } else {
        e1
    }
}

/// The summary for the finished report.
pub open spec fn spec_summary(errors: Seq<Seq<char>>, warnings: Seq<Seq<char>>) -> Seq<char> {
    if errors.len() == 0 && warnings.len() == 0 {
        "No issues found!"@
    } else {
        summary_counts(errors.len(), warnings.len())
    }
}

/// The report a scan of `src` produces.
pub ghost struct ReportModel {
    pub errors: Seq<Seq<char>>,
    pub warnings: Seq<Seq<char>>,
    pub summary: Seq<char>,
}

/// The lines a scan of `src` works through.
pub open spec fn source_lines(src: Seq<char>) -> Seq<Seq<char>> {
    split_lines_from(src, 0)
}

/// The scanner's state once every line of `src` is scanned.
pub open spec fn final_state(src: Seq<char>) -> ScanModel {
    scan_upto(source_lines(src), source_lines(src).len() as int)
}

/// The whole scan, as a function of the source text alone.
pub open spec fn scan_report(src: Seq<char>) -> ReportModel {
    let st = final_state(src);
    let errs = final_errors(st);
    ReportModel { errors: errs, warnings: st.warnings, summary: spec_summary(errs, st.warnings) }
}


// ---------------------------------------------------------------------------
// The executable scanner
// ---------------------------------------------------------------------------

/// The report of one scan: the errors, the warnings, and a one-line summary,
/// in the order the scan produced them.
pub struct SimpleLintResult {
    pub errors: Vec<String>,
    pub warnings: Vec<String>,
    pub summary: String,
}

impl View for SimpleLintResult {
    type V = ReportModel;

    open spec fn view(&self) -> ReportModel {
        ReportModel {
            errors: self.errors.deep_view(),
            warnings: self.warnings.deep_view(),
            summary: self.summary@,
        }
    }
}

/// Builds "Line <n><tail>".
fn build_line_msg(n: u64, tail: &str) -> (r: String)
    ensures
        r@ == "Line "@ + dec_digits(n as nat) + tail@,
{
    let mut m = "Line ".to_owned();
    let num = u64_to_dec(n);
    m.append(num.as_str());
    m.append(tail);
    proof {
        assert(m@ =~= "Line "@ + dec_digits(n as nat) + tail@);
    }
    m
}

/// Builds the aggregate missing-closer error for `k` open blocks.
fn build_missing_msg(k: u64) -> (r: String)
    ensures
        r@ == msg_missing_ends(k as nat),
{
    let mut m = "Missing ".to_owned();
    let num = u64_to_dec(k);
    m.append(num.as_str());
    m.append(" 'end' statement(s)");
    proof {
        assert(m@ =~= msg_missing_ends(k as nat));
    }
    m
}

/// Builds the unclosed-string error for the delimiter `d`.
fn build_unclosed_msg(d: char) -> (r: String)
    requires
        d == '"' || d == '\'',
    ensures
        r@ == msg_unclosed_string(d),
{
    let quote: &str = if d == '"' {
        "\""
    } else {
        "'"
    };
    proof {
        reveal_strlit("\"");
        reveal_strlit("'");
        assert(quote@ =~= seq![d]);
    }
    let mut m = "Unclosed string literal (started with ".to_owned();
    m.append(quote);
    m.append(")");
    proof {
        assert(m@ =~= msg_unclosed_string(d));
    }
    m
}

/// Builds the summary for `e` errors and `w` warnings.
fn build_summary(e: u64, w: u64) -> (r: String)
    ensures
        r@ == summary_counts(e as nat, w as nat),
{
    let mut m = "Found ".to_owned();
    let en = u64_to_dec(e);
    m.append(en.as_str());
    m.append(" error(s) and ");
    let wn = u64_to_dec(w);
    m.append(wn.as_str());
    m.append(" warning(s)");
    proof {
        assert(m@ =~= summary_counts(e as nat, w as nat));
    }
    m
}

/// Applies `string_scan` to one line.
fn scan_string_line(line: &Vec<char>, in0: bool, d0: char) -> (r: (bool, char))
    ensures
        r == string_scan(line@, 0, in0, d0),
{
    let n = line.len();
    let mut in_s = in0;
    let mut d = d0;
    let mut i: usize = 0;
    while i < n
        invariant
            i <= n == line@.len(),
            string_scan(line@, 0, in0, d0) == string_scan(line@, i as int, in_s, d),
        decreases n - i,
    {
        let c = line[i];
        if !in_s && (c == '"' || c == '\'') {
            in_s = true;
            d = c;
        } else if in_s && c == d {
            if !(i + 1 < n && line[i + 1] == '\\') {
                in_s = false;
            }
        }
        i = i + 1;
    }
    (in_s, d)
}

/// Decides `is_block_opener` for a trimmed line.
fn is_opener(t: &Vec<char>) -> (r: bool)
    ensures
        r == is_block_opener(t@),
{
    starts_with_chars(t, "def ") || starts_with_chars(t, "class ") || starts_with_chars(
        t,
        "module ",
    ) || starts_with_chars(t, "if ") || starts_with_chars(t, "unless ") || starts_with_chars(
        t,
        "while ",
    ) || starts_with_chars(t, "for ") || starts_with_chars(t, "case ") || starts_with_chars(
        t,
        "begin",
    ) || contains_chars(t, "do |")
}

/// Decides `warns_bare_args` for a trimmed line.
fn bare_args_check(t: &Vec<char>) -> (r: bool)
    ensures
        r == warns_bare_args(t@),
{
    if !contains_chars(t, " ") {
        return false;
    }
    if contains_chars(t, "(") {
        return false;
    }
    if contains_chars(t, "=") {
        return false;
    }
    if !has_two_tokens_chars(t) {
        return false;
    }
    let ft = first_token_chars(t);
    let exempt = eq_chars(&ft, "if") || eq_chars(&ft, "unless") || eq_chars(&ft, "while")
        || eq_chars(&ft, "for") || eq_chars(&ft, "class") || eq_chars(&ft, "module") || eq_chars(
        &ft,
        "def",
    ) || eq_chars(&ft, "end") || eq_chars(&ft, "puts") || eq_chars(&ft, "print") || eq_chars(
        &ft,
        "p",
    );
    !exempt
}

/// A still-open string literal was opened by one of the two quotes.
proof fn lemma_string_scan_delim(line: Seq<char>, i: int, in_str: bool, d: char)
    requires
        0 <= i <= line.len(),
        in_str ==> d == '"' || d == '\'',
    ensures
        string_scan(line, i, in_str, d).0 ==> (string_scan(line, i, in_str, d).1 == '"'
            || string_scan(line, i, in_str, d).1 == '\''),
    decreases line.len() - i,
{
    if i < line.len() {
        let c = line[i];
        if !in_str && (c == '"' || c == '\'') {
            lemma_string_scan_delim(line, i + 1, true, c);
        } else if in_str && c == d && !(i + 1 < line.len() && line[i + 1] == '\\') {
            lemma_string_scan_delim(line, i + 1, false, d);
        } else {
            lemma_string_scan_delim(line, i + 1, in_str, d);
        }
    }
}

/// After any prefix of the lines, a still-open string literal was opened by
/// one of the two quotes.
pub proof fn lemma_scan_delim_quote(lines: Seq<Seq<char>>, i: int)
    requires
        0 <= i <= lines.len(),
    ensures
        scan_upto(lines, i).in_str ==> (scan_upto(lines, i).delim == '"' || scan_upto(
            lines,
            i,
        ).delim == '\''),
    decreases i,
{
    if i > 0 {
        lemma_scan_delim_quote(lines, i - 1);
        let st = scan_upto(lines, i - 1);
        lemma_string_scan_delim(lines[i - 1], 0, st.in_str, st.delim);
    }
}

/// Scans Ruby source text and reports syntax-shaped errors, style warnings,
/// and a summary. The scan is total: no input is rejected, and the result is
/// a function of the text alone, so scanning the same text twice yields the
/// same report.
pub fn simple_lint_ruby(source: &str) -> (r: SimpleLintResult)
    ensures
        r@ == scan_report(source@),
{
    let src = chars_of(source);
    let lines = split_lines(&src);
    let ghost lseq: Seq<Seq<char>> = lines.deep_view();
    let n: usize = lines.len();
    let mut opens: usize = 0;
    let mut in_str: bool = false;
    let mut delim: char = ' ';
    let mut errors: Vec<String> = Vec::new();
    let mut warnings: Vec<String> = Vec::new();
    let mut i: usize = 0;
    while i < n
        invariant
            n == lines@.len(),
            lseq == lines.deep_view(),
            lseq.len() == n as int,
            i <= n,
            opens <= i,
            opens as nat == scan_upto(lseq, i as int).opens,
            in_str == scan_upto(lseq, i as int).in_str,
            delim == scan_upto(lseq, i as int).delim,
            errors.deep_view() == scan_upto(lseq, i as int).errors,
            warnings.deep_view() == scan_upto(lseq, i as int).warnings,
        decreases n - i,
    {
        let ghost st0 = scan_upto(lseq, i as int);
        let line: &Vec<char> = &lines[i];
        proof {
            assert(line.deep_view() =~= line@);
            assert(lseq[i as int] == line@);
        }
        let t = trim_chars(line);
        let ss = scan_string_line(line, in_str, delim);
        in_str = ss.0;
        delim = ss.1;
        if is_opener(&t) {
            opens = opens + 1;
        }
        let lineno: u64 = (i as u64) + 1;
        if eq_chars(&t, "end") {
            if opens > 0 {
                opens = opens - 1;
            } else {
                let ghost epre = errors.deep_view();
                let m = build_line_msg(lineno, ": Unexpected 'end' - no matching block opening");
                errors.push(m);
                proof {
                    assert(errors.deep_view() =~= epre.push(m@));
                }
            }
        }
        if contains_chars(&t, "puts") && contains_chars(&t, "\\n") {
            let ghost wpre = warnings.deep_view();
            let m = build_line_msg(lineno, ": Consider using multiple puts statements instead of \\n");
            warnings.push(m);
            proof {
                assert(warnings.deep_view() =~= wpre.push(m@));
            }
        }
        if bare_args_check(&t) {
            let ghost wpre = warnings.deep_view();
            let m = build_line_msg(lineno, ": Consider using parentheses for method arguments");
            warnings.push(m);
            proof {
                assert(warnings.deep_view() =~= wpre.push(m@));
            }
        }
        i = i + 1;
        proof {
            assert(scan_upto(lseq, i as int) == scan_line(st0, lseq[i - 1], i as nat));
        }
    }
    proof {
        lemma_scan_delim_quote(lseq, n as int);
    }
    let ghost stf = scan_upto(lseq, n as int);
    if opens > 0 {
        let ghost epre = errors.deep_view();
        let m = build_missing_msg(opens as u64);
        errors.push(m);
        proof {
            assert(errors.deep_view() =~= epre.push(m@));
        }
    }
    if in_str {
        let ghost epre = errors.deep_view();
        let m = build_unclosed_msg(delim);
        errors.push(m);
        proof {
            assert(errors.deep_view() =~= epre.push(m@));
        }
    }
    proof {
        assert(errors.deep_view() == final_errors(stf));
    }
    let ecount: usize = errors.len();
    let wcount: usize = warnings.len();
    let summary: String = if ecount == 0 && wcount == 0 {
        "No issues found!".to_owned()
    } else {
        build_summary(ecount as u64, wcount as u64)
    };
    SimpleLintResult { errors, warnings, summary }
}

} // verus!
