//! General properties of the scanner, stated and proved against the model in
//! `scan`: a quiet text reports nothing, a text with one excess closer
//! reports exactly that closer, a text with unmatched openers reports exactly
//! the aggregate count, and a scan is a function of its input alone.

use vstd::prelude::*;

use crate::scan::ReportModel;
use crate::scan::final_errors;
use crate::scan::final_state;
use crate::scan::is_block_opener;
use crate::scan::msg_missing_ends;
use crate::scan::msg_unexpected_end;
use crate::scan::scan_line;
use crate::scan::scan_report;
use crate::scan::scan_upto;
use crate::scan::source_lines;
use crate::scan::warns_bare_args;
use crate::scan::warns_puts_escape;
use crate::text::trim_seq;

verus! {

/// How many of the first `i` lines open a block.
pub open spec fn opener_count(lines: Seq<Seq<char>>, i: int) -> nat
    decreases i
        when 0 <= i <= lines.len()
{
    if i <= 0 {
        0
    } else {
        opener_count(lines, i - 1) + (if is_block_opener(trim_seq(lines[i - 1])) {
            1nat
        } else {
            0nat
        })
    }
}

/// How many of the first `i` lines are exactly the closer keyword.
pub open spec fn end_count(lines: Seq<Seq<char>>, i: int) -> nat
    decreases i
        when 0 <= i <= lines.len()
{
    if i <= 0 {
        0
    } else {
        end_count(lines, i - 1) + (if trim_seq(lines[i - 1]) == "end"@ {
            1nat
        } else {
            0nat
        })
    }
}

/// Line `j` is a closer that finds no block open, counting the line's own
/// opener patterns first, so it draws the unexpected-closer error.
pub open spec fn is_unexpected_end_line(lines: Seq<Seq<char>>, j: int) -> bool {
    trim_seq(lines[j]) == "end"@ && (if is_block_opener(trim_seq(lines[j])) {
        scan_upto(lines, j).opens + 1nat
    } else {
        scan_upto(lines, j).opens
    }) == 0
}

/// The running balance: open blocks plus closers seen equals openers seen
/// plus the errors reported so far.
pub proof fn lemma_balance(lines: Seq<Seq<char>>, i: int)
    requires
        0 <= i <= lines.len(),
    ensures
        scan_upto(lines, i).opens + end_count(lines, i) == opener_count(lines, i) + scan_upto(
            lines,
            i,
        ).errors.len(),
    decreases i,
{
    if i > 0 {
        lemma_balance(lines, i - 1);
    }
}

/// With no error reported in the first `i` lines, no line among them is an
/// unexpected closer.
proof fn lemma_no_firing_when_empty(lines: Seq<Seq<char>>, i: int)
    requires
        0 <= i <= lines.len(),
        scan_upto(lines, i).errors.len() == 0,
    ensures
        forall|m: int| 0 <= m < i ==> !is_unexpected_end_line(lines, m),
    decreases i,
{
    if i > 0 {
        assert(scan_upto(lines, i) == scan_line(scan_upto(lines, i - 1), lines[i - 1], i as nat));
        lemma_no_firing_when_empty(lines, i - 1);
    }
}

/// With exactly one error reported in the first `i` lines, exactly one line
/// among them is an unexpected closer, and the error is its message.
proof fn lemma_single_firing(lines: Seq<Seq<char>>, i: int)
    requires
        0 <= i <= lines.len(),
        scan_upto(lines, i).errors.len() == 1,
    ensures
        exists|j: int|
            0 <= j < i && #[trigger] is_unexpected_end_line(lines, j) && scan_upto(lines, i).errors
                =~= seq![msg_unexpected_end((j + 1) as nat)] && (forall|m: int|
                0 <= m < i && m != j ==> !is_unexpected_end_line(lines, m)),
    decreases i,
{
    assert(i > 0);
    let pre = scan_upto(lines, i - 1);
    assert(scan_upto(lines, i) == scan_line(pre, lines[i - 1], i as nat));
    if is_unexpected_end_line(lines, i - 1) {
        assert(pre.errors.len() == 0);
        lemma_no_firing_when_empty(lines, i - 1);
        let j = i - 1;
        assert(0 <= j < i && is_unexpected_end_line(lines, j) && scan_upto(lines, i).errors
            =~= seq![msg_unexpected_end((j + 1) as nat)] && (forall|m: int|
            0 <= m < i && m != j ==> !is_unexpected_end_line(lines, m)));
    } else {
        assert(pre.errors.len() == 1);
        lemma_single_firing(lines, i - 1);
        let j = choose|j: int|
            0 <= j < i - 1 && #[trigger] is_unexpected_end_line(lines, j) && scan_upto(
                lines,
                i - 1,
            ).errors =~= seq![msg_unexpected_end((j + 1) as nat)] && (forall|m: int|
                0 <= m < i - 1 && m != j ==> !is_unexpected_end_line(lines, m));
        assert(0 <= j < i && is_unexpected_end_line(lines, j) && scan_upto(lines, i).errors
            =~= seq![msg_unexpected_end((j + 1) as nat)] && (forall|m: int|
            0 <= m < i && m != j ==> !is_unexpected_end_line(lines, m)));
    }
}

/// Lines that never open a block and never close one leave the counts at zero.
proof fn lemma_counts_zero(lines: Seq<Seq<char>>, i: int)
    requires
        0 <= i <= lines.len(),
        forall|j: int| 0 <= j < i ==> !is_block_opener(trim_seq(#[trigger] lines[j])),
        forall|j: int| 0 <= j < i ==> trim_seq(#[trigger] lines[j]) != "end"@,
    ensures
        opener_count(lines, i) == 0,
        end_count(lines, i) == 0,
    decreases i,
{
    if i > 0 {
        lemma_counts_zero(lines, i - 1);
    }
}

/// Lines that trigger no style rule leave the warnings empty.
proof fn lemma_no_warnings(lines: Seq<Seq<char>>, i: int)
    requires
        0 <= i <= lines.len(),
        forall|j: int|
            0 <= j < i ==> !warns_puts_escape(trim_seq(#[trigger] lines[j])) && !warns_bare_args(
                trim_seq(lines[j]),
            ),
    ensures
        scan_upto(lines, i).warnings.len() == 0,
    decreases i,
{
    if i > 0 {
        lemma_no_warnings(lines, i - 1);
    }
}

/// As long as no prefix of the lines holds more closers than openers, the
/// scan reports no error and its open count is exactly their difference.
pub proof fn lemma_dyck_scan(lines: Seq<Seq<char>>, i: int)
    requires
        0 <= i <= lines.len(),
        forall|j: int| 0 <= j <= i ==> #[trigger] end_count(lines, j) <= opener_count(lines, j),
    ensures
        scan_upto(lines, i).errors =~= Seq::<Seq<char>>::empty(),
        scan_upto(lines, i).opens == opener_count(lines, i) - end_count(lines, i),
    decreases i,
{
    if i > 0 {
        lemma_dyck_scan(lines, i - 1);
        assert(end_count(lines, i) <= opener_count(lines, i));
    }
}

/// A text with no opener line, no closer line, and no string literal left
/// open scans with no errors; when no line triggers a style rule either, the
/// summary is the all-clear text.
pub proof fn lemma_clean_report(src: Seq<char>)
    requires
        forall|j: int|
            0 <= j < source_lines(src).len() ==> !is_block_opener(
                trim_seq(#[trigger] source_lines(src)[j]),
            ),
        forall|j: int|
            0 <= j < source_lines(src).len() ==> trim_seq(#[trigger] source_lines(src)[j])
                != "end"@,
        !final_state(src).in_str,
    ensures
        scan_report(src).errors =~= Seq::<Seq<char>>::empty(),
        (forall|j: int|
            0 <= j < source_lines(src).len() ==> !warns_puts_escape(
                trim_seq(#[trigger] source_lines(src)[j]),
            ) && !warns_bare_args(trim_seq(source_lines(src)[j]))) ==> scan_report(src).summary
            == "No issues found!"@,
{
    let lines = source_lines(src);
    let n = lines.len() as int;
    assert forall|j: int| 0 <= j <= n implies #[trigger] end_count(lines, j) <= opener_count(
        lines,
        j,
    ) by {
        lemma_counts_zero(lines, j);
    }
    lemma_dyck_scan(lines, n);
    lemma_counts_zero(lines, n);
    if forall|j: int|
        0 <= j < source_lines(src).len() ==> !warns_puts_escape(
            trim_seq(#[trigger] source_lines(src)[j]),
        ) && !warns_bare_args(trim_seq(source_lines(src)[j])) {
        lemma_no_warnings(lines, n);
    }
}

/// A text whose lines hold exactly one closer more than they hold openers,
/// and whose openers are all matched, reports exactly one unexpected-closer
/// error — at the single line that closed while nothing stood open — and no
/// missing-closer aggregate.
pub proof fn lemma_one_excess_closer(src: Seq<char>)
    requires
        end_count(source_lines(src), source_lines(src).len() as int) == opener_count(
            source_lines(src),
            source_lines(src).len() as int,
        ) + 1,
        final_state(src).opens == 0,
        !final_state(src).in_str,
    ensures
        exists|j: int|
            0 <= j < source_lines(src).len() && #[trigger] is_unexpected_end_line(
                source_lines(src),
                j,
            ) && scan_report(src).errors =~= seq![msg_unexpected_end((j + 1) as nat)] && (forall|
                m: int,
            |
                0 <= m < source_lines(src).len() && m != j ==> !is_unexpected_end_line(
                    source_lines(src),
                    m,
                )),
{
    let lines = source_lines(src);
    let n = lines.len() as int;
    lemma_balance(lines, n);
    assert(scan_upto(lines, n).errors.len() == 1);
    lemma_single_firing(lines, n);
}

/// A text whose every prefix closes no more blocks than it opened, which
/// leaves `k` openers unmatched, and which leaves no string literal open,
/// reports exactly the one aggregate missing-closer error.
pub proof fn lemma_missing_closers_report(src: Seq<char>, k: nat)
    requires
        forall|j: int|
            0 <= j <= source_lines(src).len() ==> #[trigger] end_count(source_lines(src), j)
                <= opener_count(source_lines(src), j),
        k == opener_count(source_lines(src), source_lines(src).len() as int) - end_count(
            source_lines(src),
            source_lines(src).len() as int,
        ),
        k > 0,
        !final_state(src).in_str,
    ensures
        scan_report(src).errors =~= seq![msg_missing_ends(k)],
{
    let lines = source_lines(src);
    let n = lines.len() as int;
    lemma_dyck_scan(lines, n);
    assert(final_state(src).opens == k);
    assert(final_errors(final_state(src)) =~= seq![msg_missing_ends(k)]);
}

/// A scan's report is a function of the text alone: two scans of the same
/// text yield the same report, with no state carried between them.
pub proof fn lemma_scan_deterministic(src: Seq<char>, a: ReportModel, b: ReportModel)
    requires
        a == scan_report(src),
        b == scan_report(src),
    ensures
        a == b,
{
}

} // verus!
