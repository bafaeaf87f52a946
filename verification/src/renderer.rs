use vstd::prelude::*;

use vstd::arithmetic::div_mod::lemma_div_is_ordered;

verus! {

/// How a frame is rendered.
#[derive(Debug, Copy, Clone)]
pub struct RenderOptions {
    /// Jitter each sample inside its pixel.
    pub antialiasing: bool,
    /// Samples shot per pixel.
    pub sample_count: i32,
    /// Worker threads of the render pool.
    pub thread_count: usize,
    /// Maximum number of bounces of a ray.
    pub recursion_depth: i32,
}

/// Whole percent of `rows` finished rows out of `total_rows`, rounded down.
pub open spec fn percent_done(rows: nat, total_rows: nat) -> nat {
    ((rows * 100) / total_rows) as nat
}

/// Progress to print once a row finishes, when `rows_before` rows of
/// `total_rows` had finished before it: the new whole percentage, but only
/// when it differs from the one before, so that the output is not spammed.
pub open spec fn spec_progress_report(rows_before: nat, total_rows: nat) -> Option<nat> {
    if percent_done(rows_before, total_rows) != percent_done(rows_before + 1, total_rows) {
        Some(percent_done(rows_before + 1, total_rows))
    } else {
        None
    }
}

/// The percentage a renderer prints when another row of the image is done,
/// if any (see [`spec_progress_report`]).
pub fn progress_report(rows_before: usize, total_rows: usize) -> (report: Option<usize>)
    requires
        total_rows > 0,
        (rows_before + 1) * 100 <= usize::MAX,
    ensures
        (match spec_progress_report(rows_before as nat, total_rows as nat) {
            Some(p) => report == Some(p as usize),
            None => report is None,
        }),
{
    let prev_p = (rows_before * 100) / total_rows;
    let current_p = ((rows_before + 1) * 100) / total_rows;
    if prev_p != current_p {
        Some(current_p)
    } else {
        None
    }
}

/// A report comes exactly when the whole percentage of finished rows, rounded
/// down, changes as the row finishes, and it is the new percentage; this holds
/// for images of any height.
pub proof fn law_report_exactly_on_change(rows_before: nat, total_rows: nat)
    requires
        total_rows > 0,
    ensures
        spec_progress_report(rows_before, total_rows) is Some
            <==> (rows_before * 100) / total_rows != ((rows_before + 1) * 100) / total_rows,
        spec_progress_report(rows_before, total_rows) matches Some(p)
            ==> p == ((rows_before + 1) * 100) / total_rows,
{
}

/// On an image of at least a hundred rows, every whole percentage from 1 to
/// 100 is printed: for each `p` in 1..=100 some row's completion reports
/// exactly `p`. (On a shorter image the percentage jumps by more than one.)
pub proof fn law_every_percentage_reported(total_rows: nat, p: nat)
    requires
        total_rows >= 100,
        1 <= p <= 100,
    ensures
        exists|r: nat| r < total_rows && #[trigger] spec_progress_report(r, total_rows) == Some(p),
{
    let t = total_rows;
    // The first number of finished rows at which the percentage reaches p.
    let r1 = ((p * t + 99) / 100) as nat;
    assert(r1 * 100 >= p * t && r1 * 100 < p * t + 100 && r1 >= 1 && r1 <= t) by (nonlinear_arith)
        requires
            r1 == (p * t + 99) / 100,
            1 <= p <= 100,
            t >= 100,
    ;
    let r = (r1 - 1) as nat;
    assert((r1 * 100) / t == p) by (nonlinear_arith)
        requires
            r1 * 100 >= p * t,
            r1 * 100 < p * t + 100,
            t >= 100,
    ;
    assert((r * 100) / t < p) by (nonlinear_arith)
        requires
            r + 1 == r1,
            r1 * 100 < p * t + 100,
            (r1 - 1) * 100 < p * t,
            t >= 100,
    {
        assert(r * 100 < p * t);
    }
    assert(spec_progress_report(r, t) == Some(p));
}

/// When the last row of the image finishes, the renderer reports 100%.
pub proof fn law_last_row_reports_hundred(total_rows: nat)
    requires
        total_rows > 0,
    ensures
        spec_progress_report((total_rows - 1) as nat, total_rows) == Some(100nat),
{
    let before = (total_rows - 1) as nat;
    assert(((before + 1) * 100) / total_rows == 100) by (nonlinear_arith)
        requires
            total_rows > 0,
            before + 1 == total_rows,
    ;
    assert((before * 100) / total_rows < 100) by (nonlinear_arith)
        requires
            total_rows > 0,
            before + 1 == total_rows,
    ;
}

/// Reports never exceed 100% while rows remain to be counted.
pub proof fn law_report_at_most_hundred(rows_before: nat, total_rows: nat)
    requires
        rows_before < total_rows,
    ensures
        spec_progress_report(rows_before, total_rows) matches Some(p) ==> p <= 100,
{
    assert(((rows_before + 1) * 100) / total_rows <= 100) by (nonlinear_arith)
        requires
            rows_before < total_rows,
    ;
}

/// The percentages printed over a render strictly increase: a later row
/// never repeats or undercuts an earlier report.
pub proof fn law_reports_increase(a: nat, b: nat, total_rows: nat)
    requires
        total_rows > 0,
        a < b,
        spec_progress_report(a, total_rows) is Some,
        spec_progress_report(b, total_rows) is Some,
    ensures
        spec_progress_report(a, total_rows)->0 < spec_progress_report(b, total_rows)->0,
{
    assert((a + 1) * 100 <= b * 100) by (nonlinear_arith)
        requires
            a < b,
    ;
    lemma_div_is_ordered(((a + 1) * 100) as int, (b * 100) as int, total_rows as int);
    assert(b * 100 <= (b + 1) * 100) by (nonlinear_arith);
    lemma_div_is_ordered((b * 100) as int, ((b + 1) * 100) as int, total_rows as int);
}

} // verus!
