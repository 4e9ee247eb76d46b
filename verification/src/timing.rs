//! The measurement harness: size the inner loop, warm up, take the trials, and report
//! the minimum and the median.
//!
//! Times and figures are the caller's: a sample is handed in as an integer that orders
//! as the sample does, and a report gets its figures as text.
use vstd::prelude::*;
use vstd::string::StringExecFns;

use crate::text::push_decimal;

verus! {

/// How long one trial is to take, in nanoseconds.
pub const TRIAL_NS: u128 = 20_000_000;

/// How many iterations the first sizing run makes.
pub const FIRST_ITERS: u64 = 64;

/// The number of iterations from which on the inner loop is not grown any more.
pub const MAX_ITERS: u64 = 268_435_456;

/// What the next run of a measurement is for.
#[derive(Clone, Copy, PartialEq, Eq, Debug, Structural)]
pub enum Phase {
    /// to size the inner loop
    Sizing,
    /// to warm up
    Warmup,
    /// to take a sample
    Trial,
    /// nothing: all samples are taken
    Done,
}

/// A measurement in progress.
pub struct Bench {
    pub phase: Phase,
    /// how many iterations the next run makes
    pub iters: u64,
    /// how many samples are to be taken
    pub trials: usize,
    /// the samples taken so far
    pub samples: Vec<u64>,
}

/// The inner loop is long enough: the run took as long as a trial is to take, or the
/// loop is not grown any more.
pub open spec fn long_enough(elapsed_ns: u128, iters: u64) -> bool {
    elapsed_ns >= TRIAL_NS || iters >= MAX_ITERS
}

/// The size of the loop after `iters` iterations that were too few: `grown`, and at
/// least twice as many.
pub open spec fn grown_size(iters: nat, grown: nat) -> nat {
    if grown < 2 * iters {
        2 * iters
    } else {
        grown
    }
}

/// What follows the warm-up, or a sample, where `taken` of `trials` samples are taken.
pub open spec fn after_samples(taken: nat, trials: nat) -> Phase {
    if taken < trials {
        Phase::Trial
    } else {
        Phase::Done
    }
}

impl Bench {
    /// Samples are only there once trials are run, and all of them at the end.
    pub open spec fn wf(&self) -> bool {
        &&& self.iters >= FIRST_ITERS
        &&& match self.phase {
            Phase::Sizing | Phase::Warmup => self.samples@.len() == 0,
            Phase::Trial => self.samples@.len() < self.trials,
            Phase::Done => self.samples@.len() == self.trials,
        }
    }

    /// A measurement that is to take `trials` samples.
    pub fn new(trials: usize) -> (b: Bench)
        ensures
            b.wf(),
            b.phase == Phase::Sizing,
            b.iters == FIRST_ITERS,
            b.trials == trials,
            b.samples@.len() == 0,
    {
        Bench { phase: Phase::Sizing, iters: FIRST_ITERS, trials, samples: Vec::new() }
    }

    /// Takes note of a run of `iters` iterations that took `elapsed_ns`. `grown` is
    /// the number of iterations to try next where the loop is still too short, which
    /// is at least doubled then, and `sample` the sample that the run gives where it
    /// was a trial.
    pub fn record(&mut self, elapsed_ns: u128, grown: u64, sample: u64)
        requires
            old(self).wf(),
            old(self).phase != Phase::Done,
        ensures
            final(self).wf(),
            final(self).trials == old(self).trials,
            final(self).phase == (match old(self).phase {
                Phase::Sizing => if long_enough(elapsed_ns, old(self).iters) {
                    Phase::Warmup
                } else {
                    Phase::Sizing
                },
                Phase::Warmup => after_samples(0, old(self).trials as nat),
                _ => after_samples(old(self).samples@.len() + 1, old(self).trials as nat),
            }),
            final(self).iters == (if old(self).phase == Phase::Sizing && !long_enough(
                elapsed_ns,
                old(self).iters,
            ) {
                grown_size(old(self).iters as nat, grown as nat)
            } else {
                old(self).iters as nat
            }),
            final(self).phase == Phase::Sizing ==> final(self).iters >= 2 * old(self).iters,
            final(self).samples@ == (if old(self).phase == Phase::Trial {
                old(self).samples@.push(sample)
            } else {
                old(self).samples@
            }),
    {
        match self.phase {
            Phase::Sizing => {
                if elapsed_ns >= TRIAL_NS || self.iters >= MAX_ITERS {
                    self.phase = Phase::Warmup;
                } else {
                    let twice: u64 = 2 * self.iters;
                    self.iters = if grown < twice {
                        twice
                    } else {
                        grown
                    };
                }
            },
            Phase::Warmup => {
                self.phase = if self.trials == 0 {
                    Phase::Done
                } else {
                    Phase::Trial
                };
            },
            Phase::Trial => {
                self.samples.push(sample);
                if self.samples.len() == self.trials {
                    self.phase = Phase::Done;
                }
            },
            Phase::Done => {},
        }
    }
}

/// How many times the loop can be grown before it is not grown any more.
pub const MAX_GROWTHS: usize = 22;

/// Sizing ends: a loop that starts with `FIRST_ITERS` iterations and is at least doubled
/// each time is long enough after `MAX_GROWTHS` runs, however long they took.
pub proof fn law_sizing_ends(sizes: Seq<u64>, elapsed_ns: u128)
    requires
        sizes.len() > MAX_GROWTHS,
        sizes[0] >= FIRST_ITERS,
        forall|i: int| 0 <= i < MAX_GROWTHS ==> #[trigger] sizes[i + 1] >= 2 * sizes[i],
    ensures
        long_enough(elapsed_ns, sizes[MAX_GROWTHS as int]),
{
    lemma_sizes_double(sizes, 22);
    assert(vstd::arithmetic::power2::pow2(22) == 4194304) by {
        vstd::arithmetic::power2::lemma2_to64();
    }
}

/// After `k` doublings a size is the power of two times as large.
proof fn lemma_sizes_double(sizes: Seq<u64>, k: nat)
    requires
        k <= MAX_GROWTHS < sizes.len(),
        sizes[0] >= FIRST_ITERS,
        forall|i: int| 0 <= i < MAX_GROWTHS ==> #[trigger] sizes[i + 1] >= 2 * sizes[i],
    ensures
        sizes[k as int] >= FIRST_ITERS * vstd::arithmetic::power2::pow2(k),
    decreases k,
{
    if k == 0 {
        vstd::arithmetic::power2::lemma2_to64();
    } else {
        lemma_sizes_double(sizes, (k - 1) as nat);
        vstd::arithmetic::power2::lemma_pow2_unfold(k);
        assert(sizes[(k - 1) + 1] >= 2 * sizes[k - 1]);
    }
}

/// No item is greater than a later one.
pub open spec fn ascending(s: Seq<u64>) -> bool {
    forall|i: int, j: int| 0 <= i <= j < s.len() ==> s[i] <= s[j]
}

/// `s` holds the items of `samples` in ascending order.
pub open spec fn sorts(s: Seq<u64>, samples: Seq<u64>) -> bool {
    ascending(s) && s.to_multiset() == samples.to_multiset()
}

/// Puts `sample` in its place.
fn insert_sorted(sorted: &mut Vec<u64>, sample: u64)
    requires
        ascending(old(sorted)@),
    ensures
        ascending(final(sorted)@),
        final(sorted)@.to_multiset() == old(sorted)@.to_multiset().insert(sample),
        final(sorted)@.len() == old(sorted)@.len() + 1,
{
    let mut at: usize = 0;
    while at < sorted.len() && sorted[at] <= sample
        invariant
            at <= sorted@.len(),
            forall|i: int| 0 <= i < at ==> #[trigger] sorted@[i] <= sample,
        decreases sorted@.len() - at,
    {
        at = at + 1;
    }
    let ghost before = sorted@;
    sorted.insert(at, sample);
    proof {
        broadcast use vstd::seq_lib::group_to_multiset_ensures;

        assert(sorted@ == before.insert(at as int, sample));
    }
}

/// The minimum and the median of the samples: the first one and the middle one, or
/// the upper of the two middle ones, in ascending order.
pub fn min_and_median(samples: &[u64]) -> (r: (u64, u64))
    requires
        samples@.len() > 0,
    ensures
        exists|s: Seq<u64>|
            sorts(s, samples@) && r == (#[trigger] s[0], s[(samples@.len() / 2) as int]),
        exists|s: Seq<u64>| #[trigger]
            s.to_multiset() == samples@.to_multiset() && (forall|i: int, j: int|
                0 <= i <= j < s.len() ==> s[i] <= s[j]) && r.0 == s[0] && r.1 == s[(samples@.len()
                / 2) as int],
        samples@.contains(r.0),
        samples@.contains(r.1),
        forall|i: int| 0 <= i < samples@.len() ==> r.0 <= #[trigger] samples@[i],
        r.0 <= r.1,
{
    let mut sorted: Vec<u64> = Vec::new();
    let mut k: usize = 0;
    assert(samples@.take(0) =~= sorted@);
    while k < samples.len()
        invariant
            k <= samples@.len(),
            ascending(sorted@),
            sorted@.len() == k,
            sorted@.to_multiset() == samples@.take(k as int).to_multiset(),
        decreases samples@.len() - k,
    {
        insert_sorted(&mut sorted, samples[k]);
        k = k + 1;
        proof {
            broadcast use vstd::seq_lib::group_to_multiset_ensures;

            assert(samples@.take(k as int) =~= samples@.take(k - 1).push(samples@[k - 1]));
        }
    }
    assert(samples@.take(k as int) =~= samples@);
    proof {
        broadcast use vstd::seq_lib::group_to_multiset_ensures;

        assert forall|x: u64| sorted@.contains(x) == samples@.contains(x) by {
            assert(sorted@.to_multiset().count(x) == samples@.to_multiset().count(x));
        }
        assert(sorted@.to_multiset() == samples@.to_multiset() && ascending(sorted@));
        assert(sorted@.contains(sorted@[0]));
        assert(sorted@.contains(sorted@[(samples@.len() / 2) as int]));
        assert forall|i: int| 0 <= i < samples@.len() implies sorted@[0] <= #[trigger] samples@[i] by {
            assert(samples@.contains(samples@[i]));
            assert(sorted@.contains(samples@[i]));
        }
    }
    (sorted[0], sorted[samples.len() / 2])
}

/// The samples can be put in ascending order in one way only, so that the minimum and
/// the median are determined.
pub proof fn law_order_of_samples_is_unique(s: Seq<u64>, t: Seq<u64>, samples: Seq<u64>)
    requires
        sorts(s, samples),
        sorts(t, samples),
    ensures
        s == t,
{
    let leq = |a: u64, b: u64| a <= b;
    assert(vstd::relations::sorted_by(s, leq));
    assert(vstd::relations::sorted_by(t, leq));
    assert(vstd::relations::total_ordering(leq));
    vstd::seq_lib::lemma_sorted_unique(s, t, leq);
}

/// A line of the table: the scenario and its figures.
pub struct TableRow {
    pub group: String,
    pub name: String,
    pub ns_min: String,
    pub ns_median: String,
    /// the minimum over that of the baseline, or a dash
    pub relative: String,
}

/// A line of the CSV file: the scenario, its figures, and how they were measured.
pub struct CsvRow {
    pub group: String,
    pub name: String,
    pub ns_min: String,
    pub ns_median: String,
    pub iters: u64,
    pub trials: usize,
}

/// The two lines above the rows of the table.
pub const TABLE_HEAD: &'static str =
    "| group | scenario | ns/op (min) | ns/op (median) | vs baseline |\n|---|---|---:|---:|---:|\n";

/// The line above the rows of the CSV file.
pub const CSV_HEAD: &'static str = "group,scenario,ns_min,ns_median,iters,trials\n";

/// The group that row `i` shows: none where it is that of the row above.
pub open spec fn shown_group(rows: Seq<TableRow>, i: int) -> Seq<char> {
    if i > 0 && rows[i - 1].group@ == rows[i].group@ {
        Seq::empty()
    } else {
        rows[i].group@
    }
}

/// The table line of `row`, with `group` shown.
pub open spec fn table_line(group: Seq<char>, row: TableRow) -> Seq<char> {
    "| "@ + group + " | "@ + row.name@ + " | "@ + row.ns_min@ + " | "@ + row.ns_median@ + " | "@
        + row.relative@ + " |\n"@
}

/// The table of the first `n` rows.
pub open spec fn table_text(rows: Seq<TableRow>, n: nat) -> Seq<char>
    decreases n,
{
    if n == 0 {
        TABLE_HEAD@
    } else {
        table_text(rows, (n - 1) as nat) + table_line(shown_group(rows, n - 1), rows[n - 1])
    }
}

/// The rows as a table, with each group shown on the first of its rows.
pub fn render_table(rows: &[TableRow]) -> (out: String)
    ensures
        out@ == table_text(rows@, rows@.len()),
{
    let mut out: String = String::new();
    out.append(TABLE_HEAD);
    assert(out@ =~= TABLE_HEAD@);
    let mut i: usize = 0;
    while i < rows.len()
        invariant
            i <= rows@.len(),
            out@ == table_text(rows@, i as nat),
        decreases rows@.len() - i,
    {
        let row: &TableRow = &rows[i];
        let ghost above = out@;
        out.append("| ");
        if i == 0 || rows[i - 1].group != row.group {
            out.append(row.group.as_str());
        }
        out.append(" | ");
        out.append(row.name.as_str());
        out.append(" | ");
        out.append(row.ns_min.as_str());
        out.append(" | ");
        out.append(row.ns_median.as_str());
        out.append(" | ");
        out.append(row.relative.as_str());
        out.append(" |\n");
        assert(out@ =~= above + table_line(shown_group(rows@, i as int), *row));
        i = i + 1;
    }
    out
}

/// The CSV line of `row`.
pub open spec fn csv_line(row: CsvRow) -> Seq<char> {
    row.group@ + ","@ + row.name@ + ","@ + row.ns_min@ + ","@ + row.ns_median@ + ","@
        + crate::text::decimal(row.iters as nat) + ","@ + crate::text::decimal(row.trials as nat)
        + "\n"@
}

/// The CSV text of the first `n` rows.
pub open spec fn csv_text(rows: Seq<CsvRow>, n: nat) -> Seq<char>
    decreases n,
{
    if n == 0 {
        CSV_HEAD@
    } else {
        csv_text(rows, (n - 1) as nat) + csv_line(rows[n - 1])
    }
}

/// The rows as CSV text.
pub fn render_csv(rows: &[CsvRow]) -> (out: String)
    ensures
        out@ == csv_text(rows@, rows@.len()),
{
    let mut out: String = String::new();
    out.append(CSV_HEAD);
    assert(out@ =~= CSV_HEAD@);
    let mut i: usize = 0;
    while i < rows.len()
        invariant
            i <= rows@.len(),
            out@ == csv_text(rows@, i as nat),
        decreases rows@.len() - i,
    {
        let row: &CsvRow = &rows[i];
        let ghost above = out@;
        out.append(row.group.as_str());
        out.append(",");
        out.append(row.name.as_str());
        out.append(",");
        out.append(row.ns_min.as_str());
        out.append(",");
        out.append(row.ns_median.as_str());
        out.append(",");
        push_decimal(&mut out, row.iters);
        out.append(",");
        push_decimal(&mut out, row.trials as u64);
        out.append("\n");
        assert(out@ =~= above + csv_line(*row));
        i = i + 1;
    }
    out
}

/// When the loop is long enough: from a run of 20 ms on, and from 2^28 iterations on; so a
/// longer run of more iterations is long enough where a shorter one was.
pub proof fn law_when_the_loop_is_long_enough(e: u128, i: u64, f: u128, j: u64)
    ensures
        long_enough(e, i) <==> e >= 20_000_000 || i >= 268_435_456,
        long_enough(e, i) && e <= f && i <= j ==> long_enough(f, j),
{
}

/// How the loop grows: to the size asked for, but never to less than twice its size.
pub proof fn law_how_the_loop_grows(iters: nat, grown: nat)
    ensures
        grown_size(iters, grown) >= 2 * iters,
        grown_size(iters, grown) >= grown,
        grown_size(iters, grown) == grown || grown_size(iters, grown) == 2 * iters,
{
}

/// A measurement is done when all samples are taken, and not before.
pub proof fn law_measurements_take_all_samples(b: Bench, taken: nat, trials: nat)
    ensures
        after_samples(taken, trials) == Phase::Done <==> taken >= trials,
        after_samples(taken, trials) == Phase::Trial <==> taken < trials,
        b.wf() && b.phase == Phase::Done ==> b.samples@.len() == b.trials,
        b.wf() && b.phase == Phase::Trial ==> b.samples@.len() < b.trials,
        b.wf() && (b.phase == Phase::Sizing || b.phase == Phase::Warmup) ==> b.samples@.len() == 0,
{
}

/// What it is to sort samples: the same samples, none of them greater than a later one.
pub proof fn law_what_sorting_is(s: Seq<u64>, samples: Seq<u64>)
    ensures
        sorts(s, samples) <==> s.to_multiset() == samples.to_multiset() && (forall|i: int, j: int|
            0 <= i <= j < s.len() ==> s[i] <= s[j]),
{
}

/// The table is its two head lines and then a line for each row, in order: its group, or
/// nothing where the row above is of the same group, whatever stands above that; its
/// name; and its figures.
pub proof fn law_table_line_by_line(rows: Seq<TableRow>, i: int)
    requires
        0 <= i < rows.len(),
    ensures
        table_text(rows, 0)
            == "| group | scenario | ns/op (min) | ns/op (median) | vs baseline |\n|---|---|---:|---:|---:|\n"@,
        i > 0 && rows[i - 1].group@ == rows[i].group@ ==> table_text(rows, (i + 1) as nat)
            == table_text(rows, i as nat) + "|  | "@ + rows[i].name@ + " | "@ + rows[i].ns_min@
            + " | "@ + rows[i].ns_median@ + " | "@ + rows[i].relative@ + " |\n"@,
        i == 0 || rows[i - 1].group@ != rows[i].group@ ==> table_text(rows, (i + 1) as nat)
            == table_text(rows, i as nat) + "| "@ + rows[i].group@ + " | "@ + rows[i].name@
            + " | "@ + rows[i].ns_min@ + " | "@ + rows[i].ns_median@ + " | "@ + rows[i].relative@
            + " |\n"@,
{
    reveal_strlit("| ");
    reveal_strlit(" | ");
    reveal_strlit("|  | ");
    let above = table_text(rows, i as nat);
    let row = rows[i];
    let whole = table_text(rows, (i + 1) as nat);
    assert(whole == above + table_line(shown_group(rows, i), row));
    let figures = row.name@ + " | "@ + row.ns_min@ + " | "@ + row.ns_median@ + " | "@
        + row.relative@ + " |\n"@;
    if i > 0 && rows[i - 1].group@ == rows[i].group@ {
        assert("| "@ + Seq::<char>::empty() + " | "@ =~= "|  | "@);
        assert(whole =~= above + "|  | "@ + row.name@ + " | "@ + row.ns_min@ + " | "@
            + row.ns_median@ + " | "@ + row.relative@ + " |\n"@) by {
            assert(table_line(Seq::empty(), row) =~= "|  | "@ + figures);
            assert(above + ("|  | "@ + figures) =~= above + "|  | "@ + row.name@ + " | "@
                + row.ns_min@ + " | "@ + row.ns_median@ + " | "@ + row.relative@ + " |\n"@);
        }
    } else {
        assert(whole =~= above + "| "@ + row.group@ + " | "@ + row.name@ + " | "@ + row.ns_min@
            + " | "@ + row.ns_median@ + " | "@ + row.relative@ + " |\n"@);
    }
}

/// The table of the first rows is the beginning of the table of all, so every line stays
/// where it is, whatever rows follow.
pub proof fn law_tables_begin_with_their_first_rows(rows: Seq<TableRow>, i: nat, n: nat)
    requires
        i <= n <= rows.len(),
    ensures
        table_text(rows, i).len() <= table_text(rows, n).len(),
        table_text(rows, n).take(table_text(rows, i).len() as int) == table_text(rows, i),
    decreases n,
{
    if i < n {
        law_tables_begin_with_their_first_rows(rows, i, (n - 1) as nat);
    }
    assert(table_text(rows, n).take(table_text(rows, i).len() as int) =~= table_text(rows, i));
}

/// In a run of rows of one group exactly the first row shows it: the line of every later
/// row of the run begins with an empty group cell and the name of the row.
pub proof fn law_a_group_is_shown_once(rows: Seq<TableRow>, first: int, i: int)
    requires
        0 <= first < i < rows.len(),
        forall|j: int| first <= j <= i ==> #[trigger] rows[j].group@ == rows[first].group@,
    ensures
        ({
            let start = table_text(rows, i as nat).len();
            let begin = "|  | "@ + rows[i].name@;
            table_text(rows, (i + 1) as nat).subrange(
                start as int,
                (start + begin.len()) as int,
            ) == begin
        }),
{
    assert(rows[i - 1].group@ == rows[i].group@);
    law_table_line_by_line(rows, i);
    let start = table_text(rows, i as nat).len();
    let begin = "|  | "@ + rows[i].name@;
    assert(table_text(rows, (i + 1) as nat).subrange(start as int, (start + begin.len()) as int)
        =~= begin);
}

/// The CSV text is its head line and then a line for each row, in order: group, name,
/// figures, and the two numbers in decimal, with commas between them.
pub proof fn law_csv_line_by_line(rows: Seq<CsvRow>, i: int)
    requires
        0 <= i < rows.len(),
    ensures
        csv_text(rows, 0) == "group,scenario,ns_min,ns_median,iters,trials\n"@,
        csv_text(rows, (i + 1) as nat) == csv_text(rows, i as nat) + rows[i].group@ + ","@
            + rows[i].name@ + ","@ + rows[i].ns_min@ + ","@ + rows[i].ns_median@ + ","@
            + crate::text::decimal(rows[i].iters as nat) + ","@ + crate::text::decimal(
            rows[i].trials as nat,
        ) + "\n"@,
{
    let above = csv_text(rows, i as nat);
    let row = rows[i];
    assert(csv_text(rows, (i + 1) as nat) == above + csv_line(row));
    assert(above + csv_line(row) =~= above + row.group@ + ","@ + row.name@ + ","@ + row.ns_min@
        + ","@ + row.ns_median@ + ","@ + crate::text::decimal(row.iters as nat) + ","@
        + crate::text::decimal(row.trials as nat) + "\n"@);
}

/// The CSV text of the first rows is the beginning of that of all.
pub proof fn law_csv_begins_with_its_first_rows(rows: Seq<CsvRow>, i: nat, n: nat)
    requires
        i <= n <= rows.len(),
    ensures
        csv_text(rows, i).len() <= csv_text(rows, n).len(),
        csv_text(rows, n).take(csv_text(rows, i).len() as int) == csv_text(rows, i),
    decreases n,
{
    if i < n {
        law_csv_begins_with_its_first_rows(rows, i, (n - 1) as nat);
    }
    assert(csv_text(rows, n).take(csv_text(rows, i).len() as int) =~= csv_text(rows, i));
}

} // verus!
