//! The comparison table: one row for each revision, one column for each
//! benchmark, every metric beside its change against the first revision.

use vstd::prelude::*;
use vstd::string::*;
use crate::config::{bench_label, commit_label, Config};
use crate::metric::{cell_text, metric_text, Metric};
use crate::results::Results;
use crate::table::{grid_view, print_markdown, rendered, rotate_table, rotated};
use crate::text::views;

verus! {

/// The text of the table's top left cell.
pub const LINK_TEXT: &'static str =
    "<sub><sup>[bevy_benchy](https://github.com/rparrett/bevy_benchy)</sup></sub>";

/// Why no table could be built.
#[derive(Clone, Copy, Debug, PartialEq, Eq, Structural)]
pub enum ReportError {
    /// The store holds no metric for this benchmark at this revision.
    ResultMissing { bench: usize, commit: usize },
}

/// The header row: the corner cell, then the benchmarks' names.
pub open spec fn header_row(config: Config) -> Seq<Seq<char>> {
    seq![LINK_TEXT@] + Seq::new(config.benches@.len(), |j: int| bench_label(config.benches@[j]))
}

/// The row of revision `i`: its name, then one cell for each benchmark,
/// compared with the same benchmark at revision 0.
pub open spec fn data_row(config: Config, metrics: Map<(usize, usize), Metric>, i: int) -> Seq<
    Seq<char>,
> {
    seq![commit_label(config.commits@[i])] + Seq::new(
        config.benches@.len(),
        |j: int|
            cell_text(
                i as nat,
                metrics[(j as usize, i as usize)].hundredths as nat,
                metrics[(j as usize, 0usize)].hundredths as nat,
            ),
    )
}

/// The grid with revisions as rows.
pub open spec fn grid_of(config: Config, metrics: Map<(usize, usize), Metric>) -> Seq<
    Seq<Seq<char>>,
> {
    seq![header_row(config)] + Seq::new(
        config.commits@.len(),
        |i: int| data_row(config, metrics, i),
    )
}

/// The table as it is shown: the grid, with rows and columns swapped where
/// the header row has more cells than the grid has rows, so that the
/// longer side runs down.
pub open spec fn table_of(config: Config, metrics: Map<(usize, usize), Metric>) -> Seq<
    Seq<Seq<char>>,
> {
    let grid = grid_of(config, metrics);
    if grid[0].len() > grid.len() {
        rotated(grid)
    } else {
        grid
    }
}

/// The store has a metric for every benchmark at every revision.
pub open spec fn covered(config: Config, metrics: Map<(usize, usize), Metric>) -> bool {
    forall|i: usize, j: usize|
        i < config.commits@.len() && j < config.benches@.len() ==> #[trigger] metrics.contains_key(
            (j, i),
        )
}

/// Pair (`bench`, `commit`) is the first without a metric, going through
/// the revisions in order and through the benchmarks at each.
pub open spec fn first_missing(
    config: Config,
    metrics: Map<(usize, usize), Metric>,
    bench: usize,
    commit: usize,
) -> bool {
    &&& commit < config.commits@.len()
    &&& bench < config.benches@.len()
    &&& !metrics.contains_key((bench, commit))
    &&& forall|i: usize, j: usize|
        i < config.commits@.len() && j < config.benches@.len() && (i < commit || (i == commit && j
            < bench)) ==> #[trigger] metrics.contains_key((j, i))
}

/// What building the table gives: the table where every pair has its
/// metric, else the first pair that has none.
pub open spec fn build_outcome(
    config: Config,
    metrics: Map<(usize, usize), Metric>,
    r: Result<Seq<Seq<Seq<char>>>, ReportError>,
) -> bool {
    match r {
        Ok(table) => covered(config, metrics) && table == table_of(config, metrics),
        Err(ReportError::ResultMissing { bench, commit }) => first_missing(
            config,
            metrics,
            bench,
            commit,
        ),
    }
}

fn build_header(config: &Config) -> (header: Vec<String>)
    ensures
        views(header@) == header_row(*config),
{
    let mut header: Vec<String> = Vec::new();
    header.push(String::from_str(LINK_TEXT));
    let mut j: usize = 0;
    while j < config.benches.len()
        invariant
            j <= config.benches@.len(),
            header@.len() == j + 1,
            header@[0]@ == LINK_TEXT@,
            forall|k: int| 0 <= k < j ==> (#[trigger] header@[k + 1])@ == bench_label(config.benches@[k]),
        decreases config.benches@.len() - j,
    {
        header.push(config.benches[j].label());
        j += 1;
    }
    assert(views(header@) =~= header_row(*config)) by {
        assert forall|k: int| 0 <= k < header@.len() implies views(header@)[k] == header_row(
            *config,
        )[k] by {
            if k > 0 {
                assert(header@[(k - 1) + 1]@ == bench_label(config.benches@[k - 1]));
            }
        }
    }
    header
}

/// Builds the comparison table from a store that covers the configuration.
/// The first revision is the baseline: its row shows the metrics alone,
/// every later row shows each metric with its trend against the baseline.
pub fn build_table(results: &Results, config: &Config) -> (r: Result<Vec<Vec<String>>, ReportError>)
    ensures
        build_outcome(
            *config,
            results@,
            match r {
                Ok(table) => Ok(grid_view(table@)),
                Err(e) => Err(e),
            },
        ),
{
    let ghost metrics = results@;
    let ghost want = grid_of(*config, metrics);
    let mut rows: Vec<Vec<String>> = Vec::new();
    rows.push(build_header(config));
    let mut baselines: Vec<Metric> = Vec::new();
    let mut i: usize = 0;
    while i < config.commits.len()
        invariant
            metrics == results@,
            want == grid_of(*config, metrics),
            i <= config.commits@.len(),
            rows@.len() == i + 1,
            forall|k: int| 0 <= k < i + 1 ==> views((#[trigger] rows@[k])@) == want[k],
            forall|a: usize, b: usize|
                a < i && b < config.benches@.len() ==> #[trigger] metrics.contains_key((b, a)),
            i > 0 ==> baselines@.len() == config.benches@.len(),
            i == 0 ==> baselines@.len() == 0,
            forall|k: int| 0 <= k < baselines@.len() ==> #[trigger] baselines@[k] == metrics[(k as usize, 0usize)],
        decreases config.commits@.len() - i,
    {
        let mut row: Vec<String> = Vec::new();
        row.push(String::from_str(config.commits[i].label()));
        let mut j: usize = 0;
        while j < config.benches.len()
            invariant
                metrics == results@,
                want == grid_of(*config, metrics),
                i < config.commits@.len(),
                j <= config.benches@.len(),
                row@.len() == j + 1,
                row@[0]@ == commit_label(config.commits@[i as int]),
                forall|k: int| 0 <= k < j ==> (#[trigger] row@[k + 1])@ == want[i + 1][k + 1],
                forall|a: usize, b: usize|
                    a < i && b < config.benches@.len() ==> #[trigger] metrics.contains_key((b, a)),
                forall|b: usize| b < j ==> #[trigger] metrics.contains_key((b, i)),
                i > 0 ==> baselines@.len() == config.benches@.len(),
                i == 0 ==> baselines@.len() == j,
                forall|k: int| 0 <= k < baselines@.len() ==> #[trigger] baselines@[k] == metrics[(k as usize, 0usize)],
            decreases config.benches@.len() - j,
        {
            match results.get(j, i) {
                None => {
                    return Err(ReportError::ResultMissing { bench: j, commit: i });
                },
                Some(value) => {
                    if i == 0 {
                        baselines.push(value);
                    }
                    let baseline = baselines[j];
                    row.push(value.cell(i, &baseline));
                },
            }
            j += 1;
        }
        assert(views(row@) =~= want[i + 1]) by {
            assert forall|k: int| 0 <= k < row@.len() implies views(row@)[k] == want[i + 1][k] by {
                if k > 0 {
                    assert(row@[(k - 1) + 1]@ == want[i + 1][(k - 1) + 1]);
                }
            }
        }
        rows.push(row);
        i += 1;
    }
    assert(grid_view(rows@) =~= want);
    assert(covered(*config, metrics));
    if rows[0].len() > rows.len() {
        Ok(rotate_table(rows.as_slice()))
    } else {
        Ok(rows)
    }
}

/// The report: the comparison table as markdown lines.
pub fn print_results(results: &Results, config: &Config) -> (r: Result<Vec<String>, ReportError>)
    ensures
        build_outcome(
            *config,
            results@,
            match r {
                Ok(lines) => Ok(table_of(*config, results@)),
                Err(e) => Err(e),
            },
        ),
        r matches Ok(lines) ==> views(lines@) == rendered(table_of(*config, results@)),
{
    match build_table(results, config) {
        Ok(table) => Ok(print_markdown(table.as_slice())),
        Err(e) => Err(e),
    }
}

/// The row of the first revision never shows a trend: each of its cells is
/// the metric's text alone, whatever the other rows hold.
pub proof fn lemma_baseline_row_plain(
    config: Config,
    metrics: Map<(usize, usize), Metric>,
    bench: int,
)
    requires
        0 <= bench < config.benches@.len(),
        0 < config.commits@.len(),
    ensures
        grid_of(config, metrics)[1][bench + 1] == metric_text(
            metrics[(bench as usize, 0usize)].hundredths as nat,
        ),
{
}

/// The table is the grid with rows and columns swapped exactly where there
/// are more benchmarks than revisions; then the revisions' names head the
/// columns. Otherwise the benchmarks' names do.
pub proof fn lemma_orientation(config: Config, metrics: Map<(usize, usize), Metric>)
    ensures
        config.benches@.len() > config.commits@.len() ==> table_of(config, metrics) == rotated(
            grid_of(config, metrics),
        ),
        config.benches@.len() <= config.commits@.len() ==> table_of(config, metrics) == grid_of(
            config,
            metrics,
        ),
        forall|i: int|
            0 <= i < config.commits@.len() && config.benches@.len() > config.commits@.len()
                ==> #[trigger] table_of(config, metrics)[0][i + 1] == commit_label(
                config.commits@[i],
            ),
        forall|j: int|
            0 <= j < config.benches@.len() && config.benches@.len() <= config.commits@.len()
                ==> #[trigger] table_of(config, metrics)[0][j + 1] == bench_label(
                config.benches@[j],
            ),
{
    let grid = grid_of(config, metrics);
    assert(grid[0].len() == config.benches@.len() + 1);
    assert(grid.len() == config.commits@.len() + 1);
    if config.benches@.len() > config.commits@.len() {
        assert forall|i: int| 0 <= i < config.commits@.len() implies #[trigger] rotated(
            grid,
        )[0][i + 1] == commit_label(config.commits@[i]) by {
            assert(grid[i + 1] == data_row(config, metrics, i));
        }
    }
}

} // verus!
