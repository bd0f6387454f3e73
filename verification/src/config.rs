//! What a run is configured with: the revisions, the benchmarks and the
//! number of frames that each run lasts.

use vstd::prelude::*;
use vstd::string::*;
use crate::text::{decimal, decimal_string, join, joined, views};

verus! {

/// The revisions to compare, the benchmarks to run at each of them, and the
/// frame budget of a run. The first revision is the baseline.
pub struct Config {
    pub commits: Vec<Commit>,
    pub benches: Vec<Bench>,
    pub frames: u32,
}

/// One runnable scenario: an example with its arguments.
#[derive(Eq, PartialEq, Hash, Clone, Debug)]
pub struct Bench {
    pub example: String,
    pub example_args: Vec<String>,
    pub label: Option<String>,
}

/// One revision of the source tree.
#[derive(Eq, PartialEq, Hash, Clone)]
pub struct Commit {
    pub commit: String,
    pub label: Option<String>,
}

/// The display name of a benchmark: its label, or else the example
/// followed by a space and the arguments, each parted by a space.
pub open spec fn bench_label(bench: Bench) -> Seq<char> {
    match bench.label {
        Some(label) => label@,
        None => bench.example@ + seq![' '] + joined(views(bench.example_args@), seq![' ']),
    }
}

/// The display name of a revision: its label, or else its identifier.
pub open spec fn commit_label(commit: Commit) -> Seq<char> {
    match commit.label {
        Some(label) => label@,
        None => commit.commit@,
    }
}

/// The run configuration handed to the benchmarked program: it ends the
/// run after `frames` frames.
pub open spec fn ci_config_of(frames: u32) -> Seq<char> {
    "(events: [("@ + decimal(frames as nat) + ", AppExit)])"@
}

impl Bench {
    /// The name under which the benchmark appears in the table.
    pub fn label(&self) -> (out: String)
        ensures
            out@ == bench_label(*self),
    {
        match &self.label {
            Some(label) => label.clone(),
            None => {
                proof {
                    reveal_strlit(" ");
                }
                assert(" "@ =~= seq![' ']);
                let mut out = self.example.clone();
                out.append(" ");
                let args = join(&self.example_args, " ");
                out.append(args.as_str());
                out
            },
        }
    }
}

impl Commit {
    /// The name under which the revision appears in the table.
    pub fn label(&self) -> (out: &str)
        ensures
            out@ == commit_label(*self),
    {
        match &self.label {
            Some(label) => label.as_str(),
            None => self.commit.as_str(),
        }
    }
}

/// The text of the run configuration for a frame budget.
pub fn ci_config_text(frames: u32) -> (out: String)
    ensures
        out@ == ci_config_of(frames),
{
    let mut out = String::from_str("(events: [(");
    let count = decimal_string(frames as u128);
    out.append(count.as_str());
    out.append(", AppExit)])");
    out
}

} // verus!
