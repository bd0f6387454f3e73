//! The result store: one metric for each pair of benchmark and revision,
//! both named by their place in the configuration.

use vstd::prelude::*;
use crate::metric::Metric;

verus! {

/// One measured run.
#[derive(Clone, Copy, Debug, PartialEq, Eq, Structural)]
pub struct Entry {
    pub bench: usize,
    pub commit: usize,
    pub metric: Metric,
}

/// The metrics measured so far.
pub struct Results {
    entries: Vec<Entry>,
}

/// The map that a list of runs amounts to; a later run of a pair replaces
/// an earlier one.
pub open spec fn entries_map(entries: Seq<Entry>) -> Map<(usize, usize), Metric>
    decreases entries.len(),
{
    if entries.len() == 0 {
        Map::empty()
    } else {
        entries_map(entries.drop_last()).insert(
            (entries.last().bench, entries.last().commit),
            entries.last().metric,
        )
    }
}

impl View for Results {
    type V = Map<(usize, usize), Metric>;

    /// From (benchmark, revision) to the metric.
    closed spec fn view(&self) -> Map<(usize, usize), Metric> {
        entries_map(self.entries@)
    }
}

impl Results {
    /// A store without entries.
    pub fn new() -> (out: Results)
        ensures
            out@ == Map::<(usize, usize), Metric>::empty(),
    {
        Results { entries: Vec::new() }
    }

    /// Records the metric of a benchmark at a revision.
    pub fn insert(&mut self, bench: usize, commit: usize, metric: Metric)
        ensures
            final(self)@ == old(self)@.insert((bench, commit), metric),
    {
        self.entries.push(Entry { bench, commit, metric });
        proof {
            assert(self.entries@.drop_last() == old(self).entries@);
        }
    }

    /// The metric of a benchmark at a revision, if it was recorded.
    pub fn get(&self, bench: usize, commit: usize) -> (out: Option<Metric>)
        ensures
            out == if self@.contains_key((bench, commit)) {
                Some(self@[(bench, commit)])
            } else {
                None::<Metric>
            },
    {
        let mut found: Option<Metric> = None;
        let mut i: usize = 0;
        while i < self.entries.len()
            invariant
                i <= self.entries@.len(),
                found == if entries_map(self.entries@.take(i as int)).contains_key((bench, commit)) {
                    Some(entries_map(self.entries@.take(i as int))[(bench, commit)])
                } else {
                    None::<Metric>
                },
            decreases self.entries@.len() - i,
        {
            let entry = self.entries[i];
            proof {
                assert(self.entries@.take(i + 1).drop_last() == self.entries@.take(i as int));
                assert(self.entries@.take(i + 1).last() == entry);
            }
            if entry.bench == bench && entry.commit == commit {
                found = Some(entry.metric);
            }
            i += 1;
        }
        proof {
            assert(self.entries@.take(self.entries@.len() as int) == self.entries@);
        }
        found
    }
}

} // verus!
