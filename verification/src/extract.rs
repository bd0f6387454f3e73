//! Taking the frame rate out of the text that a benchmark run logged.

use vstd::prelude::*;
use crate::metric::{metric_of_text, parse_metric, ExtractError, Metric};

verus! {

/// The pattern of a log line that reports the average frame rate: `fps`,
/// later `avg`, a space and the figure, which is the first group.
pub const FPS_PATTERN: &'static str = "fps.*?avg ([\\d\\.]+)";

/// What the first group of `pattern` holds at each match in `text`, in the
/// order of the matches, as the regex engine finds them: `None` at a match
/// in which the group took no part. `None` as a whole where the pattern
/// does not compile.
pub uninterp spec fn regex_first_groups(pattern: Seq<char>, text: Seq<char>) -> Option<
    Seq<Option<Seq<char>>>,
>;

/// The captured texts as plain values.
pub open spec fn groups_view(groups: Option<Vec<Option<String>>>) -> Option<Seq<Option<Seq<char>>>> {
    match groups {
        None => None,
        Some(list) => Some(
            Seq::new(
                list@.len(),
                |i: int|
                    match list@[i] {
                        None => None,
                        Some(group) => Some(group@),
                    },
            ),
        ),
    }
}

/// Calls `regex::Regex::new` on the pattern and `Regex::captures_iter` on
/// the text, and takes `Captures::get(1)` of every match. The contract
/// only names the outcome: it is trusted to depend on the pattern and the
/// text alone, and nothing else is claimed of it.
#[verifier::external_body]
fn first_groups(pattern: &str, text: &str) -> (groups: Option<Vec<Option<String>>>)
    ensures
        groups_view(groups) == regex_first_groups(pattern@, text@),
{
    match regex::Regex::new(pattern) {
        Ok(re) => Some(
            re.captures_iter(text).map(|found| found.get(1).map(|group| group.as_str().to_string())).collect(),
        ),
        Err(_) => None,
    }
}

/// The metric that a list of captured figures gives: the one of the last
/// match. Without any match there is no metric; a last match without a
/// figure, or with one that is no numeral, is malformed.
pub open spec fn metric_of_groups(groups: Option<Seq<Option<Seq<char>>>>) -> Result<
    Metric,
    ExtractError,
> {
    match groups {
        None => Err(ExtractError::NoMetricFound),
        Some(list) => if list.len() == 0 {
            Err(ExtractError::NoMetricFound)
        } else {
            match list.last() {
                None => Err(ExtractError::MalformedMetric),
                Some(figure) => metric_of_text(figure),
            }
        },
    }
}

/// Only the last match counts: whatever was captured before it, the metric
/// is the one that the last figure writes.
pub proof fn lemma_last_match_wins(earlier: Seq<Option<Seq<char>>>, figure: Seq<char>)
    ensures
        metric_of_groups(Some(earlier.push(Some(figure)))) == metric_of_text(figure),
{
}

/// Picks the metric from the figures captured in a log, the last of which
/// counts.
pub fn metric_from_groups(groups: &Option<Vec<Option<String>>>) -> (r: Result<Metric, ExtractError>)
    ensures
        r == metric_of_groups(groups_view(*groups)),
{
    match groups {
        None => Err(ExtractError::NoMetricFound),
        Some(list) => {
            if list.len() == 0 {
                Err(ExtractError::NoMetricFound)
            } else {
                match &list[list.len() - 1] {
                    None => Err(ExtractError::MalformedMetric),
                    Some(figure) => parse_metric(figure.as_str()),
                }
            }
        },
    }
}

/// Extracts the frame rate from the text of a run's log: the figure of the
/// last line that reports an average.
pub fn get_fps(output: &str) -> (r: Result<Metric, ExtractError>)
    ensures
        r == metric_of_groups(regex_first_groups(FPS_PATTERN@, output@)),
{
    let groups = first_groups(FPS_PATTERN, output);
    metric_from_groups(&groups)
}

} // verus!
