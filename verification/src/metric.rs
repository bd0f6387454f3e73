//! The frame-rate metric as an exact number of hundredths: reading it from
//! text, writing it with two decimals, and its change against a baseline.

use vstd::prelude::*;
use vstd::string::*;
use crate::text::{decimal, decimal_string, digit_char, digit_str};

verus! {

/// Why no metric could be taken from a log.
#[derive(Clone, Copy, Debug, PartialEq, Eq, Structural)]
pub enum ExtractError {
    /// The text reports no average frame rate.
    NoMetricFound,
    /// The reported figure is not a number that a metric can hold.
    MalformedMetric,
}

/// Frames per second, in hundredths of a frame.
#[derive(Clone, Copy, Debug, PartialEq, Eq, Structural)]
pub struct Metric {
    pub hundredths: u64,
}

/// How a value stands against its baseline.
#[derive(Clone, Copy, Debug, PartialEq, Eq, Structural)]
pub enum Trend {
    /// Less than one percent away from the baseline.
    Neutral,
    /// At least one percent below the baseline.
    Down,
    /// At least one percent above the baseline, or the baseline is zero.
    Up,
}

pub open spec fn is_digit(c: char) -> bool {
    c == '0' || c == '1' || c == '2' || c == '3' || c == '4' || c == '5' || c == '6' || c == '7'
        || c == '8' || c == '9'
}

/// The number that a digit stands for (0 for any other character).
pub open spec fn digit_value(c: char) -> nat {
    if c == '1' {
        1
    } else if c == '2' {
        2
    } else if c == '3' {
        3
    } else if c == '4' {
        4
    } else if c == '5' {
        5
    } else if c == '6' {
        6
    } else if c == '7' {
        7
    } else if c == '8' {
        8
    } else if c == '9' {
        9
    } else {
        0
    }
}

pub open spec fn all_digits(s: Seq<char>) -> bool {
    forall|i: int| 0 <= i < s.len() ==> is_digit(#[trigger] s[i])
}

/// The number that a run of digits writes; the empty run writes 0.
pub open spec fn digits_value(s: Seq<char>) -> nat
    decreases s.len(),
{
    if s.len() == 0 {
        0
    } else {
        digits_value(s.drop_last()) * 10 + digit_value(s.last())
    }
}

/// Where the first `.` stands, or the length of the text if it has none.
pub open spec fn dot_index(s: Seq<char>) -> nat
    decreases s.len(),
{
    if s.len() == 0 || s[0] == '.' {
        0
    } else {
        1 + dot_index(s.drop_first())
    }
}

/// The digit at place `i` of a fraction, 0 beyond its end.
pub open spec fn fraction_digit(frac: Seq<char>, i: int) -> nat {
    if 0 <= i < frac.len() {
        digit_value(frac[i])
    } else {
        0
    }
}

/// A fraction in hundredths, rounded half up at its third digit.
pub open spec fn fraction_hundredths(frac: Seq<char>) -> nat {
    fraction_digit(frac, 0) * 10 + fraction_digit(frac, 1) + if fraction_digit(frac, 2) >= 5 {
        1nat
    } else {
        0nat
    }
}

/// The digits before the first `.`.
pub open spec fn whole_part(s: Seq<char>) -> Seq<char> {
    s.take(dot_index(s) as int)
}

/// What follows the first `.`; empty where there is none.
pub open spec fn fraction_part(s: Seq<char>) -> Seq<char> {
    if dot_index(s) < s.len() {
        s.skip(dot_index(s) as int + 1)
    } else {
        Seq::empty()
    }
}

/// The hundredths that a decimal numeral writes: digits with at most one
/// `.` among them and at least one digit. `None` for any other text.
pub open spec fn hundredths_of_text(s: Seq<char>) -> Option<nat> {
    let whole = whole_part(s);
    let frac = fraction_part(s);
    if all_digits(whole) && all_digits(frac) && whole.len() + frac.len() > 0 {
        Some(digits_value(whole) * 100 + fraction_hundredths(frac))
    } else {
        None
    }
}

/// The metric that a text writes, where it is a numeral that fits.
pub open spec fn metric_of_text(s: Seq<char>) -> Result<Metric, ExtractError> {
    match hundredths_of_text(s) {
        Some(h) => if h <= u64::MAX {
            Ok(Metric { hundredths: h as u64 })
        } else {
            Err(ExtractError::MalformedMetric)
        },
        None => Err(ExtractError::MalformedMetric),
    }
}

proof fn lemma_dot_index(s: Seq<char>, p: int)
    requires
        0 <= p <= s.len(),
        forall|j: int| 0 <= j < p ==> s[j] != '.',
        p < s.len() ==> s[p] == '.',
    ensures
        dot_index(s) == p,
    decreases p,
{
    if p > 0 {
        let rest = s.drop_first();
        assert forall|j: int| 0 <= j < p - 1 implies rest[j] != '.' by {
            assert(rest[j] == s[j + 1]);
        }
        lemma_dot_index(rest, p - 1);
    }
}

proof fn lemma_digits_prefix(s: Seq<char>, k: int)
    requires
        0 <= k <= s.len(),
    ensures
        digits_value(s.take(k)) <= digits_value(s),
    decreases s.len(),
{
    if k < s.len() {
        lemma_digits_prefix(s.drop_last(), k);
        assert(s.drop_last().take(k) == s.take(k));
    } else {
        assert(s.take(k) == s);
    }
}

fn digit_of(c: char) -> (d: Option<u8>)
    ensures
        d is Some <==> is_digit(c),
        d is Some ==> d->0 == digit_value(c),
{
    if c == '0' {
        Some(0)
    } else if c == '1' {
        Some(1)
    } else if c == '2' {
        Some(2)
    } else if c == '3' {
        Some(3)
    } else if c == '4' {
        Some(4)
    } else if c == '5' {
        Some(5)
    } else if c == '6' {
        Some(6)
    } else if c == '7' {
        Some(7)
    } else if c == '8' {
        Some(8)
    } else if c == '9' {
        Some(9)
    } else {
        None
    }
}

fn find_dot(text: &str, len: usize) -> (p: usize)
    requires
        len == text@.len(),
    ensures
        p == dot_index(text@),
        p <= len,
{
    let mut p: usize = 0;
    while p < len && text.get_char(p) != '.'
        invariant
            len == text@.len(),
            p <= len,
            forall|j: int| 0 <= j < p ==> text@[j] != '.',
        decreases len - p,
    {
        p += 1;
    }
    proof {
        lemma_dot_index(text@, p as int);
    }
    p
}

fn digits_between(text: &str, from: usize, to: usize) -> (ok: bool)
    requires
        from <= to <= text@.len(),
    ensures
        ok == all_digits(text@.subrange(from as int, to as int)),
{
    let ghost run = text@.subrange(from as int, to as int);
    let mut i: usize = from;
    while i < to
        invariant
            from <= i <= to <= text@.len(),
            run == text@.subrange(from as int, to as int),
            forall|j: int| 0 <= j < i - from ==> is_digit(#[trigger] run[j]),
        decreases to - i,
    {
        if digit_of(text.get_char(i)).is_none() {
            assert(!is_digit(run[i - from]));
            return false;
        }
        i += 1;
    }
    true
}

fn value_between(text: &str, from: usize, to: usize) -> (v: Option<u64>)
    requires
        from <= to <= text@.len(),
        all_digits(text@.subrange(from as int, to as int)),
    ensures
        v is Some <==> digits_value(text@.subrange(from as int, to as int)) <= u64::MAX,
        v is Some ==> v->0 == digits_value(text@.subrange(from as int, to as int)),
{
    let ghost run = text@.subrange(from as int, to as int);
    let mut acc: u64 = 0;
    let mut i: usize = from;
    while i < to
        invariant
            from <= i <= to <= text@.len(),
            run == text@.subrange(from as int, to as int),
            all_digits(run),
            acc == digits_value(run.take(i - from)),
        decreases to - i,
    {
        let c = text.get_char(i);
        assert(c == run[i - from]);
        let d: u8 = match digit_of(c) {
            Some(d) => d,
            None => 0,
        };
        proof {
            assert(run.take(i + 1 - from).drop_last() == run.take(i - from));
            assert(run.take(i + 1 - from).last() == c);
            lemma_digits_prefix(run, i + 1 - from);
        }
        if acc > (u64::MAX - d as u64) / 10 {
            return None;
        }
        acc = acc * 10 + d as u64;
        i += 1;
    }
    assert(run.take(to - from) == run);
    Some(acc)
}

fn digit_at(text: &str, i: usize, end: usize) -> (d: u64)
    requires
        end <= text@.len(),
    ensures
        d == if i < end { digit_value(text@[i as int]) } else { 0 },
        d <= 9,
{
    if i < end {
        match digit_of(text.get_char(i)) {
            Some(d) => d as u64,
            None => 0,
        }
    } else {
        0
    }
}

/// Reads a metric from a decimal numeral such as `42.5`, `60` or `.75`.
/// Digits beyond the second decimal are rounded half up.
pub fn parse_metric(text: &str) -> (r: Result<Metric, ExtractError>)
    ensures
        r == metric_of_text(text@),
{
    let len = text.unicode_len();
    let dot = find_dot(text, len);
    let start: usize = if dot < len { dot + 1 } else { len };
    let ghost whole = whole_part(text@);
    let ghost frac = fraction_part(text@);
    proof {
        assert(whole == text@.subrange(0, dot as int));
        assert(frac =~= text@.subrange(start as int, len as int));
    }
    if !digits_between(text, 0, dot) || !digits_between(text, start, len) {
        return Err(ExtractError::MalformedMetric);
    }
    if dot + (len - start) == 0 {
        return Err(ExtractError::MalformedMetric);
    }
    let d0 = digit_at(text, start, len);
    let d1 = if len - start > 1 { digit_at(text, start + 1, len) } else { 0 };
    let d2 = if len - start > 2 { digit_at(text, start + 2, len) } else { 0 };
    let part: u64 = d0 * 10 + d1 + if d2 >= 5 { 1 } else { 0 };
    proof {
        assert(fraction_digit(frac, 0) == d0);
        assert(fraction_digit(frac, 1) == d1);
        assert(fraction_digit(frac, 2) == d2);
        assert(part == fraction_hundredths(frac));
    }
    match value_between(text, 0, dot) {
        None => Err(ExtractError::MalformedMetric),
        Some(units) => {
            if units > (u64::MAX - part) / 100 {
                Err(ExtractError::MalformedMetric)
            } else {
                Ok(Metric { hundredths: units * 100 + part })
            }
        },
    }
}

/// The metric with two decimals, as in `59.94`.
pub open spec fn metric_text(hundredths: nat) -> Seq<char> {
    decimal(hundredths / 100) + seq!['.'] + seq![digit_char(hundredths / 10 % 10)] + seq![
        digit_char(hundredths % 10),
    ]
}

/// The trend of a value against its baseline: neutral where the change is
/// below one percent of the baseline, else down or up by its direction. A
/// change against a zero baseline has no size and counts as up.
pub open spec fn trend_of(value: nat, baseline: nat) -> Trend {
    if baseline == 0 {
        Trend::Up
    } else if value >= baseline {
        if (value - baseline) * 100 < baseline {
            Trend::Neutral
        } else {
            Trend::Up
        }
    } else {
        if (baseline - value) * 100 < baseline {
            Trend::Neutral
        } else {
            Trend::Down
        }
    }
}

/// The sign of a trend.
pub open spec fn glyph_of(trend: Trend) -> Seq<char> {
    match trend {
        Trend::Neutral => seq!['⬜'],
        Trend::Down => seq!['🟥'],
        Trend::Up => seq!['🟩'],
    }
}

/// The size of a change in tenths of a percent of the baseline, rounded
/// half up.
pub open spec fn change_tenths(value: nat, baseline: nat) -> nat
    recommends
        baseline > 0,
{
    let gap = if value >= baseline {
        value - baseline
    } else {
        baseline - value
    };
    ((gap * 2000 + baseline) / (2 * baseline as int)) as nat
}

/// The sign in front of a change: `+` for a rise, `-` for a fall.
pub open spec fn change_sign(value: nat, baseline: nat) -> Seq<char> {
    if value > baseline {
        seq!['+']
    } else if value < baseline {
        seq!['-']
    } else {
        Seq::empty()
    }
}

/// The change against the baseline in percent with one decimal, as in
/// `+10.0%` or `-2.5%`. Against a zero baseline it is `+inf%` for a
/// positive value and `NaN%` for zero.
pub open spec fn change_text(value: nat, baseline: nat) -> Seq<char> {
    if baseline == 0 {
        if value > 0 {
            seq!['+', 'i', 'n', 'f', '%']
        } else {
            seq!['N', 'a', 'N', '%']
        }
    } else {
        change_sign(value, baseline) + decimal(change_tenths(value, baseline) / 10) + seq!['.']
            + seq![digit_char(change_tenths(value, baseline) % 10)] + seq!['%']
    }
}

/// What follows the metric in a compared cell: the glyph and the change.
pub open spec fn trend_suffix(value: nat, baseline: nat) -> Seq<char> {
    seq![' '] + glyph_of(trend_of(value, baseline)) + seq![' '] + change_text(value, baseline)
}

/// The text of a table cell. In the baseline row (row 0) it is the metric
/// alone; in every other row the trend against the baseline follows.
pub open spec fn cell_text(row: nat, value: nat, baseline: nat) -> Seq<char> {
    if row == 0 {
        metric_text(value)
    } else {
        metric_text(value) + trend_suffix(value, baseline)
    }
}

impl Metric {
    /// The metric with two decimals.
    pub fn text(&self) -> (out: String)
        ensures
            out@ == metric_text(self.hundredths as nat),
    {
        proof {
            reveal_strlit(".");
        }
        let h = self.hundredths;
        let mut out = decimal_string((h / 100) as u128);
        out.append(".");
        out.append(digit_str((h / 10 % 10) as u8));
        out.append(digit_str((h % 10) as u8));
        assert("."@ =~= seq!['.']);
        out
    }

    /// The trend of this metric against a baseline.
    pub fn trend(&self, baseline: &Metric) -> (t: Trend)
        ensures
            t == trend_of(self.hundredths as nat, baseline.hundredths as nat),
    {
        let v = self.hundredths as u128;
        let b = baseline.hundredths as u128;
        if b == 0 {
            Trend::Up
        } else if v >= b {
            if (v - b) * 100 < b {
                Trend::Neutral
            } else {
                Trend::Up
            }
        } else if (b - v) * 100 < b {
            Trend::Neutral
        } else {
            Trend::Down
        }
    }

    /// The change of this metric against a baseline, in percent.
    pub fn change(&self, baseline: &Metric) -> (out: String)
        ensures
            out@ == change_text(self.hundredths as nat, baseline.hundredths as nat),
    {
        proof {
            reveal_strlit("+inf%");
            reveal_strlit("NaN%");
            reveal_strlit("+");
            reveal_strlit("-");
            reveal_strlit(".");
            reveal_strlit("%");
        }
        let v = self.hundredths as u128;
        let b = baseline.hundredths as u128;
        if b == 0 {
            let out = if v > 0 {
                String::from_str("+inf%")
            } else {
                String::from_str("NaN%")
            };
            assert(out@ =~= change_text(v as nat, b as nat));
            return out;
        }
        let gap: u128 = if v >= b { v - b } else { b - v };
        let tenths: u128 = (gap * 2000 + b) / (2 * b);
        let mut out = String::new();
        if v > b {
            out.append("+");
        } else if v < b {
            out.append("-");
        }
        assert(out@ =~= change_sign(v as nat, b as nat));
        let whole = decimal_string(tenths / 10);
        out.append(whole.as_str());
        out.append(".");
        out.append(digit_str((tenths % 10) as u8));
        out.append("%");
        assert("."@ =~= seq!['.']);
        assert("%"@ =~= seq!['%']);
        out
    }

    /// The text of this metric's cell in row `row` of the table.
    pub fn cell(&self, row: usize, baseline: &Metric) -> (out: String)
        ensures
            out@ == cell_text(row as nat, self.hundredths as nat, baseline.hundredths as nat),
    {
        let mut out = self.text();
        if row > 0 {
            proof {
                reveal_strlit(" ");
            }
            assert(" "@ =~= seq![' ']);
            let mut tail = String::from_str(" ");
            tail.append(self.trend(baseline).glyph());
            tail.append(" ");
            let change = self.change(baseline);
            tail.append(change.as_str());
            out.append(tail.as_str());
        }
        out
    }
}

impl Trend {
    /// The sign that a table shows for this trend.
    pub fn glyph(&self) -> (s: &'static str)
        ensures
            s@ == glyph_of(*self),
    {
        proof {
            reveal_strlit("⬜");
            reveal_strlit("🟥");
            reveal_strlit("🟩");
        }
        let s = match self {
            Trend::Neutral => "⬜",
            Trend::Down => "🟥",
            Trend::Up => "🟩",
        };
        assert(s@ =~= glyph_of(*self));
        s
    }
}

proof fn lemma_decimal_digits(n: nat)
    ensures
        all_digits(decimal(n)),
    decreases n,
{
    if n >= 10 {
        lemma_decimal_digits(n / 10);
    }
}

/// A metric's text holds digits and one `.`, nothing else: no glyph, no
/// space, no sign, no `%`.
pub proof fn lemma_metric_text_plain(hundredths: nat)
    ensures
        forall|i: int|
            0 <= i < metric_text(hundredths).len() ==> is_digit(#[trigger] metric_text(hundredths)[i])
                || metric_text(hundredths)[i] == '.',
{
    lemma_decimal_digits(hundredths / 100);
}

proof fn lemma_decimal_value(n: nat)
    ensures
        digits_value(decimal(n)) == n,
    decreases n,
{
    if n < 10 {
        assert(decimal(n).drop_last() =~= Seq::<char>::empty());
        assert(digits_value(decimal(n).drop_last()) == 0);
    } else {
        lemma_decimal_value(n / 10);
        assert(decimal(n).drop_last() =~= decimal(n / 10));
    }
}

/// What is written is read back: the text of a metric is a numeral of
/// exactly that many hundredths.
pub proof fn lemma_text_reads_back(hundredths: nat)
    ensures
        hundredths_of_text(metric_text(hundredths)) == Some(hundredths),
{
    let units = decimal(hundredths / 100);
    let text = metric_text(hundredths);
    let tail = seq![digit_char(hundredths / 10 % 10), digit_char(hundredths % 10)];
    lemma_decimal_digits(hundredths / 100);
    lemma_decimal_value(hundredths / 100);
    assert(text =~= units + seq!['.'] + tail);
    assert forall|j: int| 0 <= j < units.len() implies text[j] != '.' by {
        assert(is_digit(units[j]));
    }
    lemma_dot_index(text, units.len() as int);
    assert(whole_part(text) =~= units);
    assert(fraction_part(text) =~= tail);
}

/// In the baseline row a cell is the metric's text alone, whatever the
/// baseline is.
pub proof fn lemma_baseline_cell_plain(value: nat, baseline: nat)
    ensures
        cell_text(0, value, baseline) == metric_text(value),
{
}

/// A value one percent or more above a positive baseline trends up, one
/// percent or more below it trends down, and anything nearer is neutral;
/// a rise is written with `+`.
pub proof fn lemma_trend_boundary(value: nat, baseline: nat)
    requires
        baseline > 0,
    ensures
        value * 100 >= baseline * 101 <==> trend_of(value, baseline) == Trend::Up,
        value * 100 <= baseline * 99 <==> trend_of(value, baseline) == Trend::Down,
        baseline * 99 < value * 100 < baseline * 101 <==> trend_of(value, baseline)
            == Trend::Neutral,
        value > baseline <==> change_sign(value, baseline) == seq!['+'],
{
    if value > baseline {
        assert(change_sign(value, baseline)[0] == '+');
    } else if value < baseline {
        assert(change_sign(value, baseline)[0] == '-');
    } else {
        assert(change_sign(value, baseline).len() == 0);
        assert(seq!['+'].len() == 1);
    }
}

} // verus!
