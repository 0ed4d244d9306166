//! Pairs of label values, counters that are told apart by them, and label texts.

use crate::assoc_map::{AssocMap, MapKey};
use crate::time::{Nanos, HOUR};
use vstd::prelude::*;

verus! {

/// The values of two labels.
#[derive(Debug, PartialEq, Eq)]
pub struct LabelPair {
    pub first: String,
    pub second: String,
}

impl View for LabelPair {
    type V = (Seq<char>, Seq<char>);

    open spec fn view(&self) -> (Seq<char>, Seq<char>) {
        (self.first@, self.second@)
    }
}

impl MapKey for LabelPair {
    fn same_as(&self, other: &LabelPair) -> (res: bool) {
        self.first == other.first && self.second == other.second
    }
}

/// One count for each pair of label values that has been counted.
pub type LabelCounts = AssocMap<LabelPair, u64>;

/// What one more occurrence makes of a count that goes no further than `limit`.
pub open spec fn count_up(count: u64, limit: u64) -> u64 {
    if count < limit {
        (count + 1) as u64
    } else {
        count
    }
}

/// Counts after one more occurrence of a pair. A pair that was not counted yet starts at nought.
pub open spec fn counted(
    counts: Map<(Seq<char>, Seq<char>), u64>,
    pair: (Seq<char>, Seq<char>),
    limit: u64,
) -> Map<(Seq<char>, Seq<char>), u64> {
    counts.insert(
        pair,
        count_up(
            if counts.contains_key(pair) {
                counts[pair]
            } else {
                0
            },
            limit,
        ),
    )
}

/// Counts one occurrence of a pair.
pub fn count_pair(counts: &mut LabelCounts, pair: LabelPair, limit: u64)
    requires
        old(counts).wf(),
    ensures
        final(counts).wf(),
        final(counts)@ == counted(old(counts)@, pair@, limit),
{
    let count: u64 = match counts.position(&pair) {
        Some(i) => *counts.value_at(i),
        None => 0,
    };
    let next: u64 = if count < limit {
        count + 1
    } else {
        count
    };
    counts.insert(pair, next);
}

/// The character of a decimal digit.
pub open spec fn digit(d: nat) -> char {
    if d == 0 {
        '0'
    } else if d == 1 {
        '1'
    } else if d == 2 {
        '2'
    } else if d == 3 {
        '3'
    } else if d == 4 {
        '4'
    } else if d == 5 {
        '5'
    } else if d == 6 {
        '6'
    } else if d == 7 {
        '7'
    } else if d == 8 {
        '8'
    } else {
        '9'
    }
}

/// A number in decimal notation.
pub open spec fn decimal(n: nat) -> Seq<char>
    decreases n,
{
    if n < 10 {
        seq![digit(n)]
    } else {
        decimal(n / 10).push(digit(n % 10))
    }
}

fn digit_text(d: u64) -> (res: &'static str)
    requires
        d < 10,
    ensures
        res@ == seq![digit(d as nat)],
{
    proof {
        reveal_strlit("0");
        reveal_strlit("1");
        reveal_strlit("2");
        reveal_strlit("3");
        reveal_strlit("4");
        reveal_strlit("5");
        reveal_strlit("6");
        reveal_strlit("7");
        reveal_strlit("8");
        reveal_strlit("9");
    }
    let res = match d {
        0 => "0",
        1 => "1",
        2 => "2",
        3 => "3",
        4 => "4",
        5 => "5",
        6 => "6",
        7 => "7",
        8 => "8",
        _ => "9",
    };
    assert(res@ =~= seq![digit(d as nat)]);
    res
}

/// Writes a number in decimal notation.
pub fn decimal_text(n: u64) -> (res: String)
    ensures
        res@ == decimal(n as nat),
    decreases n,
{
    if n < 10 {
        digit_text(n).to_string()
    } else {
        let mut text = decimal_text(n / 10);
        text.append(digit_text(n % 10));
        assert(text@ =~= decimal(n as nat));
        text
    }
}

/// The label text of a span of time: its whole hours, followed by an `h`.
pub open spec fn hours_label(span: Nanos) -> Seq<char> {
    decimal((span / HOUR) as nat) + "h"@
}

/// Writes the label text of a span of time.
pub fn hours_text(span: Nanos) -> (res: String)
    ensures
        res@ == hours_label(span),
{
    decimal_text(span / HOUR).concat("h")
}

} // verus!
