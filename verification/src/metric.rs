//! Metrics as they are handed out on a scrape.

use vstd::prelude::*;

verus! {

/// One labelled value of a metric.
#[derive(Debug, PartialEq, Eq)]
pub struct Sample {
    /// Names and values of the labels.
    pub labels: Vec<(String, String)>,
    pub value: i64,
}

/// A [`Sample`] as contracts speak of it.
pub struct SampleView {
    pub labels: Seq<(Seq<char>, Seq<char>)>,
    pub value: int,
}

/// The characters of label names and values.
pub open spec fn label_seq(labels: Seq<(String, String)>) -> Seq<(Seq<char>, Seq<char>)> {
    labels.map_values(|label: (String, String)| (label.0@, label.1@))
}

impl View for Sample {
    type V = SampleView;

    open spec fn view(&self) -> SampleView {
        SampleView { labels: label_seq(self.labels@), value: self.value as int }
    }
}

/// The samples of a list, in order.
pub open spec fn sample_seq(samples: Seq<Sample>) -> Seq<SampleView> {
    samples.map_values(|sample: Sample| sample@)
}

/// What a metric shows.
#[derive(Debug, PartialEq, Eq)]
pub enum MetricValue {
    Counter(u64),
    Gauge(i64),
    LabelledGauges(Vec<Sample>),
}

/// A metric: its name, its help text and what it shows.
#[derive(Debug, PartialEq, Eq)]
pub struct Metric {
    pub name: String,
    pub help: String,
    pub value: MetricValue,
}

impl Metric {
    /// Whether the metric goes by a name and a help text.
    pub open spec fn described(self, name: Seq<char>, help: Seq<char>) -> bool {
        self.name@ == name && self.help@ == help
    }
}

/// The sum of a counter and an increment, modulo the range of the counter.
pub open spec fn wrapping_sum(counter: u64, increment: nat) -> u64 {
    ((counter + increment) % 0x1_0000_0000_0000_0000) as u64
}

} // verus!
