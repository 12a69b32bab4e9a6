//! The graphs: their headings, what is told in place of one that cannot be drawn, and which of their
//! points carry a label.
use vstd::prelude::*;

use crate::clock::TimeRange;

verus! {

/// A graph of the window.
#[derive(Clone, Copy, PartialEq, Eq, Structural, Debug)]
pub enum Graph {
    /// Temperatures and dewpoints.
    Temperature,
    WindSpeed,
    Humidity,
}

impl Graph {
    /// The heading of the graph.
    pub open spec fn heading_text(self) -> Seq<char> {
        match self {
            Graph::Temperature => "Temperature + Dewpoint (°F)"@,
            Graph::WindSpeed => "Wind Speed (mph)"@,
            Graph::Humidity => "Relative Humidity (%)"@,
        }
    }

    /// The heading of the graph.
    pub fn heading(self) -> (r: &'static str)
        ensures
            r@ == self.heading_text(),
    {
        match self {
            Graph::Temperature => "Temperature + Dewpoint (°F)",
            Graph::WindSpeed => "Wind Speed (mph)",
            Graph::Humidity => "Relative Humidity (%)",
        }
    }

    /// What is told where the points cannot be had.
    pub open spec fn failure_text(self) -> Seq<char> {
        match self {
            Graph::Temperature => "Failed to load temperature data."@,
            Graph::WindSpeed => "Failed to load wind speed data."@,
            Graph::Humidity => "Failed to load humidity data."@,
        }
    }

    /// What is told where there are no points.
    pub open spec fn empty_text(self) -> Seq<char> {
        match self {
            Graph::Temperature => "No temperature/dewpoint data yet. Click 'Collect Now'."@,
            Graph::WindSpeed => "No wind speed data yet. Click 'Collect Now'."@,
            Graph::Humidity => "No humidity data yet. Click 'Collect Now'."@,
        }
    }

    /// What is told in place of the graph: `None` where it is drawn. `any` tells whether there are
    /// points, and is missing where they cannot be had.
    pub fn note(self, any: Option<bool>) -> (r: Option<&'static str>)
        ensures
            match (any, r) {
                (Some(true), None) => true,
                (Some(false), Some(t)) => t@ == self.empty_text(),
                (None, Some(t)) => t@ == self.failure_text(),
                _ => false,
            },
    {
        match any {
            Some(true) => None,
            Some(false) => Some(
                match self {
                    Graph::Temperature => "No temperature/dewpoint data yet. Click 'Collect Now'.",
                    Graph::WindSpeed => "No wind speed data yet. Click 'Collect Now'.",
                    Graph::Humidity => "No humidity data yet. Click 'Collect Now'.",
                },
            ),
            None => Some(
                match self {
                    Graph::Temperature => "Failed to load temperature data.",
                    Graph::WindSpeed => "Failed to load wind speed data.",
                    Graph::Humidity => "Failed to load humidity data.",
                },
            ),
        }
    }

    /// One point in this many carries a label.
    pub open spec fn label_step(self) -> nat {
        match self {
            Graph::Temperature => 4,
            _ => 3,
        }
    }

    /// Whether the point with the given number, counted from zero, carries a label.
    pub fn has_label(self, index: usize) -> (r: bool)
        ensures
            r == (index as nat % self.label_step() == 0),
    {
        match self {
            Graph::Temperature => index % 4 == 0,
            _ => index % 3 == 0,
        }
    }
}

/// Whether the graph of temperatures and dewpoints has points, given how many there are of each.
pub fn any_points(temps: usize, dews: usize) -> (r: bool)
    ensures
        r == (temps > 0 || dews > 0),
{
    temps > 0 || dews > 0
}

/// The first point of a graph carries a label, and of as many points in a row as the step exactly
/// one does.
pub proof fn labels_stand_at_even_steps(graph: Graph, first: nat)
    ensures
        0nat % graph.label_step() == 0,
        exists|k: nat|
            first <= k < first + graph.label_step() && #[trigger] (k % graph.label_step()) == 0,
        forall|j: nat, k: nat|
            first <= j < k < first + graph.label_step() && #[trigger] (j % graph.label_step()) == 0
                ==> #[trigger] (k % graph.label_step()) != 0,
{
    let step = graph.label_step();
    let over = first % step;
    let next: nat = if over == 0 {
        first
    } else {
        (first + step - over) as nat
    };
    assert(next % step == 0);
}

/// The name of a time range.
pub open spec fn range_text(range: TimeRange) -> Seq<char> {
    match range {
        TimeRange::Last6Hours => "Last 6h"@,
        TimeRange::Last12Hours => "Last 12h"@,
        TimeRange::Last24Hours => "Last 24h"@,
        TimeRange::Last7Days => "Last 7 Days"@,
        TimeRange::Last30Days => "Last 30 Days"@,
        TimeRange::All => "All Data"@,
    }
}

/// The name of a time range.
pub fn range_name(range: TimeRange) -> (r: &'static str)
    ensures
        r@ == range_text(range),
{
    match range {
        TimeRange::Last6Hours => "Last 6h",
        TimeRange::Last12Hours => "Last 12h",
        TimeRange::Last24Hours => "Last 24h",
        TimeRange::Last7Days => "Last 7 Days",
        TimeRange::Last30Days => "Last 30 Days",
        TimeRange::All => "All Data",
    }
}

/// One point in four carries a label in the graph of temperatures and one in three in the others: the
/// first one, and from each the next at that distance and none between.
pub proof fn labels_repeat_at_their_step(
    graph: Graph,
    index: usize,
    next: usize,
    r: bool,
    s: bool,
    first: bool,
)
    requires
        call_ensures(Graph::has_label, (graph, index), r),
        call_ensures(Graph::has_label, (graph, next), s),
        call_ensures(Graph::has_label, (graph, 0usize), first),
    ensures
        first,
        graph == Graph::Temperature && next == index + 4 ==> r == s,
        graph != Graph::Temperature && next == index + 3 ==> r == s,
        r && graph == Graph::Temperature && index < next < index + 4 ==> !s,
        r && graph != Graph::Temperature && index < next < index + 3 ==> !s,
{
}

/// A graph is drawn exactly where there are points of either kind.
pub proof fn graph_is_drawn_where_there_are_points(
    graph: Graph,
    temps: usize,
    dews: usize,
    any: bool,
    r: Option<&'static str>,
    failed: Option<&'static str>,
)
    requires
        call_ensures(any_points, (temps, dews), any),
        call_ensures(Graph::note, (graph, Some(any)), r),
        call_ensures(Graph::note, (graph, None::<bool>), failed),
    ensures
        r is None <==> temps > 0 || dews > 0,
        failed is Some,
{
}

} // verus!
