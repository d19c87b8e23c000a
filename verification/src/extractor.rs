//! The extraction as a machine that is fed one event of the stream at a time.
//!
//! The caller reads the stream and hands each primitive over; the machine says
//! what to do next. Between the two passes stands a barrier: when the first
//! pass ends, the ways are complete and the set of required nodes is fixed,
//! and only then is the caller told to rewind. No node is looked at before the
//! caller reports the stream rewound.

use crate::extract::{
    collected_nodes, extracted, keep_node, keep_way, required_node_ids, retain_node, retain_way,
    retained_ways,
};
use crate::model::{
    node_views, referenced_ids, way_views, Node, NodeView, Primitive, PrimitiveView, Region,
    RegionView, Way, WayView,
};
use crate::predicate::TagPredicate;
use std::collections::{HashMap, HashSet};
use vstd::prelude::*;

verus! {

/// Where an extraction stands.
#[derive(Debug, Clone, Copy, PartialEq, Eq, Structural)]
pub enum Phase {
    /// First pass: ways are being kept.
    CollectingWays,
    /// The first pass is over and the required nodes are known; the stream has
    /// yet to be rewound.
    ComputingRequiredNodes,
    /// Second pass: nodes are being kept.
    CollectingNodes,
    /// Both passes are over.
    Done,
    /// The stream could not be read.
    Failed,
}

/// What the caller is to do after an event.
#[derive(Debug, Clone, Copy, PartialEq, Eq, Structural)]
pub enum Action {
    /// Read the next primitive and hand it over.
    Next,
    /// Rewind the stream to its start and report it.
    Rewind,
    /// Take the region: the extraction is complete.
    Finish,
    /// Give up: the stream could not be read.
    Abort,
    /// The event was not expected in this phase, and nothing has changed.
    Refuse,
}

/// What the caller reports of the stream.
#[derive(Debug)]
pub enum Event {
    /// The next primitive.
    Item(Primitive),
    /// The stream could not be decoded, or could not be rewound.
    Unreadable,
    /// The stream has no more primitives.
    EndOfStream,
    /// The stream stands at its start again.
    Rewound,
}

/// What an [`Event`] holds.
pub enum EventView {
    Item(PrimitiveView),
    Unreadable,
    EndOfStream,
    Rewound,
}

impl View for Event {
    type V = EventView;

    open spec fn view(&self) -> EventView {
        match self {
            Event::Item(p) => EventView::Item(p@),
            Event::Unreadable => EventView::Unreadable,
            Event::EndOfStream => EventView::EndOfStream,
            Event::Rewound => EventView::Rewound,
        }
    }
}

/// What an [`Extractor`] holds.
pub struct ExtractorView {
    pub phase: Phase,
    pub name: Seq<char>,
    pub rule: TagPredicate,
    pub ways: Seq<WayView>,
    pub required: Set<i64>,
    pub nodes: Map<i64, NodeView>,
}

/// The machine before the first event.
pub open spec fn initial(name: Seq<char>, rule: TagPredicate) -> ExtractorView {
    ExtractorView {
        phase: Phase::CollectingWays,
        name,
        rule,
        ways: Seq::empty(),
        required: Set::empty(),
        nodes: Map::empty(),
    }
}

/// The machine after `event`, and what the caller is to do.
pub open spec fn step_of(m: ExtractorView, event: EventView) -> (ExtractorView, Action) {
    match (m.phase, event) {
        (Phase::CollectingWays, EventView::Item(p)) => (
            ExtractorView { ways: keep_way(m.ways, p, m.rule), ..m },
            Action::Next,
        ),
        (Phase::CollectingWays, EventView::EndOfStream) => (
            ExtractorView {
                phase: Phase::ComputingRequiredNodes,
                required: referenced_ids(m.ways),
                ..m
            },
            Action::Rewind,
        ),
        (Phase::ComputingRequiredNodes, EventView::Rewound) => (
            ExtractorView { phase: Phase::CollectingNodes, ..m },
            Action::Next,
        ),
        (Phase::CollectingNodes, EventView::Item(p)) => (
            ExtractorView { nodes: keep_node(m.nodes, p, m.required), ..m },
            Action::Next,
        ),
        (Phase::CollectingNodes, EventView::EndOfStream) => (
            ExtractorView { phase: Phase::Done, ..m },
            Action::Finish,
        ),
        (Phase::CollectingWays, EventView::Unreadable)
        | (Phase::ComputingRequiredNodes, EventView::Unreadable)
        | (Phase::CollectingNodes, EventView::Unreadable) => (
            ExtractorView { phase: Phase::Failed, ..m },
            Action::Abort,
        ),
        _ => (m, Action::Refuse),
    }
}

/// The machine after all of `events`, in their order.
pub open spec fn run(m: ExtractorView, events: Seq<EventView>) -> ExtractorView
    decreases events.len(),
{
    if events.len() == 0 {
        m
    } else {
        step_of(run(m, events.drop_last()), events.last()).0
    }
}

/// One pass over `stream`: each primitive as an event.
pub open spec fn items(stream: Seq<PrimitiveView>) -> Seq<EventView> {
    stream.map_values(|p: PrimitiveView| EventView::Item(p))
}

/// The events of a whole extraction from `stream`: a pass, its end, the
/// rewinding, the same pass again, and its end.
pub open spec fn two_passes(stream: Seq<PrimitiveView>) -> Seq<EventView> {
    items(stream).push(EventView::EndOfStream).push(EventView::Rewound) + items(stream).push(
        EventView::EndOfStream,
    )
}

/// A machine that cuts a region out of a stream which the caller reads.
pub struct Extractor {
    phase: Phase,
    name: String,
    rule: TagPredicate,
    ways: Vec<Way>,
    required: HashSet<i64>,
    nodes: HashMap<i64, Node>,
}

impl View for Extractor {
    type V = ExtractorView;

    closed spec fn view(&self) -> ExtractorView {
        ExtractorView {
            phase: self.phase,
            name: self.name@,
            rule: self.rule,
            ways: way_views(self.ways@),
            required: self.required@,
            nodes: node_views(self.nodes@),
        }
    }
}

impl Extractor {
    /// A machine for the region `name`, which keeps the ways that `rule`
    /// accepts.
    pub fn new(name: String, rule: TagPredicate) -> (m: Extractor)
        ensures
            m@ == initial(name@, rule),
    {
        let m = Extractor {
            phase: Phase::CollectingWays,
            name,
            rule,
            ways: Vec::new(),
            required: HashSet::new(),
            nodes: HashMap::new(),
        };
        assert(m@.ways =~= Seq::empty());
        assert(m@.nodes =~= Map::empty());
        m
    }

    /// Where the extraction stands.
    pub fn phase(&self) -> (p: Phase)
        ensures
            p == self@.phase,
    {
        self.phase
    }

    /// Takes one event of the stream and says what to do next.
    pub fn step(&mut self, event: Event) -> (action: Action)
        ensures
            (final(self)@, action) == step_of(old(self)@, event@),
    {
        match (self.phase, event) {
            (Phase::CollectingWays, Event::Item(p)) => {
                retain_way(&mut self.ways, &p, &self.rule);
                Action::Next
            },
            (Phase::CollectingWays, Event::EndOfStream) => {
                self.required = required_node_ids(&self.ways);
                self.phase = Phase::ComputingRequiredNodes;
                Action::Rewind
            },
            (Phase::ComputingRequiredNodes, Event::Rewound) => {
                self.phase = Phase::CollectingNodes;
                Action::Next
            },
            (Phase::CollectingNodes, Event::Item(p)) => {
                retain_node(&mut self.nodes, &p, &self.required);
                Action::Next
            },
            (Phase::CollectingNodes, Event::EndOfStream) => {
                self.phase = Phase::Done;
                Action::Finish
            },
            (Phase::CollectingWays, Event::Unreadable)
            | (Phase::ComputingRequiredNodes, Event::Unreadable)
            | (Phase::CollectingNodes, Event::Unreadable) => {
                self.phase = Phase::Failed;
                Action::Abort
            },
            _ => Action::Refuse,
        }
    }

    /// The region, once the extraction is complete.
    pub fn into_region(self) -> (r: Option<Region>)
        ensures
            r is Some <==> self@.phase == Phase::Done,
            r matches Some(region) ==> region@ == (RegionView {
                name: self@.name,
                ways: self@.ways,
                nodes: self@.nodes,
            }),
    {
        match self.phase {
            Phase::Done => Some(Region { name: self.name, ways: self.ways, nodes: self.nodes }),
            _ => None,
        }
    }
}

/// Running over `first` and then `second` is running over both in a row.
pub proof fn lemma_run_concat(m: ExtractorView, first: Seq<EventView>, second: Seq<EventView>)
    ensures
        run(m, first + second) == run(run(m, first), second),
    decreases second.len(),
{
    if second.len() == 0 {
        assert(first + second == first);
    } else {
        lemma_run_concat(m, first, second.drop_last());
        assert((first + second).drop_last() == first + second.drop_last());
        assert((first + second).last() == second.last());
    }
}

/// A first pass over `stream` keeps the ways that the rule accepts and
/// changes nothing else.
pub proof fn lemma_first_pass(m: ExtractorView, stream: Seq<PrimitiveView>)
    requires
        m.phase == Phase::CollectingWays,
        m.ways.len() == 0,
    ensures
        run(m, items(stream)) == (ExtractorView { ways: retained_ways(stream, m.rule), ..m }),
    decreases stream.len(),
{
    if stream.len() == 0 {
        assert(m.ways =~= retained_ways(stream, m.rule));
    } else {
        lemma_first_pass(m, stream.drop_last());
        assert(items(stream).drop_last() == items(stream.drop_last()));
        assert(items(stream).last() == EventView::Item(stream.last()));
    }
}

/// A second pass over `stream` keeps the required nodes and changes nothing
/// else.
pub proof fn lemma_second_pass(m: ExtractorView, stream: Seq<PrimitiveView>)
    requires
        m.phase == Phase::CollectingNodes,
        m.nodes == Map::<i64, NodeView>::empty(),
    ensures
        run(m, items(stream)) == (ExtractorView {
            nodes: collected_nodes(stream, m.required),
            ..m
        }),
    decreases stream.len(),
{
    if stream.len() > 0 {
        lemma_second_pass(m, stream.drop_last());
        assert(items(stream).drop_last() == items(stream.drop_last()));
        assert(items(stream).last() == EventView::Item(stream.last()));
    }
}

/// Fed with two passes over the same stream, the machine ends with the region
/// that the stream gives under its rule.
pub proof fn lemma_two_passes_extract(
    name: Seq<char>,
    stream: Seq<PrimitiveView>,
    rule: TagPredicate,
)
    ensures
        run(initial(name, rule), two_passes(stream)).phase == Phase::Done,
        run(initial(name, rule), two_passes(stream)).name == extracted(name, stream, rule).name,
        run(initial(name, rule), two_passes(stream)).ways == extracted(name, stream, rule).ways,
        run(initial(name, rule), two_passes(stream)).nodes == extracted(name, stream, rule).nodes,
{
    let start = initial(name, rule);
    let pass = items(stream);
    let ways = retained_ways(stream, rule);
    lemma_first_pass(start, stream);
    let after_first = ExtractorView { ways, ..start };
    let at_barrier = ExtractorView {
        phase: Phase::ComputingRequiredNodes,
        required: referenced_ids(ways),
        ..after_first
    };
    let rewound = ExtractorView { phase: Phase::CollectingNodes, ..at_barrier };
    let head = pass.push(EventView::EndOfStream).push(EventView::Rewound);
    assert(run(start, head) == rewound) by {
        let first = pass.push(EventView::EndOfStream);
        assert(first.drop_last() == pass);
        assert(head.drop_last() == first);
        assert(run(start, first) == at_barrier);
    }
    let tail = pass.push(EventView::EndOfStream);
    assert(run(rewound, tail).phase == Phase::Done && run(rewound, tail).nodes == collected_nodes(
        stream,
        referenced_ids(ways),
    ) && run(rewound, tail).ways == ways && run(rewound, tail).name == name) by {
        lemma_second_pass(rewound, stream);
        assert(tail.drop_last() == pass);
    }
    lemma_run_concat(start, head, tail);
}

/// The barrier between the passes: nodes are kept in the second pass only,
/// the second pass is entered only when the stream is reported rewound after
/// the first pass has ended, and from the end of the first pass on neither the
/// ways nor the set of required nodes change.
pub proof fn lemma_barrier(m: ExtractorView, event: EventView)
    ensures
        m.phase != Phase::CollectingNodes ==> step_of(m, event).0.nodes == m.nodes,
        m.phase != Phase::CollectingNodes && step_of(m, event).0.phase == Phase::CollectingNodes
            ==> m.phase == Phase::ComputingRequiredNodes && event == EventView::Rewound,
        step_of(m, event).1 == Action::Rewind ==> m.phase == Phase::CollectingWays && step_of(
            m,
            event,
        ).0.required == referenced_ids(step_of(m, event).0.ways),
        m.phase != Phase::CollectingWays ==> step_of(m, event).0.ways == m.ways && step_of(
            m,
            event,
        ).0.required == m.required,
{
}

} // verus!
