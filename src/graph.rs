use vstd::prelude::*;

use crate::effects::{Add, Effect, Gain, Output, SineWave, Zero};
use crate::paths::{
    is_acyclic, is_path, is_ranked, lemma_new_edge_keeps_ranked, lemma_new_node_keeps_ranked,
    lemma_rank_falls_along_path, lemma_ranked_is_acyclic, lemma_reaches_first_slot, lemma_reaches_self,
    lemma_reaches_through_slot, lifted_rank, reaches,
};
use crate::track::Track;

verus! {

/// The node every new input slot points at.
pub const ZERO_INDEX: usize = 0;

/// The graph's terminal.
pub const OUTPUT_INDEX: usize = 1;

/// Bit patterns of the parameters of the demonstration graph.
pub const MINUS_TWELVE_DB: u32 = 0xC140_0000;
pub const TWELVE_DB: u32 = 0x4140_0000;
pub const HALF: u32 = 0x3F00_0000;
pub const HERTZ_440: u32 = 0x43DC_0000;
pub const HERTZ_480: u32 = 0x43F0_0000;
pub const ZERO_PHASE: u32 = 0;

/// One end of an edge: a node, one of its slots, and whether that slot is an input.
#[derive(Clone, Copy, PartialEq, Eq, Structural, Debug)]
pub struct NodeCircleIdentifier {
    pub node_index: usize,
    pub circle_index: usize,
    pub circle_is_input: bool,
}

impl NodeCircleIdentifier {
    pub fn new(node_index: usize, circle_index: usize, circle_is_input: bool) -> (r: Self)
        ensures
            r == (NodeCircleIdentifier { node_index, circle_index, circle_is_input }),
    {
        NodeCircleIdentifier { node_index, circle_index, circle_is_input }
    }
}

/// An edge from an input slot to the output of the node that feeds it.
#[derive(Clone, Copy, PartialEq, Eq, Structural, Debug)]
pub struct Edge {
    pub input: NodeCircleIdentifier,
    pub output: NodeCircleIdentifier,
}

impl Edge {
    pub fn new(input: NodeCircleIdentifier, output: NodeCircleIdentifier) -> (r: Self)
        ensures
            r.input == input,
            r.output == output,
    {
        Edge { input, output }
    }
}

/// The playback position and rate that the graph's views are drawn at.
#[derive(Clone, Copy, PartialEq, Eq, Structural, Debug)]
pub struct GraphAudioData {
    pub current_sample: usize,
    pub sample_rate: u32,
}

impl GraphAudioData {
    pub fn new(current_sample: usize, sample_rate: u32) -> (r: Self)
        ensures
            r.current_sample == current_sample,
            r.sample_rate == sample_rate,
    {
        GraphAudioData { current_sample, sample_rate }
    }
}

/// Why a graph edit was refused; a refused edit leaves the graph as it was.
#[derive(Clone, Copy, PartialEq, Eq, Structural, Debug)]
pub enum GraphError {
    /// No node has this index.
    NoSuchNode(usize),
    /// The node has no input slot of this index.
    OutOfBounds(usize),
    /// The slot already holds that node.
    AlreadyConnected,
    /// The downstream node is upstream of the new input already.
    WouldFormCycle,
    /// The node is not of the kind whose parameter was to be set.
    WrongKind(usize),
}

/// A node of the graph: its stable index, its effect, and whether it is upstream
/// of the output.
pub struct Node {
    index: usize,
    effect: Effect,
    is_connected_to_output: bool,
}

impl Node {
    pub closed spec fn spec_index(&self) -> usize {
        self.index
    }

    pub closed spec fn spec_effect(&self) -> &Effect {
        &self.effect
    }

    pub closed spec fn spec_connected(&self) -> bool {
        self.is_connected_to_output
    }

    pub fn effect(&self) -> (r: &Effect)
        ensures
            r == self.spec_effect(),
    {
        &self.effect
    }

    pub fn index(&self) -> (r: usize)
        ensures
            r == self.spec_index(),
    {
        self.index
    }

    pub fn is_connected_to_output(&self) -> (r: bool)
        ensures
            r == self.spec_connected(),
    {
        self.is_connected_to_output
    }
}

/// The effect graph: nodes indexed by position, node 0 a `Zero` and node 1 the
/// `Output`. Edges live in the input slots of the downstream nodes, and are only
/// added through `connect`, which keeps them free of cycles.
pub struct NodeGraph {
    nodes: Vec<Node>,
    rank: Ghost<Seq<nat>>,
}

impl NodeGraph {
    pub closed spec fn node_seq(&self) -> Seq<Node> {
        self.nodes@
    }

    /// The input slots of every node.
    pub closed spec fn edges(&self) -> Seq<Seq<usize>> {
        self.nodes@.map_values(|n: Node| n.effect.inputs())
    }

    /// The effect of every node.
    pub closed spec fn effects(&self) -> Seq<Effect> {
        self.nodes@.map_values(|n: Node| n.effect)
    }

    /// Whether each node is upstream of the output.
    pub closed spec fn connected(&self) -> Seq<bool> {
        self.nodes@.map_values(|n: Node| n.is_connected_to_output)
    }

    pub closed spec fn spec_len(&self) -> nat {
        self.nodes@.len()
    }

    /// The shape every edit keeps: the two fixed nodes, indices that match
    /// positions, and slots that hold nodes of lower rank.
    pub closed spec fn wf_structure(&self) -> bool {
        &&& self.nodes@.len() >= 2
        &&& forall|i: int| 0 <= i < self.nodes@.len() ==> #[trigger] self.nodes@[i].index == i
        &&& is_ranked(self.edges(), self.rank@)
    }

    /// The shape, with the connection status of every node up to date.
    pub closed spec fn wf(&self) -> bool {
        &&& self.wf_structure()
        &&& self.connected() == Seq::new(
            self.spec_len(),
            |i: int| reaches(self.edges(), OUTPUT_INDEX as int, i),
        )
    }

    pub fn len(&self) -> (r: usize)
        ensures
            r == self.spec_len(),
    {
        self.nodes.len()
    }

    pub fn node(&self, index: usize) -> (r: &Node)
        requires
            index < self.spec_len(),
        ensures
            *r == self.node_seq()[index as int],
    {
        &self.nodes[index]
    }

    /// Whether node `index` is the output or upstream of it.
    pub fn is_connected(&self, index: usize) -> (r: bool)
        requires
            self.wf(),
            index < self.spec_len(),
        ensures
            r == reaches(self.edges(), OUTPUT_INDEX as int, index as int),
    {
        assert(self.connected()[index as int] == self.nodes@[index as int].is_connected_to_output);
        self.nodes[index].is_connected_to_output
    }

    /// Sets the gain, in decibels as a bit pattern, of node `index`, which must be a
    /// `Gain`. Edges and every other node are kept.
    pub fn set_gain(&mut self, index: usize, gain: u32) -> (r: Result<(), GraphError>)
        requires
            old(self).wf(),
        ensures
            final(self).wf(),
            final(self).edges() == old(self).edges(),
            index >= old(self).spec_len() ==> r == Err::<(), GraphError>(GraphError::NoSuchNode(index))
                && *final(self) == *old(self),
            index < old(self).spec_len() && !(old(self).effects()[index as int] is Gain) ==> r
                == Err::<(), GraphError>(GraphError::WrongKind(index)) && *final(self) == *old(self),
            index < old(self).spec_len() && old(self).effects()[index as int] is Gain ==> r is Ok
                && (final(self).effects()[index as int] matches Effect::Gain(g) && g.gain_bits() == gain)
                && forall|i: int|
                0 <= i < old(self).spec_len() && i != index ==> #[trigger] final(self).effects()[i]
                    == old(self).effects()[i],
    {
        if index >= self.nodes.len() {
            return Err(GraphError::NoSuchNode(index));
        }
        let ghost g = self.edges();
        let ghost c = self.connected();
        let right_kind = match &self.nodes[index].effect {
            Effect::Gain(_) => true,
            _ => false,
        };
        if !right_kind {
            return Err(GraphError::WrongKind(index));
        }
        match &mut self.nodes[index].effect {
            Effect::Gain(gn) => {
                gn.set_gain(gain);
            },
            _ => {},
        }
        assert(self.edges() =~= g);
        assert(self.connected() =~= c);
        Ok(())
    }

    /// Sets amplitude, frequency and phase, as bit patterns, of node `index`, which
    /// must be a `SineWave`. Edges and every other node are kept.
    pub fn set_sine_params(&mut self, index: usize, amplitude: u32, frequency: u32, phase: u32) -> (r:
        Result<(), GraphError>)
        requires
            old(self).wf(),
        ensures
            final(self).wf(),
            final(self).edges() == old(self).edges(),
            index >= old(self).spec_len() ==> r == Err::<(), GraphError>(GraphError::NoSuchNode(index))
                && *final(self) == *old(self),
            index < old(self).spec_len() && !(old(self).effects()[index as int] is SineWave) ==> r
                == Err::<(), GraphError>(GraphError::WrongKind(index)) && *final(self) == *old(self),
            index < old(self).spec_len() && old(self).effects()[index as int] is SineWave ==> r is Ok
                && (final(self).effects()[index as int] matches Effect::SineWave(w) && w.params() == (
                amplitude,
                frequency,
                phase,
            )) && forall|i: int|
                0 <= i < old(self).spec_len() && i != index ==> #[trigger] final(self).effects()[i]
                    == old(self).effects()[i],
    {
        if index >= self.nodes.len() {
            return Err(GraphError::NoSuchNode(index));
        }
        let ghost g = self.edges();
        let ghost c = self.connected();
        let right_kind = match &self.nodes[index].effect {
            Effect::SineWave(_) => true,
            _ => false,
        };
        if !right_kind {
            return Err(GraphError::WrongKind(index));
        }
        match &mut self.nodes[index].effect {
            Effect::SineWave(w) => {
                w.set_params(amplitude, frequency, phase);
            },
            _ => {},
        }
        assert(self.edges() =~= g);
        assert(self.connected() =~= c);
        Ok(())
    }

    /// A graph of a `Zero` node feeding the `Output`.
    pub fn new() -> (r: Self)
        ensures
            r.wf(),
            r.spec_len() == 2,
            r.edges() == seq![Seq::<usize>::empty(), seq![ZERO_INDEX]],
            r.effects()[ZERO_INDEX as int] is Zero,
            r.effects()[OUTPUT_INDEX as int] is Output,
    {
        let zero = Node { index: ZERO_INDEX, effect: Effect::Zero(Zero), is_connected_to_output: false };
        let output = Node {
            index: OUTPUT_INDEX,
            effect: Effect::Output(Output::new(ZERO_INDEX)),
            is_connected_to_output: false,
        };
        let mut nodes: Vec<Node> = Vec::new();
        nodes.push(zero);
        nodes.push(output);
        let ghost rank = seq![0nat, 1nat];
        let mut g = NodeGraph {
            nodes,
            rank: Ghost(rank),
        };
        assert(g.edges() =~= seq![Seq::<usize>::empty(), seq![ZERO_INDEX]]);
        let ghost e = g.effects();
        g.set_node_connection_status();
        assert(g.effects() =~= e);
        g
    }

    /// A graph with two gains, two oscillators and an adder beside the fixed nodes,
    /// all fed by the `Zero` node and none yet connected to the output.
    pub fn new_non_trivial() -> (r: Self)
        ensures
            r.wf(),
            r.spec_len() == 7,
    {
        let mut s = NodeGraph::new();
        let _ = s.add_node(Effect::Gain(Gain::new(MINUS_TWELVE_DB, ZERO_INDEX)));
        let _ = s.add_node(Effect::Gain(Gain::new(TWELVE_DB, ZERO_INDEX)));
        let _ = s.add_node(Effect::SineWave(SineWave::new(HALF, HERTZ_440, ZERO_PHASE)));
        let _ = s.add_node(Effect::SineWave(SineWave::new(HALF, HERTZ_480, ZERO_PHASE)));
        let _ = s.add_node(Effect::Add(Add::new(ZERO_INDEX, ZERO_INDEX)));
        s
    }

    /// Adds a decoded track as a source node and returns its index.
    pub fn add_track(&mut self, track: Track) -> (r: usize)
        requires
            old(self).wf(),
        ensures
            final(self).wf(),
            r == old(self).spec_len(),
            final(self).edges() == old(self).edges().push(Seq::<usize>::empty()),
    {
        let n = self.len();
        let r = self.add_node(Effect::Track(track));
        match r {
            Ok(i) => i,
            Err(_) => {
                assert(false);
                0
            },
        }
    }

    /// Appends `effect` as a new node and returns its index. Its input slots must
    /// hold nodes of the graph, else the graph is left as it was.
    pub fn add_node(&mut self, effect: Effect) -> (r: Result<usize, GraphError>)
        requires
            old(self).wf(),
        ensures
            final(self).wf(),
            (forall|k: int|
                0 <= k < effect.inputs().len() ==> #[trigger] effect.inputs()[k] < old(
                    self,
                ).spec_len()) ==> r == Ok::<usize, GraphError>(old(self).spec_len() as usize)
                && final(self).spec_len() == old(self).spec_len() + 1
                && final(self).edges() == old(self).edges().push(effect.inputs())
                && final(self).effects() == old(self).effects().push(effect),
            !(forall|k: int|
                0 <= k < effect.inputs().len() ==> #[trigger] effect.inputs()[k] < old(
                    self,
                ).spec_len()) ==> (exists|k: int|
                0 <= k < effect.inputs().len() && r == Err::<usize, GraphError>(
                    GraphError::NoSuchNode(#[trigger] effect.inputs()[k]),
                )) && *final(self) == *old(self),
    {
        let n = self.nodes.len();
        let count = effect.input_count();
        let ghost mut m: nat = 1;
        let mut i: usize = 0;
        while i < count
            invariant
                count == effect.inputs().len(),
                i <= count,
                n == self.nodes@.len(),
                self.wf(),
                forall|k: int|
                    0 <= k < i ==> #[trigger] effect.inputs()[k] < n && self.rank@[effect.inputs()[k] as int]
                        < m,
            decreases count - i,
        {
            let input = match effect.get_input_at_index(i) {
                Ok(x) => x,
                Err(_) => {
                    assert(false);
                    0
                },
            };
            if input >= n {
                return Err(GraphError::NoSuchNode(input));
            }
            proof {
                if self.rank@[input as int] + 1 > m {
                    m = self.rank@[input as int] + 1;
                }
            }
            i = i + 1;
        }
        let ghost old_edges = self.edges();
        let ghost old_effects = self.effects();
        let ghost ins = effect.inputs();
        proof {
            lemma_new_node_keeps_ranked(old_edges, self.rank@, ins, m);
        }
        self.nodes.push(Node { index: n, effect, is_connected_to_output: false });
        let ghost pushed = self.rank@.push(m);
        self.rank = Ghost(pushed);
        assert(self.edges() =~= old_edges.push(ins));
        let ghost pushed_effects = self.effects();
        assert(pushed_effects =~= old_effects.push(effect));
        self.set_node_connection_status();
        assert(self.effects() =~= pushed_effects);
        Ok(n)
    }

    /// Points the input slot `input` at the output of node `output.node_index`.
    /// Refused, leaving the graph as it was, when a node or the slot does not exist,
    /// when the slot holds that node already, and when the new input is downstream
    /// of the slot's node already, which would close a cycle.
    pub fn connect(&mut self, input: NodeCircleIdentifier, output: NodeCircleIdentifier) -> (r:
        Result<(), GraphError>)
        requires
            old(self).wf(),
        ensures
            final(self).wf(),
            connect_outcome(*old(self), *final(self), input, output, r),
    {
        let n = self.nodes.len();
        let u = input.node_index;
        let slot = input.circle_index;
        let d = output.node_index;
        if u >= n {
            return Err(GraphError::NoSuchNode(u));
        }
        if d >= n {
            return Err(GraphError::NoSuchNode(d));
        }
        if slot >= self.nodes[u].effect.input_count() {
            return Err(GraphError::OutOfBounds(slot));
        }
        if self.check_edge_already_exists(input, output) {
            return Err(GraphError::AlreadyConnected);
        }
        if !self.check_will_form_dag(input, output) {
            return Err(GraphError::WouldFormCycle);
        }
        let ghost g = self.edges();
        let ghost new_rank = lifted_rank(g, self.rank@, u as int, d as int);
        proof {
            lemma_new_edge_keeps_ranked(g, self.rank@, u as int, slot as int, d);
        }
        let ghost old_nodes = self.nodes@;
        let _ = self.nodes[u].effect.set_input_at_index(slot, d);
        self.rank = Ghost(new_rank);
        assert forall|i: int| 0 <= i < n && i != u implies #[trigger] self.nodes@[i] == old_nodes[i] by {}
        assert(self.edges() =~= g.update(u as int, g[u as int].update(slot as int, d)));
        let ghost set_effects = self.effects();
        self.set_node_connection_status();
        assert(self.effects() =~= set_effects);
        Ok(())
    }

    /// Whether slot `input` holds the node of `output` already.
    fn check_edge_already_exists(&self, input: NodeCircleIdentifier, output: NodeCircleIdentifier) -> (r:
        bool)
        requires
            self.wf(),
            input.node_index < self.spec_len(),
        ensures
            r == (input.circle_index < self.edges()[input.node_index as int].len()
                && self.edges()[input.node_index as int][input.circle_index as int]
                == output.node_index),
    {
        match self.nodes[input.node_index].effect.get_input_at_index(input.circle_index) {
            Ok(x) => x == output.node_index,
            Err(_) => false,
        }
    }

    /// Whether the edge from `input` to `output` keeps the graph free of cycles:
    /// the input's node must not be upstream of the output's node.
    fn check_will_form_dag(&self, input: NodeCircleIdentifier, output: NodeCircleIdentifier) -> (r:
        bool)
        requires
            self.wf_structure(),
            input.node_index < self.spec_len(),
            output.node_index < self.spec_len(),
        ensures
            r == !reaches(self.edges(), output.node_index as int, input.node_index as int),
    {
        !self.dfs_upstream_path(output.node_index, input.node_index)
    }

    /// Whether `destination` is `current` or upstream of it, searched depth first.
    fn dfs_upstream_path(&self, current: usize, destination: usize) -> (r: bool)
        requires
            self.wf_structure(),
            current < self.spec_len(),
            destination < self.spec_len(),
        ensures
            r == reaches(self.edges(), current as int, destination as int),
        decreases self.rank@[current as int],
    {
        let ghost g = self.edges();
        if current == destination {
            proof {
                lemma_reaches_self(g, current as int);
            }
            return true;
        }
        let count = self.nodes[current].effect.input_count();
        assert(g[current as int] == self.nodes@[current as int].effect.inputs());
        let mut i: usize = 0;
        while i < count
            invariant
                self.wf_structure(),
                g == self.edges(),
                current < g.len(),
                destination < g.len(),
                count == g[current as int].len(),
                i <= count,
                forall|k: int|
                    0 <= k < i ==> !reaches(g, #[trigger] g[current as int][k] as int, destination as int),
            decreases count - i,
        {
            let next = match self.nodes[current].effect.get_input_at_index(i) {
                Ok(x) => x,
                Err(_) => {
                    assert(false);
                    0
                },
            };
            assert(next == g[current as int][i as int]);
            if self.dfs_upstream_path(next, destination) {
                proof {
                    lemma_reaches_through_slot(g, current as int, i as int, destination as int);
                }
                return true;
            }
            i = i + 1;
        }
        proof {
            if reaches(g, current as int, destination as int) {
                lemma_reaches_first_slot(g, current as int, destination as int);
            }
        }
        false
    }

    /// Marks `index` and everything upstream of it as connected.
    fn iterate_node_connection_status(&mut self, index: usize)
        requires
            old(self).wf_structure(),
            index < old(self).spec_len(),
        ensures
            final(self).wf_structure(),
            final(self).edges() == old(self).edges(),
            final(self).spec_len() == old(self).spec_len(),
            final(self).rank == old(self).rank,
            forall|i: int|
                0 <= i < final(self).spec_len() ==> #[trigger] final(self).nodes@[i].effect
                    == old(self).nodes@[i].effect,
            forall|j: int|
                0 <= j < final(self).spec_len() ==> #[trigger] final(self).connected()[j] == (old(
                    self,
                ).connected()[j] || reaches(old(self).edges(), index as int, j)),
        decreases old(self).rank@[index as int],
    {
        let ghost g = self.edges();
        let ghost c0 = self.connected();
        let ghost nodes0 = self.nodes@;
        self.nodes[index].is_connected_to_output = true;
        assert(self.edges() =~= g);
        let count = self.nodes[index].effect.input_count();
        let mut i: usize = 0;
        while i < count
            invariant
                self.wf_structure(),
                self.edges() == g,
                self.nodes@.len() == g.len(),
                self.rank == old(self).rank,
                forall|t: int|
                    0 <= t < g.len() ==> #[trigger] self.nodes@[t].effect == nodes0[t].effect,
                index < g.len(),
                count == g[index as int].len(),
                i <= count,
                forall|j: int|
                    0 <= j < g.len() ==> #[trigger] self.connected()[j] == (c0[j] || j == index
                        || reached_through_first(g, index as int, i as int, j)),
            decreases count - i,
        {
            let next = match self.nodes[index].effect.get_input_at_index(i) {
                Ok(x) => x,
                Err(_) => {
                    assert(false);
                    0
                },
            };
            assert(next == g[index as int][i as int]);
            let ghost c1 = self.connected();
            self.iterate_node_connection_status(next);
            i = i + 1;
            assert forall|j: int| 0 <= j < g.len() implies #[trigger] self.connected()[j] == (c0[j]
                || j == index || reached_through_first(g, index as int, i as int, j)) by {
                if reaches(g, next as int, j) {
                    assert(reaches(g, #[trigger] g[index as int][i - 1] as int, j));
                }
                if reached_through_first(g, index as int, i as int, j) {
                    let k = choose|k: int|
                        0 <= k < i && reaches(g, #[trigger] g[index as int][k] as int, j);
                    if k < i - 1 {
                        assert(reached_through_first(g, index as int, i - 1, j));
                    }
                }
            }
        }
        assert forall|j: int| 0 <= j < g.len() implies (j == index || reached_through_first(
            g,
            index as int,
            count as int,
            j,
        )) == reaches(g, index as int, j) by {
            if j == index {
                lemma_reaches_self(g, j);
            } else if reaches(g, index as int, j) {
                lemma_reaches_first_slot(g, index as int, j);
            }
            if reached_through_first(g, index as int, count as int, j) {
                let k = choose|k: int|
                    0 <= k < count && reaches(g, #[trigger] g[index as int][k] as int, j);
                lemma_reaches_through_slot(g, index as int, k, j);
            }
        }
    }

    /// Recomputes which nodes are upstream of the output.
    fn set_node_connection_status(&mut self)
        requires
            old(self).wf_structure(),
        ensures
            final(self).wf(),
            final(self).edges() == old(self).edges(),
            final(self).rank == old(self).rank,
            final(self).spec_len() == old(self).spec_len(),
            forall|i: int|
                0 <= i < final(self).spec_len() ==> #[trigger] final(self).nodes@[i].effect
                    == old(self).nodes@[i].effect,
    {
        let ghost g = self.edges();
        let n = self.nodes.len();
        let mut i: usize = 0;
        while i < n
            invariant
                n == self.nodes@.len(),
                self.wf_structure(),
                self.edges() == g,
                self.rank == old(self).rank,
                forall|t: int|
                    0 <= t < n ==> #[trigger] self.nodes@[t].effect == old(self).nodes@[t].effect,
                i <= n,
                forall|j: int| 0 <= j < i ==> !#[trigger] self.connected()[j],
            decreases n - i,
        {
            let ghost c = self.connected();
            self.nodes[i].is_connected_to_output = false;
            assert(self.connected() =~= c.update(i as int, false));
            assert(self.edges() =~= g);
            i = i + 1;
        }
        self.iterate_node_connection_status(OUTPUT_INDEX);
        assert(self.connected() =~= Seq::new(
            self.spec_len(),
            |i: int| reaches(self.edges(), OUTPUT_INDEX as int, i),
        ));
    }
}

/// A well-formed graph has no cycle.
pub proof fn lemma_well_formed_graph_is_acyclic(g: NodeGraph)
    requires
        g.wf(),
    ensures
        is_acyclic(g.edges()),
{
    lemma_ranked_is_acyclic(g.edges(), g.rank@);
}

/// Whatever `connect` returns, the graph it leaves behind has no cycle: together
/// with `add_node`, `add_track` and `new`, which keep graphs well-formed, no run of
/// edits ever closes a cycle.
pub proof fn lemma_connect_keeps_acyclic(
    before: NodeGraph,
    after: NodeGraph,
    input: NodeCircleIdentifier,
    output: NodeCircleIdentifier,
    r: Result<(), GraphError>,
)
    requires
        before.wf(),
        connect_outcome(before, after, input, output, r),
    ensures
        is_acyclic(after.edges()),
{
    let g = before.edges();
    let u = input.node_index as int;
    let slot = input.circle_index as int;
    let d = output.node_index;
    if r is Ok {
        lemma_new_edge_keeps_ranked(g, before.rank@, u, slot, d);
        lemma_ranked_is_acyclic(after.edges(), lifted_rank(g, before.rank@, u, d as int));
    } else {
        lemma_ranked_is_acyclic(g, before.rank@);
    }
}

/// An edge whose downstream node is already upstream of the new input is refused
/// as a cycle, and the graph is left unchanged.
pub proof fn lemma_connect_refuses_cycles(
    before: NodeGraph,
    after: NodeGraph,
    input: NodeCircleIdentifier,
    output: NodeCircleIdentifier,
    r: Result<(), GraphError>,
)
    requires
        before.wf(),
        connect_outcome(before, after, input, output, r),
        input.node_index < before.spec_len(),
        output.node_index < before.spec_len(),
        input.circle_index < before.edges()[input.node_index as int].len(),
        reaches(before.edges(), output.node_index as int, input.node_index as int),
    ensures
        r == Err::<(), GraphError>(GraphError::WouldFormCycle),
        after == before,
{
    let g = before.edges();
    let u = input.node_index as int;
    let slot = input.circle_index as int;
    let d = output.node_index as int;
    if g[u][slot] == d {
        let p = choose|p: Seq<int>| #[trigger] is_path(g, p) && p[0] == d && p[p.len() - 1] == u;
        lemma_rank_falls_along_path(g, before.rank@, p);
    }
}

/// Some slot `k < i` of node `a` holds a node that reaches `j`.
pub open spec fn reached_through_first(g: Seq<Seq<usize>>, a: int, i: int, j: int) -> bool {
    exists|k: int| 0 <= k < i && reaches(g, #[trigger] g[a][k] as int, j)
}

/// What `connect` leaves: each refusal with the graph unchanged, else the slot
/// pointed at the new input and every other slot kept.
pub open spec fn connect_outcome(
    before: NodeGraph,
    after: NodeGraph,
    input: NodeCircleIdentifier,
    output: NodeCircleIdentifier,
    r: Result<(), GraphError>,
) -> bool {
    let g = before.edges();
    let u = input.node_index as int;
    let slot = input.circle_index as int;
    let d = output.node_index;
    if u >= g.len() {
        r == Err::<(), GraphError>(GraphError::NoSuchNode(input.node_index)) && after == before
    } else if d >= g.len() {
        r == Err::<(), GraphError>(GraphError::NoSuchNode(d)) && after == before
    } else if slot >= g[u].len() {
        r == Err::<(), GraphError>(GraphError::OutOfBounds(input.circle_index)) && after == before
    } else if g[u][slot] == d {
        r == Err::<(), GraphError>(GraphError::AlreadyConnected) && after == before
    } else if reaches(g, d as int, u) {
        r == Err::<(), GraphError>(GraphError::WouldFormCycle) && after == before
    } else {
        &&& r == Ok::<(), GraphError>(())
        &&& after.edges() == g.update(u, g[u].update(slot, d))
        &&& forall|i: int|
            0 <= i < g.len() && i != u ==> #[trigger] after.effects()[i] == before.effects()[i]
        &&& after.effects()[u].same_but_inputs(&before.effects()[u])
    }
}

} // verus!
