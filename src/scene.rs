//! Scene descriptions and their expansion into a list of effects.
use vstd::prelude::*;

use crate::effects::{Effect, Gain, Zero};
use crate::track::Track;

verus! {

/// One entry of a scene. A `Gain` names the entry that feeds it by its position.
#[derive(Clone, Debug)]
pub enum NodeType {
    Zero,
    Track { file_path: String },
    /// The gain in decibels as the bit pattern of a single-precision value.
    Gain { db: u32, input: usize },
}

impl NodeType {
    fn is_gain(&self) -> (r: bool)
        ensures
            r == self is Gain,
    {
        match self {
            NodeType::Gain { .. } => true,
            _ => false,
        }
    }
}

/// Why a scene could not be expanded.
#[derive(Clone, Copy, PartialEq, Eq, Structural, Debug)]
pub enum SceneError {
    /// An entry named as an input, or the start, is past the scene's end.
    EntryOutOfRange(usize),
    /// Following inputs from the start does not end within as many steps as the
    /// scene has entries: the inputs run in a loop through this entry.
    InputLoop(usize),
    /// The chain ends at a track entry whose decoded track was not supplied.
    TrackNotLoaded(usize),
}

/// A list of effects with the index of the one to render.
pub struct EffectDAG {
    root_index: usize,
    nodes: Vec<Effect>,
}

impl EffectDAG {
    pub closed spec fn spec_root_index(&self) -> usize {
        self.root_index
    }

    pub closed spec fn spec_nodes(&self) -> Seq<Effect> {
        self.nodes@
    }

    pub fn new(root_index: usize, nodes: Vec<Effect>) -> (r: Self)
        ensures
            r.spec_root_index() == root_index,
            r.spec_nodes() == nodes@,
    {
        EffectDAG { root_index, nodes }
    }

    pub fn is_empty(&self) -> (r: bool)
        ensures
            r == (self.spec_nodes().len() == 0),
    {
        self.nodes.len() == 0
    }

    /// Appends an effect and returns its index.
    pub fn add_effect(&mut self, effect: Effect) -> (r: usize)
        requires
            old(self).spec_nodes().len() < usize::MAX,
        ensures
            r == old(self).spec_nodes().len(),
            final(self).spec_nodes() == old(self).spec_nodes().push(effect),
            final(self).spec_root_index() == old(self).spec_root_index(),
    {
        let r = self.nodes.len();
        self.nodes.push(effect);
        r
    }

    /// The effect to render, if the root index names one.
    pub fn root(&self) -> (r: Option<&Effect>)
        ensures
            self.spec_root_index() < self.spec_nodes().len() ==> r == Some(
                &self.spec_nodes()[self.spec_root_index() as int],
            ),
            self.spec_root_index() >= self.spec_nodes().len() ==> r is None,
    {
        if self.root_index < self.nodes.len() {
            Some(&self.nodes[self.root_index])
        } else {
            None
        }
    }

    pub fn root_index(&self) -> (r: usize)
        ensures
            r == self.spec_root_index(),
    {
        self.root_index
    }

    pub fn nodes(&self) -> (r: &[Effect])
        ensures
            r@ == self.spec_nodes(),
    {
        self.nodes.as_slice()
    }

    pub fn set_root_index(&mut self, root_index: usize)
        ensures
            final(self).spec_root_index() == root_index,
            final(self).spec_nodes() == old(self).spec_nodes(),
    {
        self.root_index = root_index;
    }
}

/// A stored graph: entries in order and the entry the output renders.
pub struct Scene {
    start_index: Option<usize>,
    nodes: Vec<NodeType>,
}

pub open spec fn gain_db(t: NodeType) -> u32 {
    match t {
        NodeType::Gain { db, .. } => db,
        _ => 0,
    }
}

/// The entry one step upstream of entry `i`: the input of a gain; any other entry,
/// and an entry past the end, stays where it is.
pub open spec fn next_entry(nodes: Seq<NodeType>, i: usize) -> usize {
    if i < nodes.len() {
        match nodes[i as int] {
            NodeType::Gain { input, .. } => input,
            _ => i,
        }
    } else {
        i
    }
}

/// The entry reached after `k` steps upstream from `i`.
pub open spec fn walk(nodes: Seq<NodeType>, i: usize, k: nat) -> usize
    decreases k,
{
    if k == 0 {
        i
    } else {
        walk(nodes, next_entry(nodes, i), (k - 1) as nat)
    }
}

/// How many gains lead from `i` to the source that ends its chain, searching at most
/// `fuel` steps.
pub open spec fn chain_length(nodes: Seq<NodeType>, i: usize, fuel: nat) -> Result<nat, SceneError>
    decreases fuel,
{
    if i >= nodes.len() {
        Err(SceneError::EntryOutOfRange(i))
    } else {
        match nodes[i as int] {
            NodeType::Gain { input, .. } => if fuel == 0 {
                Err(SceneError::InputLoop(i))
            } else {
                match chain_length(nodes, input, (fuel - 1) as nat) {
                    Ok(k) => Ok(k + 1),
                    Err(e) => Err(e),
                }
            },
            _ => Ok(0),
        }
    }
}

pub open spec fn shifted(r: Result<nat, SceneError>, steps: nat) -> Result<nat, SceneError> {
    match r {
        Ok(k) => Ok(k + steps),
        Err(e) => Err(e),
    }
}

/// The decoded track supplied for entry `i`, if any.
pub open spec fn supplied(tracks: Seq<Option<Track>>, i: usize) -> Option<Track> {
    if i < tracks.len() {
        tracks[i as int]
    } else {
        None
    }
}

/// What expanding a scene gives. Without a start it is one `Zero`. Else the chain of
/// gains from the start is followed to its source: the source comes first, each gain
/// after the effect that feeds it, and the last effect, the start's, is the root.
pub open spec fn expansion(
    start: Option<usize>,
    nodes: Seq<NodeType>,
    tracks: Seq<Option<Track>>,
    r: Result<EffectDAG, SceneError>,
) -> bool {
    match start {
        None => r matches Ok(dag) && dag.spec_root_index() == 0 && dag.spec_nodes() == seq![
            Effect::Zero(Zero),
        ],
        Some(s) => match chain_length(nodes, s, nodes.len()) {
            Err(e) => r == Err::<EffectDAG, SceneError>(e),
            Ok(k) => {
                let end = walk(nodes, s, k);
                if nodes[end as int] is Track && supplied(tracks, end) is None {
                    r == Err::<EffectDAG, SceneError>(SceneError::TrackNotLoaded(end))
                } else {
                    r matches Ok(dag) && dag.spec_root_index() == k && dag.spec_nodes().len() == k
                        + 1 && (if nodes[end as int] is Track {
                        dag.spec_nodes()[0] == Effect::Track(supplied(tracks, end).unwrap())
                    } else {
                        dag.spec_nodes()[0] == Effect::Zero(Zero)
                    }) && forall|j: int|
                        1 <= j <= k ==> (#[trigger] dag.spec_nodes()[j] matches Effect::Gain(g)
                            && g.gain_bits() == gain_db(nodes[walk(nodes, s, (k - j) as nat) as int])
                            && g.input_node() == j - 1)
                }
            },
        },
    }
}

proof fn lemma_walk_last_step(nodes: Seq<NodeType>, i: usize, k: nat)
    ensures
        walk(nodes, i, k + 1) == next_entry(nodes, walk(nodes, i, k)),
    decreases k,
{
    reveal_with_fuel(walk, 2);
    if k > 0 {
        lemma_walk_last_step(nodes, next_entry(nodes, i), (k - 1) as nat);
        assert(walk(nodes, i, k + 1) == walk(nodes, next_entry(nodes, i), k));
        assert(walk(nodes, i, k) == walk(nodes, next_entry(nodes, i), (k - 1) as nat));
    }
}

impl Scene {
    pub closed spec fn spec_start_index(&self) -> Option<usize> {
        self.start_index
    }

    pub closed spec fn spec_nodes(&self) -> Seq<NodeType> {
        self.nodes@
    }

    pub fn new(start_index: Option<usize>, nodes: Vec<NodeType>) -> (r: Self)
        ensures
            r.spec_start_index() == start_index,
            r.spec_nodes() == nodes@,
    {
        Scene { start_index, nodes }
    }

    /// A scene of one track, which the output renders.
    pub fn from_track(path: String) -> (r: Self)
        ensures
            r.spec_start_index() == Some(0usize),
            r.spec_nodes().len() == 1,
            r.spec_nodes()[0] matches NodeType::Track { file_path } && file_path == path,
    {
        let mut nodes: Vec<NodeType> = Vec::new();
        nodes.push(NodeType::Track { file_path: path });
        Scene { start_index: Some(0), nodes }
    }

    pub fn start_index(&self) -> (r: Option<usize>)
        ensures
            r == self.spec_start_index(),
    {
        self.start_index
    }

    pub fn nodes(&self) -> (r: &[NodeType])
        ensures
            r@ == self.spec_nodes(),
    {
        self.nodes.as_slice()
    }

    /// Expands the scene from its start. `tracks[i]` holds the decoded track of
    /// entry `i` where that entry is a track; an entry past its end has none.
    pub fn generate_effect_dag(&self, tracks: Vec<Option<Track>>) -> (r: Result<EffectDAG, SceneError>)
        ensures
            expansion(self.spec_start_index(), self.spec_nodes(), tracks@, r),
    {
        let s = match self.start_index {
            None => {
                let mut nodes: Vec<Effect> = Vec::new();
                nodes.push(Effect::Zero(Zero));
                let dag = EffectDAG::new(0, nodes);
                assert(dag.spec_nodes() =~= seq![Effect::Zero(Zero)]);
                return Ok(dag);
            },
            Some(s) => s,
        };
        let ghost nodes = self.nodes@;
        let len = self.nodes.len();
        let mut i: usize = s;
        let mut steps: usize = 0;
        let mut gains: Vec<u32> = Vec::new();
        while i < len && self.nodes[i].is_gain()
            invariant
                nodes == self.nodes@,
                self.start_index == Some(s),
                len == nodes.len(),
                steps <= len,
                chain_length(nodes, s, len as nat) == shifted(
                    chain_length(nodes, i, (len - steps) as nat),
                    steps as nat,
                ),
                walk(nodes, s, steps as nat) == i,
                gains@.len() == steps,
                forall|j: int|
                    0 <= j < steps ==> #[trigger] gains@[j] == gain_db(
                        nodes[walk(nodes, s, j as nat) as int],
                    ),
            decreases len - steps,
        {
            if steps == len {
                assert(chain_length(nodes, i, 0) == Err::<nat, SceneError>(SceneError::InputLoop(i)));
                assert(chain_length(nodes, s, nodes.len()) == Err::<nat, SceneError>(
                    SceneError::InputLoop(i),
                ));
                return Err(SceneError::InputLoop(i));
            }
            let (db, input) = match &self.nodes[i] {
                NodeType::Gain { db, input } => (*db, *input),
                _ => {
                    assert(false);
                    (0, 0)
                },
            };
            proof {
                lemma_walk_last_step(nodes, s, steps as nat);
            }
            gains.push(db);
            i = input;
            steps = steps + 1;
        }
        if i >= len {
            return Err(SceneError::EntryOutOfRange(i));
        }
        assert(chain_length(nodes, i, (len - steps) as nat) == Ok::<nat, SceneError>(0));
        let ghost end = i;
        let first = match &self.nodes[i] {
            NodeType::Zero => Effect::Zero(Zero),
            NodeType::Track { .. } => {
                if i >= tracks.len() {
                    return Err(SceneError::TrackNotLoaded(i));
                }
                let mut tracks = tracks;
                match tracks.remove(i) {
                    Some(t) => Effect::Track(t),
                    None => {
                        return Err(SceneError::TrackNotLoaded(i));
                    },
                }
            },
            NodeType::Gain { .. } => {
                assert(false);
                Effect::Zero(Zero)
            },
        };
        let ghost first_g = first;
        let mut dag_nodes: Vec<Effect> = Vec::new();
        dag_nodes.push(first);
        let mut q: usize = 0;
        while q < steps
            invariant
                q <= steps,
                steps <= len,
                gains@.len() == steps,
                dag_nodes@.len() == q + 1,
                forall|j: int|
                    1 <= j <= q ==> (#[trigger] dag_nodes@[j] matches Effect::Gain(g)
                        && g.gain_bits() == gains@[steps - j] && g.input_node() == j - 1),
                dag_nodes@[0] == first_g,
            decreases steps - q,
        {
            dag_nodes.push(Effect::Gain(Gain::new(gains[steps - 1 - q], q)));
            q = q + 1;
        }
        let dag = EffectDAG::new(steps, dag_nodes);
        assert forall|j: int| 1 <= j <= steps implies (#[trigger] dag.spec_nodes()[j] matches Effect::Gain(
            g,
        ) && g.gain_bits() == gain_db(nodes[walk(nodes, s, (steps - j) as nat) as int])
            && g.input_node() == j - 1) by {
            assert(gains@[steps - j] == gain_db(nodes[walk(nodes, s, (steps - j) as nat) as int]));
        }
        Ok(dag)
    }
}

} // verus!
