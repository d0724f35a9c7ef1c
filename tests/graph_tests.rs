use waves::effects::{Add, Effect, EffectError, Gain, SineWave, Zero};
use waves::graph::{
    Edge, GraphAudioData, GraphError, NodeCircleIdentifier, NodeGraph, OUTPUT_INDEX, ZERO_INDEX,
};

fn slot(node: usize, index: usize) -> NodeCircleIdentifier {
    NodeCircleIdentifier::new(node, index, true)
}

fn out(node: usize) -> NodeCircleIdentifier {
    NodeCircleIdentifier::new(node, 0, false)
}

fn inputs(g: &NodeGraph, node: usize) -> Vec<usize> {
    let e = g.node(node).effect();
    let mut v = Vec::new();
    for i in 0..e.input_count() {
        v.push(e.get_input_at_index(i).ok().unwrap());
    }
    v
}

fn all_inputs(g: &NodeGraph) -> Vec<Vec<usize>> {
    (0..g.len()).map(|i| inputs(g, i)).collect()
}

#[test]
fn new_graph_feeds_zero_to_output() {
    let g = NodeGraph::new();
    assert_eq!(g.len(), 2);
    assert_eq!(g.node(ZERO_INDEX).effect().name(), "Zero");
    assert_eq!(g.node(OUTPUT_INDEX).effect().name(), "Output");
    assert_eq!(inputs(&g, OUTPUT_INDEX), vec![ZERO_INDEX]);
    assert!(g.node(ZERO_INDEX).is_connected_to_output());
    assert!(g.node(OUTPUT_INDEX).is_connected_to_output());
    assert_eq!(g.node(1).index(), 1);
}

#[test]
fn three_node_cycle_is_rejected() {
    // A -> B -> C: A feeds B, B feeds C.
    let mut g = NodeGraph::new();
    let a = g.add_node(Effect::Gain(Gain::new(0, ZERO_INDEX))).ok().unwrap();
    let b = g.add_node(Effect::Gain(Gain::new(0, a))).ok().unwrap();
    let c = g.add_node(Effect::Gain(Gain::new(0, ZERO_INDEX))).ok().unwrap();
    assert!(g.connect(slot(c, 0), out(b)).is_ok());
    let before = all_inputs(&g);
    // A's input from C would close A -> B -> C -> A.
    assert!(matches!(g.connect(slot(a, 0), out(c)), Err(GraphError::WouldFormCycle)));
    assert_eq!(all_inputs(&g), before);
}

#[test]
fn self_loop_is_rejected() {
    let mut g = NodeGraph::new();
    let a = g.add_node(Effect::Gain(Gain::new(0, ZERO_INDEX))).ok().unwrap();
    assert!(matches!(g.connect(slot(a, 0), out(a)), Err(GraphError::WouldFormCycle)));
    assert_eq!(inputs(&g, a), vec![ZERO_INDEX]);
}

#[test]
fn repeated_edge_is_a_no_op() {
    let mut g = NodeGraph::new();
    let a = g.add_node(Effect::Gain(Gain::new(0, ZERO_INDEX))).ok().unwrap();
    assert!(g.connect(slot(OUTPUT_INDEX, 0), out(a)).is_ok());
    let before = all_inputs(&g);
    assert!(matches!(
        g.connect(slot(OUTPUT_INDEX, 0), out(a)),
        Err(GraphError::AlreadyConnected)
    ));
    assert_eq!(all_inputs(&g), before);
}

#[test]
fn bad_indices_are_reported() {
    let mut g = NodeGraph::new();
    assert!(matches!(g.connect(slot(9, 0), out(0)), Err(GraphError::NoSuchNode(9))));
    assert!(matches!(g.connect(slot(1, 0), out(7)), Err(GraphError::NoSuchNode(7))));
    assert!(matches!(g.connect(slot(1, 3), out(0)), Err(GraphError::OutOfBounds(3))));
    assert!(matches!(g.connect(slot(0, 0), out(1)), Err(GraphError::OutOfBounds(0))));
    assert!(matches!(
        g.add_node(Effect::Gain(Gain::new(0, 5))),
        Err(GraphError::NoSuchNode(5))
    ));
    assert_eq!(g.len(), 2);
}

#[test]
fn zero_gain_output_chain_is_connected() {
    let mut g = NodeGraph::new();
    let gain = g.add_node(Effect::Gain(Gain::new(0xC140_0000, ZERO_INDEX))).ok().unwrap();
    assert!(!g.node(gain).is_connected_to_output());
    assert!(g.connect(slot(OUTPUT_INDEX, 0), out(gain)).is_ok());
    assert!(g.node(gain).is_connected_to_output());
    assert!(g.node(ZERO_INDEX).is_connected_to_output());
    assert_eq!(inputs(&g, OUTPUT_INDEX), vec![gain]);
    assert_eq!(inputs(&g, gain), vec![ZERO_INDEX]);
}

#[test]
fn connection_status_follows_edges() {
    let mut g = NodeGraph::new_non_trivial();
    assert_eq!(g.len(), 7);
    for i in 2..7 {
        assert!(!g.node(i).is_connected_to_output());
    }
    // Add(4th sine, 1st gain) -> Output
    let add = 6;
    assert!(g.connect(slot(add, 0), out(5)).is_ok());
    assert!(g.connect(slot(add, 1), out(2)).is_ok());
    assert!(g.connect(slot(OUTPUT_INDEX, 0), out(add)).is_ok());
    let connected: Vec<bool> = (0..7).map(|i| g.node(i).is_connected_to_output()).collect();
    assert_eq!(connected, vec![true, true, true, false, false, true, true]);
    // Unhooking the adder leaves only the zero node upstream of the output.
    assert!(g.connect(slot(OUTPUT_INDEX, 0), out(ZERO_INDEX)).is_ok());
    let connected: Vec<bool> = (0..7).map(|i| g.node(i).is_connected_to_output()).collect();
    assert_eq!(connected, vec![true, true, false, false, false, false, false]);
}

#[test]
fn diamond_is_not_a_cycle() {
    let mut g = NodeGraph::new();
    let src = g.add_node(Effect::SineWave(SineWave::new(0x3F80_0000, 0x43DC_0000, 0))).ok().unwrap();
    let a = g.add_node(Effect::Gain(Gain::new(0, src))).ok().unwrap();
    let b = g.add_node(Effect::Gain(Gain::new(0, src))).ok().unwrap();
    let sum = g.add_node(Effect::Add(Add::new(a, ZERO_INDEX))).ok().unwrap();
    assert!(g.connect(slot(sum, 1), out(b)).is_ok());
    assert_eq!(inputs(&g, sum), vec![a, b]);
    assert!(matches!(g.connect(slot(src, 0), out(sum)), Err(GraphError::OutOfBounds(0))));
    assert!(matches!(g.connect(slot(a, 0), out(sum)), Err(GraphError::WouldFormCycle)));
}

#[test]
fn effect_slots_and_names() {
    let mut e = Effect::Add(Add::new(3, 4));
    assert_eq!(e.input_count(), 2);
    assert_eq!(e.output_count(), 1);
    assert!(e.set_input_at_index(1, 9).is_ok());
    assert_eq!(e.get_input_at_index(1).ok(), Some(9));
    assert_eq!(e.get_input_at_index(0).ok(), Some(3));
    assert!(matches!(e.get_input_at_index(2), Err(EffectError::OutOfBounds(2))));
    assert!(matches!(e.set_input_at_index(2, 0), Err(EffectError::OutOfBounds(2))));
    assert_eq!(e.name(), "Add");
    let z = Effect::Zero(Zero);
    assert_eq!(z.input_count(), 0);
    assert!(matches!(z.get_input_at_index(0), Err(EffectError::OutOfBounds(0))));
    let o = Effect::Output(waves::effects::Output::new(0));
    assert_eq!(o.output_count(), 0);
    assert_eq!(o.input_count(), 1);
    assert_eq!(Effect::SineWave(SineWave::new(0, 0, 0)).name(), "Sine Wave");
    assert_eq!(Effect::Gain(Gain::new(0, 0)).name(), "Gain");
}

#[test]
fn gain_and_sine_parameters() {
    let mut g = Gain::new(0x4140_0000, 2);
    assert_eq!(g.gain(), 0x4140_0000);
    g.set_gain(0xC190_0000);
    assert_eq!(g.gain(), (-18.0f32).to_bits());
    let mut s = SineWave::new(1.0f32.to_bits(), 440.0f32.to_bits(), 0);
    assert_eq!(f32::from_bits(s.frequency()), 440.0);
    s.set_params(0.5f32.to_bits(), 480.0f32.to_bits(), 1.0f32.to_bits());
    assert_eq!(f32::from_bits(s.amplitude()), 0.5);
    assert_eq!(f32::from_bits(s.frequency()), 480.0);
    assert_eq!(f32::from_bits(s.phase()), 1.0);
}

#[test]
fn small_value_types() {
    let a = NodeCircleIdentifier::new(2, 1, true);
    let b = NodeCircleIdentifier::new(3, 0, false);
    let e = Edge::new(a, b);
    assert_eq!(e.input, a);
    assert_eq!(e.output.node_index, 3);
    assert!(!e.output.circle_is_input);
    let d = GraphAudioData::new(480, 48000);
    assert_eq!(d.current_sample, 480);
    assert_eq!(d.sample_rate, 48000);
}

fn has_cycle(g: &NodeGraph) -> bool {
    // colour: 0 unvisited, 1 on stack, 2 done
    fn visit(g: &Vec<Vec<usize>>, n: usize, colour: &mut Vec<u8>) -> bool {
        colour[n] = 1;
        for &m in &g[n] {
            if colour[m] == 1 || (colour[m] == 0 && visit(g, m, colour)) {
                return true;
            }
        }
        colour[n] = 2;
        false
    }
    let edges = all_inputs(g);
    let mut colour = vec![0u8; edges.len()];
    (0..edges.len()).any(|n| colour[n] == 0 && visit(&edges, n, &mut colour))
}

#[test]
fn every_run_of_connects_stays_acyclic() {
    let mut g = NodeGraph::new_non_trivial();
    let mut accepted = 0;
    let mut refused_cycles = 0;
    for round in 0..3 {
        for u in 0..g.len() {
            for d in 0..g.len() {
                let slot_count = g.node(u).effect().input_count();
                for s in 0..slot_count {
                    let before = all_inputs(&g);
                    match g.connect(slot(u, s), out((d + round) % g.len())) {
                        Ok(()) => accepted += 1,
                        Err(GraphError::WouldFormCycle) => {
                            refused_cycles += 1;
                            assert_eq!(all_inputs(&g), before);
                        }
                        Err(_) => assert_eq!(all_inputs(&g), before),
                    }
                    assert!(!has_cycle(&g));
                    for i in 0..g.len() {
                        assert_eq!(g.is_connected(i), g.node(i).is_connected_to_output());
                    }
                }
            }
        }
    }
    assert!(accepted > 0);
    assert!(refused_cycles > 0);
}

#[test]
fn parameters_are_set_through_the_graph() {
    let mut g = NodeGraph::new_non_trivial();
    assert!(g.set_gain(2, (-18.0f32).to_bits()).is_ok());
    match g.node(2).effect() {
        Effect::Gain(gain) => assert_eq!(f32::from_bits(gain.gain()), -18.0),
        _ => panic!("node 2 is a gain"),
    }
    assert!(matches!(g.set_gain(4, 0), Err(GraphError::WrongKind(4))));
    assert!(matches!(g.set_gain(40, 0), Err(GraphError::NoSuchNode(40))));
    assert!(g.set_sine_params(4, 1.0f32.to_bits(), 220.0f32.to_bits(), 0).is_ok());
    match g.node(4).effect() {
        Effect::SineWave(w) => assert_eq!(f32::from_bits(w.frequency()), 220.0),
        _ => panic!("node 4 is an oscillator"),
    }
    assert!(matches!(g.set_sine_params(2, 0, 0, 0), Err(GraphError::WrongKind(2))));
}
