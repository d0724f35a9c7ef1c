use vstd::prelude::*;

use crate::sample::SILENCE;
use crate::track::Track;

verus! {

/// The input slot asked for does not exist on the node.
pub enum EffectError {
    OutOfBounds(usize),
}

/// One of the two channels of a stereo track.
#[derive(Clone, Copy, PartialEq, Eq, Structural, Debug)]
pub enum Channel {
    Left,
    Right,
}

/// A source that writes silence to every slot of the buffer.
pub struct Zero;

impl Zero {
    /// Fills the whole buffer with silence, whatever the start sample and channel count.
    pub fn apply(&self, output: &mut Vec<u32>, start_sample: usize, channels: usize)
        ensures
            final(output)@.len() == old(output)@.len(),
            forall|i: int| 0 <= i < final(output)@.len() ==> final(output)@[i] == SILENCE,
    {
        let len = output.len();
        let mut j: usize = 0;
        while j < len
            invariant
                output@.len() == len,
                j <= len,
                forall|i: int| 0 <= i < j ==> output@[i] == SILENCE,
            decreases len - j,
        {
            output[j] = SILENCE;
            j = j + 1;
        }
    }
}

/// An oscillator `a * sin(2 pi f t - phase)`. The three parameters are held as the
/// bit patterns of single-precision values: amplitude, frequency in hertz, phase in radians.
pub struct SineWave {
    amplitude: u32,
    frequency: u32,
    phase: u32,
}

impl SineWave {
    pub closed spec fn params(&self) -> (u32, u32, u32) {
        (self.amplitude, self.frequency, self.phase)
    }

    pub fn new(amplitude: u32, frequency: u32, phase: u32) -> (r: Self)
        ensures
            r.params() == (amplitude, frequency, phase),
    {
        SineWave { amplitude, frequency, phase }
    }

    pub fn amplitude(&self) -> (r: u32)
        ensures
            r == self.params().0,
    {
        self.amplitude
    }

    pub fn frequency(&self) -> (r: u32)
        ensures
            r == self.params().1,
    {
        self.frequency
    }

    pub fn phase(&self) -> (r: u32)
        ensures
            r == self.params().2,
    {
        self.phase
    }

    pub fn set_params(&mut self, amplitude: u32, frequency: u32, phase: u32)
        ensures
            final(self).params() == (amplitude, frequency, phase),
    {
        self.amplitude = amplitude;
        self.frequency = frequency;
        self.phase = phase;
    }
}

/// Scales its input by a gain in decibels, held as the bit pattern of a
/// single-precision value.
pub struct Gain {
    gain: u32,
    input: usize,
}

impl Gain {
    pub closed spec fn gain_bits(&self) -> u32 {
        self.gain
    }

    pub closed spec fn input_node(&self) -> usize {
        self.input
    }

    pub fn new(gain: u32, input: usize) -> (r: Self)
        ensures
            r.gain_bits() == gain,
            r.input_node() == input,
    {
        Gain { gain, input }
    }

    pub fn gain(&self) -> (r: u32)
        ensures
            r == self.gain_bits(),
    {
        self.gain
    }

    pub fn set_gain(&mut self, gain: u32)
        ensures
            final(self).gain_bits() == gain,
            final(self).input_node() == old(self).input_node(),
    {
        self.gain = gain;
    }
}

/// Sums its two inputs sample by sample.
pub struct Add {
    input_0: usize,
    input_1: usize,
}

impl Add {
    pub closed spec fn input_nodes(&self) -> (usize, usize) {
        (self.input_0, self.input_1)
    }

    pub fn new(input_0: usize, input_1: usize) -> (r: Self)
        ensures
            r.input_nodes() == (input_0, input_1),
    {
        Add { input_0, input_1 }
    }
}

/// The terminal of a graph: passes its single input through.
pub struct Output {
    input: usize,
}

impl Output {
    pub closed spec fn input_node(&self) -> usize {
        self.input
    }

    pub fn new(input: usize) -> (r: Self)
        ensures
            r.input_node() == input,
    {
        Output { input }
    }
}

/// A node of the effect graph. Its input slots hold the indices of the nodes
/// whose output feeds it.
pub enum Effect {
    Zero(Zero),
    SineWave(SineWave),
    Gain(Gain),
    Add(Add),
    Track(Track),
    Output(Output),
}

impl Effect {
    /// The nodes held in the input slots, in slot order.
    pub open spec fn inputs(&self) -> Seq<usize> {
        match self {
            Effect::Gain(g) => seq![g.input_node()],
            Effect::Add(a) => seq![a.input_nodes().0, a.input_nodes().1],
            Effect::Output(o) => seq![o.input_node()],
            _ => seq![],
        }
    }

    /// Both effects are of one kind with the same parameters; their slots may differ.
    pub open spec fn same_but_inputs(&self, other: &Effect) -> bool {
        match (self, other) {
            (Effect::Zero(_), Effect::Zero(_)) => true,
            (Effect::SineWave(a), Effect::SineWave(b)) => a.params() == b.params(),
            (Effect::Gain(a), Effect::Gain(b)) => a.gain_bits() == b.gain_bits(),
            (Effect::Add(_), Effect::Add(_)) => true,
            (Effect::Track(a), Effect::Track(b)) => a == b,
            (Effect::Output(_), Effect::Output(_)) => true,
            _ => false,
        }
    }

    pub open spec fn spec_output_count(&self) -> usize {
        match self {
            Effect::Output(_) => 0,
            _ => 1,
        }
    }

    pub fn input_count(&self) -> (r: usize)
        ensures
            r == self.inputs().len(),
    {
        match self {
            Effect::Gain(_) => 1,
            Effect::Add(_) => 2,
            Effect::Output(_) => 1,
            _ => 0,
        }
    }

    pub fn output_count(&self) -> (r: usize)
        ensures
            r == self.spec_output_count(),
            r <= 1,
    {
        match self {
            Effect::Output(_) => 0,
            _ => 1,
        }
    }

    /// Points input slot `index` at node `input`.
    pub fn set_input_at_index(&mut self, index: usize, input: usize) -> (r: Result<(), EffectError>)
        ensures
            final(self).same_but_inputs(old(self)),
            index < old(self).inputs().len() ==> r is Ok && final(self).inputs() == old(
                self,
            ).inputs().update(index as int, input),
            index >= old(self).inputs().len() ==> r == Err::<(), EffectError>(
                EffectError::OutOfBounds(index),
            ) && final(self).inputs() == old(self).inputs(),
    {
        match self {
            Effect::Gain(g) => {
                if index == 0 {
                    g.input = input;
                    return Ok(());
                }
            },
            Effect::Add(a) => {
                if index == 0 {
                    a.input_0 = input;
                    return Ok(());
                } else if index == 1 {
                    a.input_1 = input;
                    return Ok(());
                }
            },
            Effect::Output(o) => {
                if index == 0 {
                    o.input = input;
                    return Ok(());
                }
            },
            _ => {},
        }
        Err(EffectError::OutOfBounds(index))
    }

    /// The node held in input slot `index`.
    pub fn get_input_at_index(&self, index: usize) -> (r: Result<usize, EffectError>)
        ensures
            index < self.inputs().len() ==> r == Ok::<usize, EffectError>(
                self.inputs()[index as int],
            ),
            index >= self.inputs().len() ==> r == Err::<usize, EffectError>(
                EffectError::OutOfBounds(index),
            ),
    {
        match self {
            Effect::Gain(g) => {
                if index == 0 {
                    return Ok(g.input);
                }
            },
            Effect::Add(a) => {
                if index == 0 {
                    return Ok(a.input_0);
                } else if index == 1 {
                    return Ok(a.input_1);
                }
            },
            Effect::Output(o) => {
                if index == 0 {
                    return Ok(o.input);
                }
            },
            _ => {},
        }
        Err(EffectError::OutOfBounds(index))
    }

    /// A stable label of the node's kind.
    pub fn name(&self) -> (r: &'static str)
        ensures
            r@ == effect_name(self),
    {
        proof {
            reveal_strlit("Zero");
            reveal_strlit("Sine Wave");
            reveal_strlit("Gain");
            reveal_strlit("Add");
            reveal_strlit("Track");
            reveal_strlit("Output");
        }
        match self {
            Effect::Zero(_) => "Zero",
            Effect::SineWave(_) => "Sine Wave",
            Effect::Gain(_) => "Gain",
            Effect::Add(_) => "Add",
            Effect::Track(_) => "Track",
            Effect::Output(_) => "Output",
        }
    }
}

pub open spec fn effect_name(e: &Effect) -> Seq<char> {
    match e {
        Effect::Zero(_) => seq!['Z', 'e', 'r', 'o'],
        Effect::SineWave(_) => seq!['S', 'i', 'n', 'e', ' ', 'W', 'a', 'v', 'e'],
        Effect::Gain(_) => seq!['G', 'a', 'i', 'n'],
        Effect::Add(_) => seq!['A', 'd', 'd'],
        Effect::Track(_) => seq!['T', 'r', 'a', 'c', 'k'],
        Effect::Output(_) => seq!['O', 'u', 't', 'p', 'u', 't'],
    }
}

} // verus!
