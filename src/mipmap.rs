use vstd::prelude::*;

use crate::sample::{larger, larger_of, louder, louder_of, smaller, smaller_of, SILENCE};

verus! {

/// Levels are halved while the next one would still hold more than this many samples.
pub const LEVEL_FLOOR: usize = 1000;

/// Which summary a pyramid keeps of each pair of samples.
#[derive(Clone, Copy, PartialEq, Eq, Structural, Debug)]
pub enum Reduction {
    /// The sample of larger absolute value.
    Louder,
    /// The larger sample.
    Larger,
    /// The smaller sample.
    Smaller,
}

pub open spec fn pick(kind: Reduction, x: u32, y: u32) -> u32 {
    match kind {
        Reduction::Louder => louder_of(x, y),
        Reduction::Larger => larger_of(x, y),
        Reduction::Smaller => smaller_of(x, y),
    }
}

/// Each pair `(s[2i], s[2i+1])` reduced to one sample; an odd last sample is kept.
pub open spec fn halve(s: Seq<u32>, kind: Reduction) -> Seq<u32> {
    Seq::new(
        ((s.len() + 1) / 2) as nat,
        |i: int|
            if 2 * i + 1 < s.len() {
                pick(kind, s[2 * i], s[2 * i + 1])
            } else {
                s[2 * i]
            },
    )
}

/// Level `k` of the pyramid over `data`: `data` halved `k` times.
pub open spec fn level(data: Seq<u32>, kind: Reduction, k: nat) -> Seq<u32>
    decreases k,
{
    if k == 0 {
        data
    } else {
        halve(level(data, kind, (k - 1) as nat), kind)
    }
}

/// How many halvings follow while the counter that starts at half the data's
/// length stays above the floor.
pub open spec fn halvings(size: nat) -> nat
    decreases size,
{
    if size > LEVEL_FLOOR {
        1 + halvings(size / 2)
    } else {
        0
    }
}

/// The number of levels of a pyramid over `len` samples.
pub open spec fn pyramid_height(len: nat) -> nat {
    1 + halvings(len / 2)
}

pub open spec fn is_power_of_two(x: nat) -> bool
    decreases x,
{
    if x <= 1 {
        x == 1
    } else {
        x % 2 == 0 && is_power_of_two(x / 2)
    }
}

pub open spec fn log2(x: nat) -> nat
    decreases x,
{
    if x <= 1 {
        0
    } else {
        1 + log2(x / 2)
    }
}

/// The sample at `i`, or silence where `s` holds none.
pub open spec fn entry_or_silence(s: Seq<u32>, i: int) -> u32 {
    if 0 <= i < s.len() {
        s[i]
    } else {
        SILENCE
    }
}

/// A window of `width` samples of `s` from `start`, silent past its end.
pub open spec fn window(s: Seq<u32>, start: int, width: nat) -> Seq<u32> {
    Seq::new(width, |i: int| entry_or_silence(s, start + i))
}

/// Multi-resolution summaries of one channel: three pyramids of halving levels that
/// keep the louder, the larger and the smaller sample of each pair.
pub struct MipMapChannel {
    pyramid_data: Vec<Vec<u32>>,
    max_pyramid: Vec<Vec<u32>>,
    min_pyramid: Vec<Vec<u32>>,
    cutoff_index: usize,
}

/// Why a window could not be read from a pyramid.
pub enum PlotDataError {
    StepNotPowerOfTwo(usize),
    StepBeyondPyramid(usize),
}

/// A request for one window of plot data, and the place its answer is written.
/// `data` holds two rows of equal length: one line, or the minimum and maximum lines.
pub struct SamplePlotData {
    pub is_min_max: bool,
    pub start_sample: usize,
    pub step: usize,
    pub data: Vec<Vec<u32>>,
}

impl SamplePlotData {
    pub open spec fn wf(&self) -> bool {
        self.data@.len() == 2 && self.data@[1]@.len() == self.data@[0]@.len()
    }

    pub open spec fn width(&self) -> nat {
        self.data@[0]@.len()
    }

    pub fn new(step: usize, start_sample: usize, data_width: usize) -> (r: Self)
        ensures
            r.wf(),
            r.is_min_max == false,
            r.step == step,
            r.start_sample == start_sample,
            r.data@[0]@ == Seq::new(data_width as nat, |i: int| SILENCE),
            r.data@[1]@ == Seq::new(data_width as nat, |i: int| SILENCE),
    {
        let row: Vec<u32> = vec![SILENCE; data_width];
        let data = vec![row.clone(), row];
        assert(data@[0]@ =~= Seq::new(data_width as nat, |i: int| SILENCE));
        assert(data@[1]@ =~= Seq::new(data_width as nat, |i: int| SILENCE));
        SamplePlotData { is_min_max: false, start_sample, step, data }
    }
}

fn copy_samples(data: &Vec<u32>) -> (r: Vec<u32>)
    ensures
        r@ == data@,
{
    let mut r: Vec<u32> = Vec::with_capacity(data.len());
    let mut i: usize = 0;
    while i < data.len()
        invariant
            i <= data@.len(),
            r@ == data@.subrange(0, i as int),
        decreases data@.len() - i,
    {
        r.push(data[i]);
        i = i + 1;
    }
    assert(r@ =~= data@);
    r
}

impl MipMapChannel {
    pub closed spec fn pyramid(&self, kind: Reduction) -> Seq<Seq<u32>> {
        let p = match kind {
            Reduction::Louder => self.pyramid_data@,
            Reduction::Larger => self.max_pyramid@,
            Reduction::Smaller => self.min_pyramid@,
        };
        p.map_values(|v: Vec<u32>| v@)
    }

    /// The channel's full-resolution samples.
    pub closed spec fn samples(&self) -> Seq<u32> {
        self.pyramid_data@[0]@
    }

    /// The first level at which minimum and maximum lines replace the louder line.
    pub closed spec fn cutoff(&self) -> usize {
        self.cutoff_index
    }

    pub closed spec fn height(&self) -> nat {
        self.pyramid_data@.len()
    }

    /// Every level of every pyramid is the samples halved as often as its depth.
    pub closed spec fn wf(&self) -> bool {
        &&& self.pyramid_data@.len() >= 1
        &&& self.height() == pyramid_height(self.samples().len())
        &&& forall|kind: Reduction| #[trigger] self.pyramid(kind).len() == self.height()
        &&& forall|kind: Reduction, k: int|
            0 <= k < self.height() ==> #[trigger] self.pyramid(kind)[k] == level(
                self.samples(),
                kind,
                k as nat,
            )
    }

    fn resample_data_with_comparison(data: &Vec<u32>, kind: Reduction) -> (r: Vec<u32>)
        ensures
            r@ == halve(data@, kind),
    {
        let len = data.len();
        let half = len / 2 + len % 2;
        let mut r: Vec<u32> = Vec::with_capacity(half);
        let mut j: usize = 0;
        while j < half
            invariant
                len == data@.len(),
                half == (len + 1) / 2,
                j <= half,
                r@.len() == j,
                forall|k: int| 0 <= k < r@.len() ==> r@[k] == halve(data@, kind)[k],
            decreases half - j,
        {
            let i = 2 * j;
            let v = if i + 1 < len {
                match kind {
                    Reduction::Louder => louder(data[i], data[i + 1]),
                    Reduction::Larger => larger(data[i], data[i + 1]),
                    Reduction::Smaller => smaller(data[i], data[i + 1]),
                }
            } else {
                data[i]
            };
            r.push(v);
            j = j + 1;
        }
        assert(r@ =~= halve(data@, kind));
        r
    }

    /// Builds the three pyramids over `data`, halving while the next level would
    /// hold more than `LEVEL_FLOOR` samples.
    pub fn new(data: Vec<u32>, cutoff_index: usize) -> (r: Self)
        ensures
            r.wf(),
            r.samples() == data@,
            r.cutoff() == cutoff_index,
            r.height() == pyramid_height(data@.len()),
    {
        let ghost d = data@;
        let mut size: usize = data.len() / 2;
        let mut pyramid_data: Vec<Vec<u32>> = Vec::new();
        let mut max_pyramid: Vec<Vec<u32>> = Vec::new();
        let mut min_pyramid: Vec<Vec<u32>> = Vec::new();
        max_pyramid.push(copy_samples(&data));
        min_pyramid.push(copy_samples(&data));
        pyramid_data.push(data);
        let mut i: usize = 0;
        while size > LEVEL_FLOOR
            invariant
                pyramid_data@.len() == i + 1,
                max_pyramid@.len() == i + 1,
                min_pyramid@.len() == i + 1,
                i + halvings(size as nat) == halvings(d.len() / 2),
                i + size <= d.len() / 2,
                d.len() <= usize::MAX,
                forall|k: int|
                    0 <= k <= i ==> #[trigger] pyramid_data@[k]@ == level(
                        d,
                        Reduction::Louder,
                        k as nat,
                    ),
                forall|k: int|
                    0 <= k <= i ==> #[trigger] max_pyramid@[k]@ == level(
                        d,
                        Reduction::Larger,
                        k as nat,
                    ),
                forall|k: int|
                    0 <= k <= i ==> #[trigger] min_pyramid@[k]@ == level(
                        d,
                        Reduction::Smaller,
                        k as nat,
                    ),
            decreases size,
        {
            let normal = MipMapChannel::resample_data_with_comparison(
                &pyramid_data[i],
                Reduction::Louder,
            );
            pyramid_data.push(normal);
            let max = MipMapChannel::resample_data_with_comparison(
                &max_pyramid[i],
                Reduction::Larger,
            );
            max_pyramid.push(max);
            let min = MipMapChannel::resample_data_with_comparison(
                &min_pyramid[i],
                Reduction::Smaller,
            );
            min_pyramid.push(min);
            i = i + 1;
            size = size / 2;
        }
        let r = MipMapChannel { pyramid_data, max_pyramid, min_pyramid, cutoff_index };
        assert forall|kind: Reduction, k: int| 0 <= k < r.height() implies #[trigger] r.pyramid(
            kind,
        )[k] == level(r.samples(), kind, k as nat) by {
            match kind {
                Reduction::Louder => {},
                Reduction::Larger => {},
                Reduction::Smaller => {},
            }
        }
        r
    }

    /// The number of levels of each pyramid.
    pub fn pyramid_height(&self) -> (r: usize)
        ensures
            r == self.height(),
    {
        self.pyramid_data.len()
    }

    pub fn cutoff_index(&self) -> (r: usize)
        ensures
            r == self.cutoff(),
    {
        self.cutoff_index
    }

    /// The channel's full-resolution samples.
    pub fn get_full_data(&self) -> (r: &[u32])
        requires
            self.wf(),
        ensures
            r@ == self.samples(),
    {
        self.pyramid_data[0].as_slice()
    }

    /// Fills `sample_plot_data` with the window of `data_width` entries that starts at
    /// `start_sample / step` on level `log2(step)`: one louder line below the cutoff
    /// level, minimum and maximum lines from it on, silent past the level's end.
    /// Returns whether the two lines were written. A step that is not a power of two,
    /// or whose level the pyramids do not reach, is refused and nothing is written.
    pub fn get_presampled_data_from_step_and_start(
        &self,
        sample_plot_data: &mut SamplePlotData,
    ) -> (r: Result<bool, PlotDataError>)
        requires
            self.wf(),
            old(sample_plot_data).wf(),
        ensures
            presampled_outcome(self, *old(sample_plot_data), *final(sample_plot_data), r),
    {
        let step = sample_plot_data.step;
        let mut s: usize = step;
        let mut n: usize = 0;
        while s > 1 && s % 2 == 0
            invariant
                s <= step,
                is_power_of_two(step as nat) == is_power_of_two(s as nat),
                log2(step as nat) == n + log2(s as nat),
                n + s <= step,
            decreases s,
        {
            proof {
                lemma_halve_power(s as nat);
            }
            s = s / 2;
            n = n + 1;
        }
        proof {
            reveal_with_fuel(is_power_of_two, 2);
            reveal_with_fuel(log2, 2);
        }
        if s != 1 {
            return Err(PlotDataError::StepNotPowerOfTwo(step));
        }
        if n >= self.pyramid_data.len() {
            return Err(PlotDataError::StepBeyondPyramid(step));
        }
        assert(self.pyramid(Reduction::Smaller).len() == self.height());
        assert(self.pyramid(Reduction::Larger).len() == self.height());
        let is_min_max = n >= self.cutoff_index;
        let data_width = sample_plot_data.data[0].len();
        let reduced_start_sample = sample_plot_data.start_sample / step;
        let first: &Vec<u32> = if is_min_max {
            &self.min_pyramid[n]
        } else {
            &self.pyramid_data[n]
        };
        let row0 = fill_window(first, reduced_start_sample, data_width);
        sample_plot_data.is_min_max = is_min_max;
        sample_plot_data.data.set(0, row0);
        if is_min_max {
            let row1 = fill_window(&self.max_pyramid[n], reduced_start_sample, data_width);
            sample_plot_data.data.set(1, row1);
        }
        Ok(is_min_max)
    }
}

proof fn lemma_halve_power(s: nat)
    requires
        s > 1,
        s % 2 == 0,
    ensures
        is_power_of_two(s) == is_power_of_two(s / 2),
        log2(s) == 1 + log2(s / 2),
{
}

fn fill_window(s: &Vec<u32>, start: usize, width: usize) -> (r: Vec<u32>)
    ensures
        r@ == window(s@, start as int, width as nat),
{
    let mut r: Vec<u32> = Vec::with_capacity(width);
    let mut i: usize = 0;
    while i < width
        invariant
            i <= width,
            r@ == window(s@, start as int, width as nat).subrange(0, i as int),
        decreases width - i,
    {
        let v = if start < s.len() && i < s.len() - start {
            s[start + i]
        } else {
            SILENCE
        };
        r.push(v);
        i = i + 1;
        assert(r@ =~= window(s@, start as int, width as nat).subrange(0, i as int));
    }
    assert(r@ =~= window(s@, start as int, width as nat));
    r
}

/// Asked for step one from the first sample over the channel's full length, the
/// query hands back the channel's samples exactly.
pub proof fn lemma_unit_step_reproduces_samples(
    m: &MipMapChannel,
    before: SamplePlotData,
    after: SamplePlotData,
    r: Result<bool, PlotDataError>,
)
    requires
        m.wf(),
        before.wf(),
        before.step == 1,
        before.start_sample == 0,
        before.width() == m.samples().len(),
        presampled_outcome(m, before, after, r),
    ensures
        r is Ok,
        after.data@[0]@ == m.samples(),
{
    assert(is_power_of_two(1));
    assert(log2(1) == 0);
    assert(m.pyramid(Reduction::Louder)[0] == level(m.samples(), Reduction::Louder, 0));
    assert(m.pyramid(Reduction::Smaller)[0] == level(m.samples(), Reduction::Smaller, 0));
    assert(window(m.samples(), 0, m.samples().len()) =~= m.samples());
}

/// What a query leaves: a refusal with nothing written when the step is not a power
/// of two or its level is beyond the pyramids, else the window of `presampled`.
pub open spec fn presampled_outcome(
    m: &MipMapChannel,
    before: SamplePlotData,
    after: SamplePlotData,
    r: Result<bool, PlotDataError>,
) -> bool {
    let step = before.step as nat;
    if !is_power_of_two(step) {
        r == Err::<bool, PlotDataError>(PlotDataError::StepNotPowerOfTwo(before.step))
            && after == before
    } else if log2(step) >= m.height() {
        r == Err::<bool, PlotDataError>(PlotDataError::StepBeyondPyramid(before.step))
            && after == before
    } else {
        presampled(m, before, after, r)
    }
}

/// What a successful query leaves: the level `n = log2(step)`, the window of its
/// pyramid from `start_sample / step`, and the second row for minimum and maximum.
pub open spec fn presampled(
    m: &MipMapChannel,
    before: SamplePlotData,
    after: SamplePlotData,
    r: Result<bool, PlotDataError>,
) -> bool {
    let n = log2(before.step as nat);
    let min_max = n >= m.cutoff();
    let start = before.start_sample as int / before.step as int;
    let width = before.width();
    &&& r == Ok::<bool, PlotDataError>(min_max)
    &&& after.is_min_max == min_max
    &&& after.start_sample == before.start_sample
    &&& after.step == before.step
    &&& after.wf()
    &&& if min_max {
        &&& after.data@[0]@ == window(m.pyramid(Reduction::Smaller)[n as int], start, width)
        &&& after.data@[1]@ == window(m.pyramid(Reduction::Larger)[n as int], start, width)
    } else {
        &&& after.data@[0]@ == window(m.pyramid(Reduction::Louder)[n as int], start, width)
        &&& after.data@[1] == before.data@[1]
    }
}

} // verus!
