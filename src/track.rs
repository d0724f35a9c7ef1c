use vstd::prelude::*;

use crate::effects::Channel;
use crate::mipmap::{MipMapChannel, PlotDataError, SamplePlotData};
use crate::sample::SILENCE;

verus! {

/// The sample at frame `idx` of a track of `length` frames, or silence once the
/// track is exhausted.
pub open spec fn frame_sample(s: Seq<u32>, length: u64, idx: int) -> u32 {
    if 0 <= idx < length && idx < s.len() {
        s[idx]
    } else {
        SILENCE
    }
}

/// Slot `i` of an interleaved buffer after a stereo source rendered frames from
/// `clock` into it: slot 0 of each frame takes the left channel, slot 1 the right
/// channel when the buffer is stereo, and any other slot keeps `prev`.
pub open spec fn stereo_slot(
    left: Seq<u32>,
    right: Seq<u32>,
    length: u64,
    prev: u32,
    clock: int,
    channels: int,
    i: int,
) -> u32 {
    let f = i / channels;
    let c = i % channels;
    if c == 0 {
        frame_sample(left, length, clock + f)
    } else if c == 1 && channels == 2 {
        frame_sample(right, length, clock + f)
    } else {
        prev
    }
}

/// A decoded stereo track: the samples of each channel in a `MipMapChannel`,
/// with its frame count and sample rate.
pub struct Track {
    file_path: Option<String>,
    length: u64,
    sample_rate: u32,
    file_data_left: MipMapChannel,
    file_data_right: MipMapChannel,
}

impl Track {
    pub closed spec fn wf(&self) -> bool {
        self.file_data_left.wf() && self.file_data_right.wf()
    }

    pub closed spec fn left(&self) -> &MipMapChannel {
        &self.file_data_left
    }

    pub closed spec fn right(&self) -> &MipMapChannel {
        &self.file_data_right
    }

    pub closed spec fn spec_length(&self) -> u64 {
        self.length
    }

    pub closed spec fn spec_sample_rate(&self) -> u32 {
        self.sample_rate
    }

    pub closed spec fn spec_file_path(&self) -> Option<String> {
        self.file_path
    }

    pub fn new(
        file_path: Option<String>,
        length: u64,
        sample_rate: u32,
        file_data_left: MipMapChannel,
        file_data_right: MipMapChannel,
    ) -> (r: Self)
        requires
            file_data_left.wf(),
            file_data_right.wf(),
        ensures
            r.wf(),
            r.spec_file_path() == file_path,
            r.spec_length() == length,
            r.spec_sample_rate() == sample_rate,
            *r.left() == file_data_left,
            *r.right() == file_data_right,
    {
        Track { file_path, length, sample_rate, file_data_left, file_data_right }
    }

    /// The full-resolution samples of the left and the right channel.
    pub fn sample_data(&self) -> (r: (&[u32], &[u32]))
        requires
            self.wf(),
        ensures
            r.0@ == self.left().samples(),
            r.1@ == self.right().samples(),
    {
        (self.file_data_left.get_full_data(), self.file_data_right.get_full_data())
    }

    pub fn file_path(&self) -> (r: &Option<String>)
        ensures
            *r == self.spec_file_path(),
    {
        &self.file_path
    }

    pub fn file_data_left(&self) -> (r: &MipMapChannel)
        ensures
            *r == *self.left(),
    {
        &self.file_data_left
    }

    pub fn file_data_right(&self) -> (r: &MipMapChannel)
        ensures
            *r == *self.right(),
    {
        &self.file_data_right
    }

    pub fn length(&self) -> (r: u64)
        ensures
            r == self.spec_length(),
    {
        self.length
    }

    pub fn sample_rate(&self) -> (r: u32)
        ensures
            r == self.spec_sample_rate(),
    {
        self.sample_rate
    }

    /// Writes the frames from `sample_clock` into the interleaved `output`, silence
    /// past the track's end. A mono buffer gets the left channel; a stereo one both.
    /// Only slots of `output` are touched, and its length is kept.
    pub fn apply(&self, output: &mut Vec<u32>, sample_clock: usize, channels: usize)
        requires
            self.wf(),
        ensures
            final(output)@.len() == old(output)@.len(),
            channels == 0 ==> final(output)@ == old(output)@,
            channels > 0 ==> forall|i: int|
                0 <= i < final(output)@.len() ==> #[trigger] final(output)@[i] == stereo_slot(
                    self.left().samples(),
                    self.right().samples(),
                    self.spec_length(),
                    old(output)@[i],
                    sample_clock as int,
                    channels as int,
                    i,
                ),
    {
        if channels == 0 {
            return;
        }
        let (left, right) = self.sample_data();
        let len = output.len();
        let mut i: usize = 0;
        while i < len
            invariant
                channels > 0,
                left@ == self.left().samples(),
                right@ == self.right().samples(),
                output@.len() == len,
                i <= len,
                forall|j: int|
                    0 <= j < i ==> #[trigger] output@[j] == stereo_slot(
                        left@,
                        right@,
                        self.spec_length(),
                        old(output)@[j],
                        sample_clock as int,
                        channels as int,
                        j,
                    ),
                forall|j: int| i <= j < len ==> output@[j] == old(output)@[j],
            decreases len - i,
        {
            let f = i / channels;
            let c = i % channels;
            if c == 0 {
                output[i] = sample_or_silence(left, self.length, sample_clock, f);
            } else if c == 1 && channels == 2 {
                output[i] = sample_or_silence(right, self.length, sample_clock, f);
            }
            i = i + 1;
        }
    }

    /// The plot window of one channel: see
    /// `MipMapChannel::get_presampled_data_from_step_and_start`.
    pub fn get_waveform_plot_data(
        &self,
        sample_plot_data: &mut SamplePlotData,
        channel: Channel,
    ) -> (r: Result<bool, PlotDataError>)
        requires
            self.wf(),
            old(sample_plot_data).wf(),
        ensures
            channel == Channel::Left ==> crate::mipmap::presampled_outcome(
                self.left(),
                *old(sample_plot_data),
                *final(sample_plot_data),
                r,
            ),
            channel == Channel::Right ==> crate::mipmap::presampled_outcome(
                self.right(),
                *old(sample_plot_data),
                *final(sample_plot_data),
                r,
            ),
    {
        match channel {
            Channel::Left => self.file_data_left.get_presampled_data_from_step_and_start(
                sample_plot_data,
            ),
            Channel::Right => self.file_data_right.get_presampled_data_from_step_and_start(
                sample_plot_data,
            ),
        }
    }
}

fn sample_or_silence(s: &[u32], length: u64, clock: usize, f: usize) -> (r: u32)
    ensures
        r == frame_sample(s@, length, clock + f),
{
    if (clock as u64) < length && f as u64 <= length - (clock as u64) - 1 && clock < s.len() && f
        < s.len() - clock {
        s[clock + f]
    } else {
        SILENCE
    }
}

} // verus!
