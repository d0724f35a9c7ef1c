//! The decisions of the audio render thread. The thread that owns the hardware
//! stream feeds commands and rendered buffers to these functions and carries out the
//! actions they return.
use vstd::prelude::*;

verus! {

/// A request from the control side. The first field of `PlayFrom` and `RelocateTo`
/// is the graph node to render, the second a sample position.
#[derive(Clone, Copy, PartialEq, Eq, Structural, Debug)]
pub enum AudioCommand {
    PlayFrom(usize, usize),
    Stop,
    RelocateTo(usize, usize),
}

/// A report to the control side.
#[derive(Clone, Copy, PartialEq, Eq, Structural, Debug)]
pub enum AudioUpdate {
    CurrentSample(usize),
}

/// Whether a stream is open, and if so what it renders and where its clock stands.
#[derive(Clone, Copy, PartialEq, Eq, Structural, Debug)]
pub enum PlayerState {
    Idle,
    Playing { root: usize, sample_clock: usize },
}

/// What the render thread must do after a command.
#[derive(Clone, Copy, PartialEq, Eq, Structural, Debug)]
pub enum PlayerAction {
    /// Close any open stream and open one that renders `root` from `start`.
    OpenStream { root: usize, start: usize },
    /// Close any open stream.
    CloseStream,
    /// Send the update; no stream is opened or closed.
    Report(AudioUpdate),
}

pub open spec fn command_step(state: PlayerState, command: AudioCommand) -> (PlayerState, PlayerAction) {
    match command {
        AudioCommand::PlayFrom(root, start) => (
            PlayerState::Playing { root, sample_clock: start },
            PlayerAction::OpenStream { root, start },
        ),
        AudioCommand::Stop => (PlayerState::Idle, PlayerAction::CloseStream),
        AudioCommand::RelocateTo(root, sample) => match state {
            PlayerState::Playing { .. } => (
                PlayerState::Playing { root, sample_clock: sample },
                PlayerAction::OpenStream { root, start: sample },
            ),
            PlayerState::Idle => (
                PlayerState::Idle,
                PlayerAction::Report(AudioUpdate::CurrentSample(sample)),
            ),
        },
    }
}

/// The clock moved on by `frames`, held at the largest position rather than wrapping.
pub open spec fn clock_after(clock: usize, frames: usize) -> usize {
    if clock + frames > usize::MAX {
        usize::MAX
    } else {
        (clock + frames) as usize
    }
}

pub open spec fn buffer_step(state: PlayerState, frames: usize) -> (PlayerState, Option<AudioUpdate>) {
    match state {
        PlayerState::Idle => (PlayerState::Idle, None),
        PlayerState::Playing { root, sample_clock } => {
            let c = clock_after(sample_clock, frames);
            (PlayerState::Playing { root, sample_clock: c }, Some(AudioUpdate::CurrentSample(c)))
        },
    }
}

/// The updates sent while buffers of the given frame counts are rendered in turn.
pub open spec fn updates_over(state: PlayerState, frames: Seq<usize>) -> Seq<AudioUpdate>
    decreases frames.len(),
{
    if frames.len() == 0 {
        Seq::empty()
    } else {
        let (next, update) = buffer_step(state, frames[0]);
        let first = match update {
            Some(u) => seq![u],
            None => Seq::empty(),
        };
        first + updates_over(next, frames.drop_first())
    }
}

/// The next state and the action for a command: `PlayFrom` opens a stream from its
/// position, `Stop` closes the stream, and `RelocateTo` reopens the stream at its
/// position when one is open, else only reports the position.
pub fn handle_command(state: PlayerState, command: AudioCommand) -> (r: (PlayerState, PlayerAction))
    ensures
        r == command_step(state, command),
{
    match command {
        AudioCommand::PlayFrom(root, start) => (
            PlayerState::Playing { root, sample_clock: start },
            PlayerAction::OpenStream { root, start },
        ),
        AudioCommand::Stop => (PlayerState::Idle, PlayerAction::CloseStream),
        AudioCommand::RelocateTo(root, sample) => match state {
            PlayerState::Playing { .. } => (
                PlayerState::Playing { root, sample_clock: sample },
                PlayerAction::OpenStream { root, start: sample },
            ),
            PlayerState::Idle => (
                PlayerState::Idle,
                PlayerAction::Report(AudioUpdate::CurrentSample(sample)),
            ),
        },
    }
}

/// After an interleaved buffer of `buffer_len` slots over `channels` channels was
/// rendered: a playing clock moves on by the frames written and is reported; an
/// idle player reports nothing.
pub fn on_buffer_rendered(state: PlayerState, buffer_len: usize, channels: usize) -> (r: (
    PlayerState,
    Option<AudioUpdate>,
))
    requires
        channels > 0,
    ensures
        r == buffer_step(state, buffer_len / channels),
{
    match state {
        PlayerState::Idle => (PlayerState::Idle, None),
        PlayerState::Playing { root, sample_clock } => {
            let frames = buffer_len / channels;
            let c = sample_clock.saturating_add(frames);
            (PlayerState::Playing { root, sample_clock: c }, Some(AudioUpdate::CurrentSample(c)))
        },
    }
}

/// Once `Stop` is handled, rendering any run of buffers sends no update.
pub proof fn lemma_no_updates_after_stop(state: PlayerState, frames: Seq<usize>)
    ensures
        updates_over(command_step(state, AudioCommand::Stop).0, frames) == Seq::<AudioUpdate>::empty(),
{
    lemma_idle_is_silent(frames);
}

/// An idle player sends no update, whatever is rendered.
pub proof fn lemma_idle_is_silent(frames: Seq<usize>)
    ensures
        updates_over(PlayerState::Idle, frames) == Seq::<AudioUpdate>::empty(),
    decreases frames.len(),
{
    if frames.len() > 0 {
        lemma_idle_is_silent(frames.drop_first());
        assert(updates_over(PlayerState::Idle, frames) =~= Seq::<AudioUpdate>::empty());
    }
}

} // verus!
