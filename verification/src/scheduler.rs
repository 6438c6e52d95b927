//! The frame scheduler: what happens in one frame, and in which order.
//!
//! A frame begins with a tick of the frame clock. The scheduler then asks for
//! sample batches, one at a time, until the channel has none left or the
//! frame's time budget is spent; decides whether enough samples are held to
//! transform them; and waits for the frame's work to end. The scheduler does
//! none of the waiting, receiving or drawing itself: it is told what happened
//! and answers what to do next.

use crate::fft::{
    is_spectrum_of, kernel_keeps_count, last_full_chunk, process_stream_data, spectrum_view, Half, TransformError,
    FFT_CHUNK_SIZE,
};
use crate::stream::{keep_last, StreamBuffer};
use vstd::prelude::*;

verus! {

/// Nanoseconds in one second.
pub const NANOS_PER_SECOND: u64 = 1_000_000_000;

/// Where the scheduler stands within a frame.
#[derive(Clone, Copy, Debug, PartialEq, Eq, Structural)]
pub enum Phase {
    /// Between two frames.
    Idle,
    /// Taking batches from the channel.
    Draining,
    /// Enough samples are held: the frame shows a new spectrum.
    Ready,
    /// Too few samples are held: the frame shows nothing new.
    Starved,
}

/// What the scheduler is told.
pub enum Event<T> {
    /// The frame clock fired.
    Tick,
    /// A receive gave a batch. `elapsed` is the time since the frame's tick,
    /// in nanoseconds, read once the batch was there.
    Batch { samples: Vec<T>, elapsed: u64 },
    /// A receive found the channel empty.
    Empty,
    /// A receive found that the sending side is gone.
    Closed,
    /// The frame's work has ended, `elapsed` nanoseconds after its tick.
    Done { elapsed: u64 },
}

/// What the scheduler asks for.
#[derive(Clone, Copy, Debug, PartialEq, Eq, Structural)]
pub enum Action {
    /// Try once to receive a batch, without waiting, and report the outcome.
    Receive,
    /// Transform the held samples and draw the spectrum, then report `Done`.
    Transform,
    /// Draw nothing new, then report `Done`.
    Hold,
    /// Wait for the next tick.
    Sleep,
    /// The event has no place in the current phase. Nothing has changed.
    Ignored,
}

/// The constants a scheduler is made with.
#[derive(Clone, Copy, Debug, PartialEq, Eq, Structural)]
pub struct FrameConfig {
    /// The most samples that are ever held.
    pub capacity: usize,
    /// The fewest held samples with which a frame is transformed.
    pub ready_threshold: usize,
    /// The time, in nanoseconds from a frame's tick, after which no further
    /// batch is asked for.
    pub frame_budget: u64,
}

/// Whether a scheduler can be made with these constants: the threshold
/// promises a full chunk, and the buffer can reach it.
pub open spec fn config_is_valid(config: FrameConfig) -> bool {
    FFT_CHUNK_SIZE <= config.ready_threshold <= config.capacity
}

/// The state of a scheduler, as contracts see it.
pub struct SchedulerState<T> {
    pub phase: Phase,
    /// The held samples, oldest first.
    pub samples: Seq<T>,
    /// Frames that have ended.
    pub frame_count: u64,
    /// Frames whose work ended after the budget was spent.
    pub overruns: u64,
    /// Whether the sending side of the channel was seen to be gone.
    pub closed: bool,
}

/// The state of a new scheduler: between frames, with nothing held and
/// nothing counted.
pub open spec fn initial_state<T>() -> SchedulerState<T> {
    SchedulerState {
        phase: Phase::Idle,
        samples: Seq::empty(),
        frame_count: 0,
        overruns: 0,
        closed: false,
    }
}

/// What holds of the state of every scheduler: no more samples are held
/// than the capacity allows, and a frame that is ready meets the threshold.
pub open spec fn state_in_order<T>(config: FrameConfig, state: SchedulerState<T>) -> bool {
    &&& state.samples.len() <= config.capacity
    &&& state.phase == Phase::Ready ==> state.samples.len() >= config.ready_threshold
}

/// A counter after one more count. It stays at its highest value.
pub open spec fn counted(counter: u64) -> u64 {
    if counter < u64::MAX {
        (counter + 1) as u64
    } else {
        counter
    }
}

/// The end of draining: the frame is ready where the threshold is met,
/// starved where it is not.
pub open spec fn settle<T>(config: FrameConfig, state: SchedulerState<T>) -> (
    SchedulerState<T>,
    Action,
) {
    if state.samples.len() >= config.ready_threshold {
        (SchedulerState { phase: Phase::Ready, ..state }, Action::Transform)
    } else {
        (SchedulerState { phase: Phase::Starved, ..state }, Action::Hold)
    }
}

/// The state after an event, and the action asked for.
pub open spec fn advance<T>(config: FrameConfig, state: SchedulerState<T>, event: Event<T>) -> (
    SchedulerState<T>,
    Action,
) {
    match state.phase {
        Phase::Idle => match event {
            Event::Tick => (SchedulerState { phase: Phase::Draining, ..state }, Action::Receive),
            _ => (state, Action::Ignored),
        },
        Phase::Draining => match event {
            Event::Batch { samples, elapsed } => {
                let grown = SchedulerState {
                    samples: keep_last(state.samples + samples@, config.capacity as nat),
                    ..state
                };
                if elapsed <= config.frame_budget {
                    (grown, Action::Receive)
                } else {
                    settle(config, grown)
                }
            },
            Event::Empty => settle(config, state),
            Event::Closed => settle(config, SchedulerState { closed: true, ..state }),
            _ => (state, Action::Ignored),
        },
        Phase::Ready | Phase::Starved => match event {
            Event::Done { elapsed } => (
                SchedulerState {
                    phase: Phase::Idle,
                    frame_count: counted(state.frame_count),
                    overruns: if elapsed > config.frame_budget {
                        counted(state.overruns)
                    } else {
                        state.overruns
                    },
                    ..state
                },
                Action::Sleep,
            ),
            _ => (state, Action::Ignored),
        },
    }
}

/// The time one frame may take at a frame rate, in nanoseconds. There is
/// none at a rate of zero.
pub fn frame_budget(frames_per_second: u32) -> (budget: Option<u64>)
    ensures
        match budget {
            Some(nanos) => frames_per_second > 0 && nanos == NANOS_PER_SECOND
                / frames_per_second as u64,
            None => frames_per_second == 0,
        },
{
    if frames_per_second == 0 {
        None
    } else {
        Some(NANOS_PER_SECOND / frames_per_second as u64)
    }
}

/// The number of samples in `seconds` of sound at a sample rate, or nothing
/// where that number does not fit the machine's word.
pub fn buffer_capacity(sample_rate: u32, seconds: u32) -> (capacity: Option<usize>)
    ensures
        match capacity {
            Some(samples) => samples == sample_rate as int * seconds as int,
            None => sample_rate as int * seconds as int > usize::MAX,
        },
{
    assert(sample_rate as int * seconds as int <= 0xffff_ffff * 0xffff_ffff) by (nonlinear_arith)
        requires
            sample_rate <= 0xffff_ffff,
            seconds <= 0xffff_ffff,
    ;
    let samples: u64 = sample_rate as u64 * seconds as u64;
    if samples <= usize::MAX as u64 {
        Some(samples as usize)
    } else {
        None
    }
}

fn count(counter: u64) -> (next: u64)
    ensures
        next == counted(counter),
{
    if counter < u64::MAX {
        counter + 1
    } else {
        counter
    }
}

/// Drives the cycle of a frame over a stream buffer that it owns.
pub struct FrameScheduler<T> {
    config: FrameConfig,
    buffer: StreamBuffer<T>,
    phase: Phase,
    frame_count: u64,
    overruns: u64,
    closed: bool,
}

impl<T> View for FrameScheduler<T> {
    type V = SchedulerState<T>;

    closed spec fn view(&self) -> SchedulerState<T> {
        SchedulerState {
            phase: self.phase,
            samples: self.buffer@,
            frame_count: self.frame_count,
            overruns: self.overruns,
            closed: self.closed,
        }
    }
}

impl<T> FrameScheduler<T> {
    #[verifier::type_invariant]
    spec fn in_order(self) -> bool {
        &&& config_is_valid(self.config)
        &&& self.buffer.capacity() == self.config.capacity
        &&& self.buffer@.len() <= self.config.capacity
        &&& self.phase == Phase::Ready ==> self.buffer@.len() >= self.config.ready_threshold
    }

    /// The constants the scheduler was made with.
    pub closed spec fn spec_config(&self) -> FrameConfig {
        self.config
    }

    /// A scheduler between frames that holds no samples, or nothing where
    /// the constants are not valid.
    pub fn new(config: FrameConfig) -> (made: Option<Self>)
        ensures
            match made {
                Some(scheduler) => {
                    &&& config_is_valid(config)
                    &&& scheduler.config() == config
                    &&& scheduler@ == initial_state::<T>()
                    &&& state_in_order(config, scheduler@)
                },
                None => !config_is_valid(config),
            },
    {
        if FFT_CHUNK_SIZE <= config.ready_threshold && config.ready_threshold <= config.capacity {
            Some(
                FrameScheduler {
                    config,
                    buffer: StreamBuffer::new(config.capacity),
                    phase: Phase::Idle,
                    frame_count: 0,
                    overruns: 0,
                    closed: false,
                },
            )
        } else {
            None
        }
    }

    /// The constants the scheduler was made with. They are valid.
    #[verifier::when_used_as_spec(spec_config)]
    pub fn config(&self) -> (config: FrameConfig)
        ensures
            config == self.spec_config(),
            config_is_valid(config),
    {
        proof {
            use_type_invariant(self);
        }
        self.config
    }

    /// The current phase. In phase `Ready` the threshold is met.
    pub fn phase(&self) -> (phase: Phase)
        ensures
            phase == self@.phase,
            phase == Phase::Ready ==> self@.samples.len() >= self.config().ready_threshold,
    {
        proof {
            use_type_invariant(self);
        }
        self.phase
    }

    /// The number of frames that have ended.
    pub fn frame_count(&self) -> (frames: u64)
        ensures
            frames == self@.frame_count,
    {
        self.frame_count
    }

    /// The number of frames whose work ended after the budget was spent.
    pub fn overruns(&self) -> (overruns: u64)
        ensures
            overruns == self@.overruns,
    {
        self.overruns
    }

    /// Whether the sending side of the channel was seen to be gone.
    pub fn is_closed(&self) -> (closed: bool)
        ensures
            closed == self@.closed,
    {
        self.closed
    }

    /// The number of samples held, which never exceeds the capacity.
    pub fn buffered(&self) -> (held: usize)
        ensures
            held == self@.samples.len(),
            held <= self.config().capacity,
    {
        proof {
            use_type_invariant(self);
        }
        self.buffer.len()
    }

    /// The held samples, oldest first, as one slice.
    pub fn samples(&self) -> (samples: &[T])
        ensures
            samples@ == self@.samples,
    {
        self.buffer.contiguous_view()
    }

    /// Takes an event, and answers what to do next.
    pub fn step(&mut self, event: Event<T>) -> (action: Action) where T: Copy
        ensures
            (final(self)@, action) == advance(old(self).config(), old(self)@, event),
            final(self).config() == old(self).config(),
            state_in_order(final(self).config(), final(self)@),
    {
        proof {
            use_type_invariant(&*self);
        }
        let config = self.config;
        // The state is moved out while it is worked on, so that `self` is a
        // scheduler in good order at every point in between.
        let mut taken = FrameScheduler {
            config,
            buffer: StreamBuffer::new(config.capacity),
            phase: Phase::Idle,
            frame_count: 0,
            overruns: 0,
            closed: false,
        };
        core::mem::swap(self, &mut taken);
        proof {
            use_type_invariant(&taken);
        }
        let FrameScheduler { config: _, buffer, phase, frame_count, overruns, closed } = taken;
        let mut buffer = buffer;
        let mut frame_count = frame_count;
        let mut overruns = overruns;
        let mut closed = closed;
        let mut next = phase;
        let mut action = Action::Ignored;
        match phase {
            Phase::Idle => match event {
                Event::Tick => {
                    next = Phase::Draining;
                    action = Action::Receive;
                },
                _ => {},
            },
            Phase::Draining => {
                let mut drained = true;
                match event {
                    Event::Batch { samples, elapsed } => {
                        buffer.append(samples.as_slice());
                        if elapsed <= config.frame_budget {
                            drained = false;
                            action = Action::Receive;
                        }
                    },
                    Event::Empty => {},
                    Event::Closed => {
                        closed = true;
                    },
                    _ => {
                        drained = false;
                    },
                }
                if drained {
                    if buffer.len() >= config.ready_threshold {
                        next = Phase::Ready;
                        action = Action::Transform;
                    } else {
                        next = Phase::Starved;
                        action = Action::Hold;
                    }
                }
            },
            Phase::Ready | Phase::Starved => match event {
                Event::Done { elapsed } => {
                    frame_count = count(frame_count);
                    if elapsed > config.frame_budget {
                        overruns = count(overruns);
                    }
                    next = Phase::Idle;
                    action = Action::Sleep;
                },
                _ => {},
            },
        }
        *self = FrameScheduler { config, buffer, phase: next, frame_count, overruns, closed };
        action
    }

    /// The spectrum of the held samples, for a frame that is ready. In any
    /// other phase the data count as insufficient and the kernel is not
    /// called. With a kernel that returns one bin for each sample, every
    /// ready frame gives a spectrum.
    pub fn spectrum<B, F>(&self, half: Half, kernel: F) -> (result: Result<
        Vec<B>,
        TransformError,
    >) where F: Fn(&[T]) -> Vec<B>
        requires
            self@.phase == Phase::Ready ==> forall|chunk: &[T]|
                chunk@ == last_full_chunk(self@.samples) ==> #[trigger] call_requires(
                    kernel,
                    (chunk,),
                ),
        ensures
            self@.phase == Phase::Ready ==> is_spectrum_of(
                kernel,
                self@.samples,
                half,
                spectrum_view(result),
            ),
            result == Err::<Vec<B>, TransformError>(TransformError::InsufficientData)
                <==> self@.phase != Phase::Ready,
            result matches Ok(bins) ==> bins@.len() == FFT_CHUNK_SIZE / 2,
            kernel_keeps_count(kernel) && self@.phase == Phase::Ready ==> result is Ok,
    {
        proof {
            use_type_invariant(self);
        }
        match self.phase {
            Phase::Ready => process_stream_data(self.buffer.contiguous_view(), half, kernel),
            _ => Err(TransformError::InsufficientData),
        }
    }
}

/// No batch is asked for once the budget is spent, however many are waiting:
/// a receive is asked for only at a frame's tick, or after a batch that was
/// there within the budget.
pub proof fn lemma_receive_within_budget<T>(
    config: FrameConfig,
    state: SchedulerState<T>,
    event: Event<T>,
)
    requires
        advance(config, state, event).1 == Action::Receive,
    ensures
        match event {
            Event::Tick => state.phase == Phase::Idle,
            Event::Batch { samples, elapsed } => state.phase == Phase::Draining && elapsed
                <= config.frame_budget,
            _ => false,
        },
{
}

/// The phases follow each other in one order: from idle to draining, from
/// draining to ready or starved, from either of these to idle. A frame is
/// ready exactly where draining ended with the threshold met.
pub proof fn lemma_phase_order<T>(config: FrameConfig, state: SchedulerState<T>, event: Event<T>)
    ensures
        ({
            let next = advance(config, state, event).0;
            let action = advance(config, state, event).1;
            &&& next.phase != state.phase ==> match state.phase {
                Phase::Idle => next.phase == Phase::Draining,
                Phase::Draining => next.phase == Phase::Ready || next.phase == Phase::Starved,
                Phase::Ready | Phase::Starved => next.phase == Phase::Idle,
            }
            &&& state.phase == Phase::Draining && next.phase == Phase::Ready
                ==> next.samples.len() >= config.ready_threshold
            &&& state.phase == Phase::Draining && next.phase == Phase::Starved
                ==> next.samples.len() < config.ready_threshold
            &&& action == Action::Transform <==> next.phase == Phase::Ready && state.phase
                == Phase::Draining
            &&& action == Action::Hold <==> next.phase == Phase::Starved && state.phase
                == Phase::Draining
            &&& action == Action::Ignored ==> next == state
        }),
{
}

/// No event brings a scheduler out of order: the capacity is never exceeded,
/// and no frame is ready below the threshold.
pub proof fn lemma_order_kept<T>(config: FrameConfig, state: SchedulerState<T>, event: Event<T>)
    requires
        state_in_order(config, state),
    ensures
        state_in_order(config, advance(config, state, event).0),
{
}

/// A frame that is ready holds a full chunk: its transform does not fail for
/// want of data.
pub proof fn lemma_ready_has_full_chunk<T>(
    config: FrameConfig,
    state: SchedulerState<T>,
    event: Event<T>,
)
    requires
        config_is_valid(config),
        advance(config, state, event).1 == Action::Transform,
    ensures
        advance(config, state, event).0.samples.len() >= FFT_CHUNK_SIZE,
{
}

} // verus!
