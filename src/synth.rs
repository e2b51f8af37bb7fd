//! The synthesis engine: a single sawtooth oscillator with a one-pole
//! smoothing filter subtracted from it, shaped by linear fades at the start
//! and at the release of a note.
//!
//! Samples are fixed-point: `SAMPLE_ONE` stands for full scale. All timing is
//! derived from the sample clock, a count of frames that only grows.

use vstd::prelude::*;
use crate::event::{received_log, try_receive_event, NoteEvent, NOTE_QUEUE_CAPACITY};
use vstd::arithmetic::div_mod::{
    lemma_fundamental_div_mod, lemma_fundamental_div_mod_converse, lemma_multiply_divide_le,
    lemma_multiply_divide_lt,
};

verus! {

/// The sample value that stands for full scale (1.0).
pub const SAMPLE_ONE: i32 = 0x100_0000;

/// Corner of the smoothing filter, in hertz.
pub const FILTER_HZ: u32 = 100;

/// The attack and the release fades each last one second divided by this.
pub const FADES_PER_SECOND: u32 = 1000;

/// Largest MIDI velocity: a note of this velocity plays at full scale.
pub const VELOCITY_MAX: u8 = 127;

/// The note that is sounding.
#[derive(Clone, Copy, Debug, PartialEq, Eq, Structural)]
pub struct ActiveNote {
    /// MIDI key, which a release must name.
    pub note: u8,
    /// Pitch, in thousandths of a hertz.
    pub millihertz: u32,
    /// Velocity, at most `VELOCITY_MAX`.
    pub velocity: u8,
    /// Sample clock when the note was pressed.
    pub pressed: u64,
    /// Sample clock when the note was released, once it was.
    pub released: Option<u64>,
}

/// The state of the engine between two frames.
#[derive(Clone, Copy, Debug, PartialEq, Eq, Structural)]
pub struct EngineState {
    /// Frames rendered since the engine was made.
    pub clock: u64,
    /// The sounding note, if any.
    pub active: Option<ActiveNote>,
    /// The smoothing filter's memory.
    pub lopass: i32,
}

/// The smaller of two integers.
pub open spec fn min_int(a: int, b: int) -> int {
    if a <= b { a } else { b }
}

/// The larger of two integers.
pub open spec fn max_int(a: int, b: int) -> int {
    if a >= b { a } else { b }
}

impl EngineState {
    /// The filter's memory lies in the range of the oscillator, and a note's
    /// times do not lie ahead of the clock.
    pub open spec fn wf(self) -> bool {
        &&& 0 <= self.lopass < SAMPLE_ONE
        &&& match self.active {
            None => true,
            Some(a) => {
                &&& a.pressed <= self.clock
                &&& a.velocity <= VELOCITY_MAX
                &&& match a.released {
                    None => true,
                    Some(t) => a.pressed <= t <= self.clock,
                }
            },
        }
    }
}

/// Position within the oscillator's period, in units of `rate * 1000` per
/// period, `elapsed` frames after the note was pressed.
pub open spec fn phase(elapsed: int, millihertz: int, rate: int) -> int {
    (elapsed * millihertz) % (rate * 1000)
}

/// The rising sawtooth, in `[0, SAMPLE_ONE)`.
pub open spec fn sawtooth(elapsed: int, millihertz: int, rate: int) -> int {
    phase(elapsed, millihertz, rate) * SAMPLE_ONE / (rate * 1000)
}

/// The oscillator scaled by the note's velocity.
pub open spec fn voiced(a: ActiveNote, clock: int, rate: int) -> int {
    sawtooth(clock - a.pressed, a.millihertz as int, rate) * a.velocity / (VELOCITY_MAX as int)
}

/// The weight of a new value in the smoothing filter, out of `rate`.
pub open spec fn filter_weight(rate: int) -> int {
    min_int(FILTER_HZ as int, rate)
}

/// The filter's memory after it has taken in `x`.
pub open spec fn smoothed(lopass: int, x: int, rate: int) -> int {
    (x * filter_weight(rate) + lopass * (rate - filter_weight(rate))) / rate
}

/// The attack fade, out of `rate`: it rises linearly from zero to full over
/// the first `rate / FADES_PER_SECOND` frames.
pub open spec fn attack_gain(elapsed: int, rate: int) -> int {
    min_int(elapsed * FADES_PER_SECOND, rate)
}

/// The release fade, out of `rate`, for the frame `since` frames after the
/// release: it falls linearly and is zero on the last of the first
/// `rate / FADES_PER_SECOND` frames after the release (when that is a whole
/// number; otherwise on the frame that ends the fade).
pub open spec fn release_gain(since: int, rate: int) -> int {
    max_int(rate - (since + 1) * FADES_PER_SECOND, 0)
}

/// `x` times `gain / rate`, rounded toward zero.
pub open spec fn scaled(x: int, gain: int, rate: int) -> int {
    if x >= 0 {
        x * gain / rate
    } else {
        -((-x) * gain / rate)
    }
}

/// Whether the note has been released and its release fade has ended.
pub open spec fn decayed(a: ActiveNote, clock: int, rate: int) -> bool {
    match a.released {
        None => false,
        Some(t) => release_gain(clock - t, rate) == 0,
    }
}

/// The sample of a sounding note, given the filter's memory after this frame.
pub open spec fn note_sample(a: ActiveNote, clock: int, lopass: int, rate: int) -> int {
    let attacked = scaled(voiced(a, clock, rate) - lopass, attack_gain(clock - a.pressed, rate), rate);
    match a.released {
        None => attacked,
        Some(t) => scaled(attacked, release_gain(clock - t, rate), rate),
    }
}

/// One frame: its sample, and the state after it. A note whose release fade
/// has ended is cleared.
pub open spec fn step(s: EngineState, rate: u32) -> (i32, EngineState) {
    match s.active {
        None => (0, EngineState { clock: (s.clock + 1) as u64, active: None, lopass: s.lopass }),
        Some(a) => {
            let lp = smoothed(s.lopass as int, voiced(a, s.clock as int, rate as int), rate as int);
            (
                note_sample(a, s.clock as int, lp, rate as int) as i32,
                EngineState {
                    clock: (s.clock + 1) as u64,
                    active: if decayed(a, s.clock as int, rate as int) { None } else { Some(a) },
                    lopass: lp as i32,
                },
            )
        },
    }
}

/// The number of whole frames of `channels` samples in `len` samples.
pub open spec fn whole_frames(len: int, channels: int) -> int {
    len / channels
}

/// The state after `n` frames.
pub open spec fn after(s: EngineState, rate: u32, n: nat) -> EngineState
    decreases n,
{
    if n == 0 {
        s
    } else {
        step(after(s, rate, (n - 1) as nat), rate).1
    }
}

/// The sample of frame `k`, counted from state `s`.
pub open spec fn frame_sample(s: EngineState, rate: u32, k: nat) -> i32 {
    step(after(s, rate, k), rate).0
}

/// `out` holds, interleaved over `channels`, the frames rendered from state
/// `s`, one per whole frame of `out`, the sample of each frame replicated over
/// its channels; the positions after the last whole frame are zero; `s2` is
/// the state after those frames.
pub open spec fn renders(s: EngineState, rate: u32, channels: int, out: Seq<i32>, s2: EngineState) -> bool {
    let frames = whole_frames(out.len() as int, channels);
    &&& s2 == after(s, rate, frames as nat)
    &&& forall|i: int|
        0 <= i < frames * channels ==> #[trigger] out[i] == frame_sample(s, rate, (i / channels) as nat)
    &&& forall|i: int| frames * channels <= i < out.len() ==> #[trigger] out[i] == 0
}

/// Within each whole frame of `out`, all channels hold the same sample.
pub open spec fn channels_replicated(out: Seq<i32>, channels: int) -> bool {
    forall|f: int, c: int|
        0 <= f < whole_frames(out.len() as int, channels) && 0 <= c < channels ==> #[trigger] out[f
            * channels + c] == out[f * channels]
}

/// The state after a note event: a note-on replaces whatever sounds and
/// starts a fresh attack; a note-off releases the sounding note only if it
/// names that note and the note is not released yet.
pub open spec fn apply(s: EngineState, e: NoteEvent) -> EngineState {
    match e {
        NoteEvent::On { note, millihertz, velocity } => EngineState {
            active: Some(
                ActiveNote {
                    note,
                    millihertz,
                    velocity: if velocity <= VELOCITY_MAX { velocity } else { VELOCITY_MAX },
                    pressed: s.clock,
                    released: None,
                },
            ),
            ..s
        },
        NoteEvent::Off { note } => match s.active {
            Some(a) => if a.note == note && a.released is None {
                EngineState { active: Some(ActiveNote { released: Some(s.clock), ..a }), ..s }
            } else {
                s
            },
            None => s,
        },
    }
}

/// The state after a sequence of note events, applied in order.
pub open spec fn apply_all(s: EngineState, es: Seq<NoteEvent>) -> EngineState
    decreases es.len(),
{
    if es.len() == 0 {
        s
    } else {
        apply(apply_all(s, es.drop_last()), es.last())
    }
}

proof fn lemma_sawtooth_bounded(ph: int, period: int)
    requires
        0 <= ph < period,
    ensures
        0 <= ph * SAMPLE_ONE / period < SAMPLE_ONE,
{
    assert(ph * SAMPLE_ONE < period * SAMPLE_ONE) by (nonlinear_arith)
        requires
            0 <= ph < period,
    ;
    assert(0 <= ph * SAMPLE_ONE) by (nonlinear_arith)
        requires
            0 <= ph,
    ;
    lemma_multiply_divide_lt(ph * SAMPLE_ONE, period, SAMPLE_ONE as int);
}

proof fn lemma_fraction_le(x: int, g: int, r: int)
    requires
        0 <= x,
        0 <= g <= r,
        0 < r,
    ensures
        0 <= x * g / r <= x,
{
    assert(0 <= x * g <= r * x) by (nonlinear_arith)
        requires
            0 <= x,
            0 <= g <= r,
    ;
    lemma_multiply_divide_le(x * g, r, x);
}

proof fn lemma_blend_bounded(v: int, l: int, w: int, r: int)
    requires
        0 <= v < SAMPLE_ONE,
        0 <= l < SAMPLE_ONE,
        0 <= w <= r,
        0 < r,
    ensures
        0 <= (v * w + l * (r - w)) / r < SAMPLE_ONE,
{
    assert(0 <= v * w + l * (r - w) < r * SAMPLE_ONE) by (nonlinear_arith)
        requires
            0 <= v < SAMPLE_ONE,
            0 <= l < SAMPLE_ONE,
            0 <= w <= r,
            0 < r,
    ;
    lemma_multiply_divide_lt(v * w + l * (r - w), r, SAMPLE_ONE as int);
}

/// `x * gain / rate`, rounded toward zero.
fn scale(x: i64, gain: u64, rate: u32) -> (r: i64)
    requires
        -SAMPLE_ONE < x < SAMPLE_ONE,
        gain <= rate,
        rate > 0,
    ensures
        r == scaled(x as int, gain as int, rate as int),
        x >= 0 ==> 0 <= r <= x,
        x < 0 ==> x <= r <= 0,
{
    if x >= 0 {
        proof {
            lemma_fraction_le(x as int, gain as int, rate as int);
        }
        assert(x * gain <= SAMPLE_ONE * gain <= SAMPLE_ONE * 0x1_0000_0000) by (nonlinear_arith)
            requires
                0 <= x < SAMPLE_ONE,
                gain <= rate,
                rate < 0x1_0000_0000,
        ;
        ((x as u64) * gain / (rate as u64)) as i64
    } else {
        let m: u64 = (-x) as u64;
        proof {
            lemma_fraction_le(m as int, gain as int, rate as int);
        }
        assert(m * gain <= SAMPLE_ONE * 0x1_0000_0000) by (nonlinear_arith)
            requires
                0 <= m <= SAMPLE_ONE,
                gain <= rate,
                rate < 0x1_0000_0000,
        ;
        -((m * gain / (rate as u64)) as i64)
    }
}

impl EngineState {
    /// A silent engine at clock zero.
    pub fn new() -> (r: Self)
        ensures
            r.wf(),
            r.clock == 0,
            r.active is None,
            r.lopass == 0,
    {
        EngineState { clock: 0, active: None, lopass: 0 }
    }

    /// Applies one note event.
    pub fn apply_event(&mut self, e: NoteEvent)
        requires
            old(self).wf(),
        ensures
            *final(self) == apply(*old(self), e),
            final(self).wf(),
    {
        match e {
            NoteEvent::On { note, millihertz, velocity } => {
                let v = if velocity <= VELOCITY_MAX { velocity } else { VELOCITY_MAX };
                self.active = Some(
                    ActiveNote { note, millihertz, velocity: v, pressed: self.clock, released: None },
                );
            },
            NoteEvent::Off { note } => {
                match self.active {
                    Some(a) => {
                        if a.note == note && a.released.is_none() {
                            self.active = Some(ActiveNote { released: Some(self.clock), ..a });
                        }
                    },
                    None => {},
                }
            },
        }
    }

    /// Renders one frame: returns its sample and advances the clock by one.
    pub fn advance(&mut self, rate: u32) -> (r: i32)
        requires
            old(self).wf(),
            rate > 0,
            old(self).clock < u64::MAX,
        ensures
            (r, *final(self)) == step(*old(self), rate),
            final(self).wf(),
    {
        let clock = self.clock;
        match self.active {
            None => {
                self.clock = clock + 1;
                0
            },
            Some(a) => {
                let elapsed: u64 = clock - a.pressed;
                let period: u128 = rate as u128 * 1000;
                assert(FADES_PER_SECOND as u128 == 1000);
                assert(elapsed * a.millihertz <= 0xffff_ffff_ffff_ffff * 0xffff_ffff) by (nonlinear_arith)
                    requires
                        elapsed <= 0xffff_ffff_ffff_ffff,
                        a.millihertz <= 0xffff_ffff,
                ;
                let ph: u128 = (elapsed as u128 * a.millihertz as u128) % period;
                assert(ph * SAMPLE_ONE < period * SAMPLE_ONE <= 0x1_0000_0000 * 1000 * SAMPLE_ONE)
                    by (nonlinear_arith)
                    requires
                        ph < period,
                        period <= 0x1_0000_0000 * 1000,
                ;
                proof {
                    lemma_sawtooth_bounded(ph as int, period as int);
                }
                let saw: u128 = ph * (SAMPLE_ONE as u128) / period;
                proof {
                    lemma_fraction_le(saw as int, a.velocity as int, VELOCITY_MAX as int);
                }
                let vo: u128 = saw * (a.velocity as u128) / (VELOCITY_MAX as u128);
                let w: u128 = if (FILTER_HZ as u128) <= (rate as u128) {
                    FILTER_HZ as u128
                } else {
                    rate as u128
                };
                proof {
                    lemma_blend_bounded(vo as int, self.lopass as int, w as int, rate as int);
                }
                assert(vo * w + self.lopass * (rate - w) <= SAMPLE_ONE * 0x1_0000_0000 * 2)
                    by (nonlinear_arith)
                    requires
                        0 <= vo < SAMPLE_ONE,
                        0 <= self.lopass < SAMPLE_ONE,
                        0 <= w <= rate,
                        rate < 0x1_0000_0000,
                ;
                let lp: u128 = (vo * w + (self.lopass as u128) * (rate as u128 - w)) / (rate as u128);
                let raw: i64 = vo as i64 - lp as i64;
                let ramp: u128 = (elapsed as u128) * (FADES_PER_SECOND as u128);
                let ag: u128 = if ramp <= rate as u128 {
                    ramp
                } else {
                    rate as u128
                };
                let attacked = scale(raw, ag as u64, rate);
                let mut done = false;
                let sample = match a.released {
                    None => attacked,
                    Some(t) => {
                        let since: u128 = ((clock - t) as u128 + 1) * (FADES_PER_SECOND as u128);
                        let rg: u128 = if since >= rate as u128 {
                            0
                        } else {
                            rate as u128 - since
                        };
                        done = rg == 0;
                        scale(attacked, rg as u64, rate)
                    },
                };
                self.clock = clock + 1;
                self.lopass = lp as i32;
                if done {
                    self.active = None;
                }
                sample as i32
            },
        }
    }

    /// Renders `output.len() / channels` whole frames into `output`,
    /// interleaved: each frame's sample is written to all of its channels. The
    /// clock advances by the number of frames. Positions after the last whole
    /// frame are set to zero.
    pub fn render(&mut self, sample_rate: u32, channels: usize, output: &mut Vec<i32>)
        requires
            old(self).wf(),
            sample_rate > 0,
            channels > 0,
            old(self).clock + whole_frames(old(output)@.len() as int, channels as int) <= u64::MAX,
        ensures
            final(self).wf(),
            final(output)@.len() == old(output)@.len(),
            renders(*old(self), sample_rate, channels as int, final(output)@, *final(self)),
            channels_replicated(final(output)@, channels as int),
    {
        let ghost s0 = *self;
        let len = output.len();
        let frames = len / channels;
        proof {
            lemma_fundamental_div_mod(len as int, channels as int);
            assert(frames * channels <= len) by (nonlinear_arith)
                requires
                    len == channels * frames + len % channels,
                    0 <= len % channels,
            ;
        }
        let mut f: usize = 0;
        let mut base: usize = 0;
        while f < frames
            invariant
                output@.len() == len,
                frames == len / channels,
                frames * channels <= len,
                channels > 0,
                sample_rate > 0,
                f <= frames,
                base == f * channels,
                self.wf(),
                *self == after(s0, sample_rate, f as nat),
                self.clock == s0.clock + f,
                s0.clock + frames <= u64::MAX,
                forall|i: int|
                    0 <= i < base ==> #[trigger] output@[i] == frame_sample(
                        s0,
                        sample_rate,
                        (i / (channels as int)) as nat,
                    ),
            decreases frames - f,
        {
            assert(base + channels <= frames * channels) by (nonlinear_arith)
                requires
                    base == f * channels,
                    f < frames,
            ;
            let ghost before = *self;
            let sample = self.advance(sample_rate);
            assert(sample == frame_sample(s0, sample_rate, f as nat));
            let mut c: usize = 0;
            while c < channels
                invariant
                    output@.len() == len,
                    base + channels <= len,
                    base == f * channels,
                    channels > 0,
                    c <= channels,
                    sample == frame_sample(s0, sample_rate, f as nat),
                    forall|i: int|
                        0 <= i < base + c ==> #[trigger] output@[i] == frame_sample(
                            s0,
                            sample_rate,
                            (i / (channels as int)) as nat,
                        ),
                decreases channels - c,
            {
                proof {
                    lemma_fundamental_div_mod_converse(
                        (base + c) as int,
                        channels as int,
                        f as int,
                        c as int,
                    );
                }
                output.set(base + c, sample);
                c = c + 1;
            }
            base = base + channels;
            f = f + 1;
            assert(base == f * channels) by (nonlinear_arith)
                requires
                    base == (f - 1) * channels + channels,
            ;
        }
        let mut k: usize = base;
        while k < len
            invariant
                output@.len() == len,
                base == frames * channels,
                base <= k <= len,
                forall|i: int|
                    0 <= i < base ==> #[trigger] output@[i] == frame_sample(
                        s0,
                        sample_rate,
                        (i / (channels as int)) as nat,
                    ),
                forall|i: int| base <= i < k ==> #[trigger] output@[i] == 0,
            decreases len - k,
        {
            output.set(k, 0);
            k = k + 1;
        }
        assert forall|f: int, c: int|
            0 <= f < frames && 0 <= c < channels implies #[trigger] output@[f * channels + c]
            == output@[f * channels] by {
            assert(f * channels + c < frames * channels) by (nonlinear_arith)
                requires
                    0 <= f < frames,
                    0 <= c < channels,
            ;
            assert(0 <= f * channels) by (nonlinear_arith)
                requires
                    0 <= f,
                    0 <= channels,
            ;
            lemma_fundamental_div_mod_converse(f * channels + c, channels as int, f, c);
            lemma_fundamental_div_mod_converse(f * channels, channels as int, f, 0);
        }
    }
}

/// The synthesis engine with the receiving end of its note event queue.
pub struct Synth {
    pub state: EngineState,
    pub midi_events: crossbeam::channel::Receiver<NoteEvent>,
}

impl Synth {
    /// A silent engine at clock zero that takes its note events from
    /// `midi_events`.
    pub fn new(midi_events: crossbeam::channel::Receiver<NoteEvent>) -> (r: Self)
        ensures
            r.state.wf(),
            r.state == (EngineState { clock: 0, active: None, lopass: 0 }),
    {
        Synth { state: EngineState::new(), midi_events }
    }

    /// Takes out of the queue, in order of arrival, the events that are
    /// queued, at most `NOTE_QUEUE_CAPACITY` of them, and applies them, in
    /// that order; later ones wait for the next call. Never blocks.
    pub fn pump(&mut self)
        requires
            old(self).state.wf(),
        ensures
            final(self).state.wf(),
            final(self).state.clock == old(self).state.clock,
            exists|es: Seq<NoteEvent>|
                es.len() <= NOTE_QUEUE_CAPACITY && #[trigger] apply_all(old(self).state, es)
                    == final(self).state && received_log(final(self).midi_events) == received_log(
                    old(self).midi_events,
                ) + es,
    {
        let ghost es: Seq<NoteEvent> = Seq::empty();
        let ghost s0 = self.state;
        let mut n: usize = 0;
        while n < NOTE_QUEUE_CAPACITY
            invariant
                self.state.wf(),
                n <= NOTE_QUEUE_CAPACITY,
                es.len() == n,
                apply_all(s0, es) == self.state,
                self.state.clock == s0.clock,
                received_log(self.midi_events) == received_log(old(self).midi_events) + es,
            decreases NOTE_QUEUE_CAPACITY - n,
        {
            match try_receive_event(&mut self.midi_events) {
                Some(e) => {
                    self.state.apply_event(e);
                    proof {
                        assert(es.push(e).drop_last() == es);
                        assert(received_log(old(self).midi_events) + es.push(e) =~= (received_log(
                            old(self).midi_events,
                        ) + es).push(e));
                        es = es.push(e);
                    }
                    n = n + 1;
                },
                None => {
                    break;
                },
            }
        }
    }

    /// Renders one buffer: applies the queued note events (see `pump`), then
    /// renders `output.len() / channels` frames of the result (see
    /// `EngineState::render`). Never blocks and never allocates. Once the
    /// sample clock could no longer count the frames, it renders silence and
    /// leaves the engine as it is.
    pub fn play(&mut self, sample_rate: u32, channels: usize, output: &mut Vec<i32>)
        requires
            old(self).state.wf(),
            sample_rate > 0,
            channels > 0,
        ensures
            final(self).state.wf(),
            final(output)@.len() == old(output)@.len(),
            channels_replicated(final(output)@, channels as int),
            old(self).state.clock + whole_frames(old(output)@.len() as int, channels as int) > u64::MAX
                ==> final(self).state == old(self).state && final(self).midi_events == old(
                self,
            ).midi_events && forall|i: int|
                0 <= i < final(output)@.len() ==> #[trigger] final(output)@[i] == 0,
            old(self).state.clock + whole_frames(old(output)@.len() as int, channels as int)
                <= u64::MAX ==> exists|es: Seq<NoteEvent>|
                es.len() <= NOTE_QUEUE_CAPACITY && renders(
                    #[trigger] apply_all(old(self).state, es),
                    sample_rate,
                    channels as int,
                    final(output)@,
                    final(self).state,
                ) && received_log(final(self).midi_events) == received_log(old(self).midi_events) + es,
    {
        let len = output.len();
        let frames = len / channels;
        if self.state.clock <= u64::MAX - (frames as u64) {
            self.pump();
            self.state.render(sample_rate, channels, output);
        } else {
            let mut k: usize = 0;
            while k < len
                invariant
                    output@.len() == len,
                    k <= len,
                    forall|i: int| 0 <= i < k ==> #[trigger] output@[i] == 0,
                decreases len - k,
            {
                output.set(k, 0);
                k = k + 1;
            }
            proof {
                lemma_zeros_replicated(output@, channels as int);
            }
        }
    }
}

proof fn lemma_zeros_replicated(out: Seq<i32>, channels: int)
    requires
        channels > 0,
        forall|i: int| 0 <= i < out.len() ==> #[trigger] out[i] == 0,
    ensures
        channels_replicated(out, channels),
{
    let frames = whole_frames(out.len() as int, channels);
    lemma_fundamental_div_mod(out.len() as int, channels);
    assert forall|f: int, c: int| 0 <= f < frames && 0 <= c < channels implies #[trigger] out[f
        * channels + c] == out[f * channels] by {
        assert(0 <= f * channels && f * channels + c < out.len()) by (nonlinear_arith)
            requires
                0 <= f < frames,
                0 <= c < channels,
                out.len() == channels * frames + (out.len() as int) % channels,
                0 <= (out.len() as int) % channels,
        ;
    }
}

/// The absolute value.
pub open spec fn magnitude(x: int) -> int {
    if x >= 0 { x } else { -x }
}

proof fn lemma_scaled_magnitude(x: int, g: int, r: int)
    requires
        0 <= g <= r,
        0 < r,
    ensures
        magnitude(scaled(x, g, r)) == magnitude(x) * g / r,
        magnitude(scaled(x, g, r)) <= magnitude(x),
{
    lemma_fraction_le(magnitude(x), g, r);
}

proof fn lemma_scaled_bound(x: int, g: int, r: int)
    requires
        magnitude(x) <= SAMPLE_ONE,
        0 <= g <= r,
        0 < r,
    ensures
        magnitude(scaled(x, g, r)) <= SAMPLE_ONE * g / r,
{
    lemma_scaled_magnitude(x, g, r);
    assert(magnitude(x) * g <= SAMPLE_ONE * g) by (nonlinear_arith)
        requires
            0 <= magnitude(x) <= SAMPLE_ONE,
            0 <= g,
    ;
    vstd::arithmetic::div_mod::lemma_div_is_ordered(magnitude(x) * g, SAMPLE_ONE * g, r);
}

proof fn lemma_frame_in_range(s: EngineState, rate: u32)
    requires
        s.wf(),
        rate > 0,
        s.active is Some,
    ensures
        ({
            let a = s.active->0;
            let lp = smoothed(s.lopass as int, voiced(a, s.clock as int, rate as int), rate as int);
            &&& magnitude(voiced(a, s.clock as int, rate as int) - lp) <= SAMPLE_ONE
            &&& 0 <= attack_gain(s.clock - a.pressed, rate as int) <= rate
        }),
{
    let a = s.active->0;
    let e = s.clock - a.pressed;
    let period = rate * 1000;
    let ph = phase(e, a.millihertz as int, rate as int);
    assert(0 <= ph < period) by {
        assert(e * a.millihertz >= 0) by (nonlinear_arith)
            requires
                e >= 0,
                a.millihertz >= 0,
        ;
    }
    lemma_sawtooth_bounded(ph, period);
    let saw = sawtooth(e, a.millihertz as int, rate as int);
    lemma_fraction_le(saw, a.velocity as int, VELOCITY_MAX as int);
    let v = voiced(a, s.clock as int, rate as int);
    lemma_blend_bounded(v, s.lopass as int, filter_weight(rate as int), rate as int);
}

/// Attack bound: the magnitude of a sounding note's sample never exceeds
/// full scale times the attack fade, which starts at zero when the note is
/// pressed and rises with the frames since (see `lemma_attack_gain_rises`).
pub proof fn lemma_attack_envelope(s: EngineState, rate: u32)
    requires
        s.wf(),
        rate > 0,
        s.active is Some,
    ensures
        magnitude(step(s, rate).0 as int) <= SAMPLE_ONE * attack_gain(
            s.clock - s.active->0.pressed,
            rate as int,
        ) / (rate as int),
        s.clock == s.active->0.pressed ==> step(s, rate).0 == 0,
{
    let a = s.active->0;
    let r = rate as int;
    let lp = smoothed(s.lopass as int, voiced(a, s.clock as int, r), r);
    let raw = voiced(a, s.clock as int, r) - lp;
    let ag = attack_gain(s.clock - a.pressed, r);
    lemma_frame_in_range(s, rate);
    lemma_scaled_bound(raw, ag, r);
    let attacked = scaled(raw, ag, r);
    match a.released {
        None => {},
        Some(t) => {
            assert(0 <= release_gain(s.clock - t, r) <= r);
            lemma_scaled_magnitude(attacked, release_gain(s.clock - t, r), r);
        },
    }
    if s.clock == a.pressed {
        assert(ag == 0);
        assert(SAMPLE_ONE * ag / r == 0);
    }
}

/// The attack fade is zero at the press, never falls as frames pass, and
/// stays at full (`rate`) from `rate / FADES_PER_SECOND` frames on.
pub proof fn lemma_attack_gain_rises(e1: int, e2: int, rate: int)
    requires
        0 <= e1 <= e2,
        rate > 0,
    ensures
        attack_gain(0, rate) == 0,
        0 <= attack_gain(e1, rate) <= attack_gain(e2, rate) <= rate,
        e1 * FADES_PER_SECOND >= rate ==> attack_gain(e1, rate) == rate,
{
}

/// Release bound: the magnitude of a released note's sample never exceeds
/// full scale times the release fade, and once that fade has reached zero the
/// frame is silent and the note is cleared.
pub proof fn lemma_release_envelope(s: EngineState, rate: u32)
    requires
        s.wf(),
        rate > 0,
        s.active is Some,
        s.active->0.released is Some,
    ensures
        magnitude(step(s, rate).0 as int) <= SAMPLE_ONE * release_gain(
            s.clock - s.active->0.released->0,
            rate as int,
        ) / (rate as int),
        release_gain(s.clock - s.active->0.released->0, rate as int) == 0 ==> step(s, rate).0 == 0
            && step(s, rate).1.active is None,
{
    let a = s.active->0;
    let t = a.released->0;
    let r = rate as int;
    let lp = smoothed(s.lopass as int, voiced(a, s.clock as int, r), r);
    let raw = voiced(a, s.clock as int, r) - lp;
    let ag = attack_gain(s.clock - a.pressed, r);
    lemma_frame_in_range(s, rate);
    lemma_scaled_magnitude(raw, ag, r);
    let attacked = scaled(raw, ag, r);
    let rg = release_gain(s.clock - t, r);
    lemma_scaled_bound(attacked, rg, r);
    if rg == 0 {
        assert(SAMPLE_ONE * rg / r == 0);
    }
}

/// The release fade never rises as frames pass, and is zero on frame `d`
/// after the release once `d + 1` frames span the fade, that is from frame
/// `rate / FADES_PER_SECOND - 1` on when the fade is a whole number of frames.
pub proof fn lemma_release_gain_falls(d1: int, d2: int, rate: int)
    requires
        0 <= d1 <= d2,
        rate > 0,
    ensures
        release_gain(0, rate) == max_int(rate - FADES_PER_SECOND, 0),
        0 <= release_gain(d2, rate) <= release_gain(d1, rate) <= rate,
        (d1 + 1) * FADES_PER_SECOND >= rate ==> release_gain(d1, rate) == 0,
        rate % (FADES_PER_SECOND as int) == 0 && d1 == rate / (FADES_PER_SECOND as int) - 1
            ==> release_gain(d1, rate) == 0,
{
}

proof fn lemma_after_first(s: EngineState, rate: u32, n: nat)
    ensures
        after(s, rate, n + 1) == after(step(s, rate).1, rate, n),
    decreases n,
{
    if n > 0 {
        lemma_after_first(s, rate, (n - 1) as nat);
        assert(after(s, rate, n + 1) == step(after(s, rate, n), rate).1);
        assert(after(step(s, rate).1, rate, n) == step(
            after(step(s, rate).1, rate, (n - 1) as nat),
            rate,
        ).1);
    } else {
        assert(after(s, rate, 1) == step(after(s, rate, 0), rate).1);
    }
}

/// Silence: from a state with no sounding note, and with no note event, every
/// frame is zero and the state stays silent with its filter untouched, while
/// the clock advances by one per frame.
pub proof fn lemma_silence(s: EngineState, rate: u32, n: nat)
    requires
        s.active is None,
    ensures
        after(s, rate, n).active is None,
        after(s, rate, n).lopass == s.lopass,
        s.clock + n <= u64::MAX ==> after(s, rate, n).clock == s.clock + n,
        forall|k: nat| k < n ==> #[trigger] frame_sample(s, rate, k) == 0,
    decreases n,
{
    if n > 0 {
        lemma_silence(s, rate, (n - 1) as nat);
        assert forall|k: nat| k < n implies #[trigger] frame_sample(s, rate, k) == 0 by {
            if k < n - 1 {
            } else {
                assert(k == n - 1);
            }
        }
    }
}

/// Silence resumes unchanged: rendering silent frames, then, with no note
/// event in between, rendering more gives the same all-zero frames as the
/// first render did.
pub proof fn lemma_silence_resumes(s: EngineState, rate: u32, n: nat, m: nat)
    requires
        s.active is None,
    ensures
        forall|k: nat| k < m ==> #[trigger] frame_sample(after(s, rate, n), rate, k) == frame_sample(
            s,
            rate,
            k,
        ),
        forall|k: nat| k < m ==> #[trigger] frame_sample(after(s, rate, n), rate, k) == 0,
{
    lemma_silence(s, rate, n);
    lemma_silence(after(s, rate, n), rate, m);
    lemma_silence(s, rate, m);
}

/// From the frame on which a release fade ends, and with no further note
/// event, no frame is nonzero.
pub proof fn lemma_release_ends_in_silence(s: EngineState, rate: u32, n: nat)
    requires
        s.wf(),
        rate > 0,
        s.active is Some,
        s.active->0.released is Some,
        (s.clock - s.active->0.released->0 + 1) * FADES_PER_SECOND >= rate,
    ensures
        forall|k: nat| k < n ==> #[trigger] frame_sample(s, rate, k) == 0,
        n > 0 ==> after(s, rate, n).active is None,
{
    lemma_release_envelope(s, rate);
    lemma_release_gain_falls(s.clock - s.active->0.released->0, s.clock - s.active->0.released->0, rate as int);
    if n > 0 {
        let s1 = step(s, rate).1;
        lemma_silence(s1, rate, (n - 1) as nat);
        lemma_after_first(s, rate, (n - 1) as nat);
        assert forall|k: nat| k < n implies #[trigger] frame_sample(s, rate, k) == 0 by {
            if k > 0 {
                lemma_after_first(s, rate, (k - 1) as nat);
                assert(frame_sample(s, rate, k) == frame_sample(s1, rate, (k - 1) as nat));
            }
        }
    }
}

} // verus!
