//! The device session's decisions, over plain values: which of a device's
//! output formats is used, the stream configuration negotiated from it, when
//! the session must be rebuilt, and the per-buffer work of the render
//! callback.

use vstd::prelude::*;
use crate::synth::{apply_all, channels_replicated, renders, whole_frames, EngineState, Synth};
use crate::event::{received_log, NoteEvent, NOTE_QUEUE_CAPACITY};
use crate::tap::{pushed_log, push_sample};

verus! {

#[verifier::external_type_specification]
#[verifier::external_body]
#[verifier::reject_recursive_types(T)]
pub struct ExAtomicCell<T>(crossbeam::atomic::AtomicCell<T>);

/// Relies on `crossbeam::atomic::AtomicCell::new`: a cell holding `v`.
#[verifier::external_body]
pub(crate) fn atomic_cell(v: u32) -> (r: crossbeam::atomic::AtomicCell<u32>) {
    crossbeam::atomic::AtomicCell::new(v)
}

/// Relies on `crossbeam::atomic::AtomicCell::load`, which never blocks. The
/// render thread stores into the cell meanwhile, so nothing is stated of the
/// result.
#[verifier::external_body]
pub(crate) fn load_cell(c: &crossbeam::atomic::AtomicCell<u32>) -> (r: u32) {
    c.load()
}

/// Relies on `crossbeam::atomic::AtomicCell::store`, which never blocks.
#[verifier::external_body]
fn store_cell(c: &crossbeam::atomic::AtomicCell<u32>, v: u32) {
    c.store(v)
}

/// The channel count this design renders: stereo.
pub const NUM_CHANNELS: u16 = 2;

/// The sample formats an output device may offer.
#[derive(Clone, Copy, Debug, PartialEq, Eq, Structural)]
pub enum SampleKind {
    I16,
    U16,
    F32,
}

/// A range of buffer sizes, in frames.
#[derive(Clone, Copy, Debug, PartialEq, Eq, Structural)]
pub struct BufferRange {
    pub min: u32,
    pub max: u32,
}

/// One range of output configurations that a device supports.
#[derive(Clone, Copy, Debug, PartialEq, Eq, Structural)]
pub struct StreamFormat {
    pub channels: u16,
    pub min_sample_rate: u32,
    pub max_sample_rate: u32,
    pub sample_kind: SampleKind,
    /// The range of buffer sizes, in frames, when the device reports one.
    pub buffer_size: Option<BufferRange>,
}

impl StreamFormat {
    /// The ranges are not empty.
    pub open spec fn wf(self) -> bool {
        &&& self.min_sample_rate <= self.max_sample_rate
        &&& match self.buffer_size {
            Some(b) => b.min <= b.max,
            None => true,
        }
    }
}

/// How many frames each render call asks for.
#[derive(Clone, Copy, Debug, PartialEq, Eq, Structural)]
pub enum BufferSetting {
    /// Left to the device.
    Default,
    /// A fixed number of frames.
    Fixed(u32),
}

/// The configuration a stream is opened with.
#[derive(Clone, Copy, Debug, PartialEq, Eq, Structural)]
pub struct StreamConfig {
    pub channels: u16,
    pub sample_rate: u32,
    pub buffer_size: BufferSetting,
}

/// Why a device session could not be set up from the formats alone.
#[derive(Clone, Copy, Debug, PartialEq, Eq, Structural)]
pub enum SetupError {
    /// The device offers no 32-bit float stereo format.
    NoCompatibleFormat,
    /// The first 32-bit float stereo format reports a sample-rate range or a
    /// buffer-size range whose minimum exceeds its maximum.
    InvalidRange,
    /// The negotiated sample rate is zero.
    ZeroSampleRate,
}

impl SetupError {
    /// A human-readable description, for the status text.
    pub fn message(&self) -> (r: String)
        ensures
            *self == SetupError::NoCompatibleFormat ==> r@ == "no valid output audio config found"@,
            *self == SetupError::InvalidRange ==> r@ == "output audio config reports an empty range"@,
            *self == SetupError::ZeroSampleRate ==> r@ == "output audio config has a sample rate of zero"@,
    {
        match self {
            SetupError::NoCompatibleFormat => {
                proof {
                    reveal_strlit("no valid output audio config found");
                }
                String::from_str("no valid output audio config found")
            },
            SetupError::InvalidRange => {
                proof {
                    reveal_strlit("output audio config reports an empty range");
                }
                String::from_str("output audio config reports an empty range")
            },
            SetupError::ZeroSampleRate => {
                proof {
                    reveal_strlit("output audio config has a sample rate of zero");
                }
                String::from_str("output audio config has a sample rate of zero")
            },
        }
    }
}

/// A format this engine renders into: 32-bit float samples, two channels.
pub open spec fn is_compatible(f: StreamFormat) -> bool {
    f.sample_kind == SampleKind::F32 && f.channels == NUM_CHANNELS
}

/// `formats[i]` is the first compatible format.
pub open spec fn is_first_compatible(formats: Seq<StreamFormat>, i: int) -> bool {
    &&& 0 <= i < formats.len()
    &&& is_compatible(formats[i])
    &&& forall|j: int| 0 <= j < i ==> !is_compatible(#[trigger] formats[j])
}

/// `x` brought into `[lo, hi]`.
pub open spec fn clamped(x: int, lo: int, hi: int) -> int {
    if x < lo {
        lo
    } else if x > hi {
        hi
    } else {
        x
    }
}

fn clamp_u32(x: u32, lo: u32, hi: u32) -> (r: u32)
    requires
        lo <= hi,
    ensures
        r == clamped(x as int, lo as int, hi as int),
{
    if x < lo {
        lo
    } else if x > hi {
        hi
    } else {
        x
    }
}

/// The index of the first compatible format, or `None` when there is none.
pub fn select_format(formats: &Vec<StreamFormat>) -> (r: Option<usize>)
    ensures
        match r {
            Some(i) => is_first_compatible(formats@, i as int),
            None => forall|j: int| 0 <= j < formats@.len() ==> !is_compatible(#[trigger] formats@[j]),
        },
{
    let mut i: usize = 0;
    while i < formats.len()
        invariant
            i <= formats@.len(),
            forall|j: int| 0 <= j < i ==> !is_compatible(#[trigger] formats@[j]),
        decreases formats@.len() - i,
    {
        let f = formats[i];
        if f.sample_kind == SampleKind::F32 && f.channels == NUM_CHANNELS {
            return Some(i);
        }
        i = i + 1;
    }
    None
}

/// The buffer setting for a format: a forced size, clamped into the format's
/// range, where the format reports one; otherwise the device's default.
pub open spec fn buffer_setting_for(range: Option<BufferRange>, forced: Option<u32>) -> BufferSetting {
    match (range, forced) {
        (Some(b), Some(n)) => BufferSetting::Fixed(clamped(n as int, b.min as int, b.max as int) as u32),
        _ => BufferSetting::Default,
    }
}

/// The stream configuration for a format: two channels; the device's default
/// sample rate clamped into the format's range; the buffer setting of
/// `buffer_setting_for`.
pub fn negotiate(format: &StreamFormat, default_rate: u32, forced: Option<u32>) -> (r: StreamConfig)
    requires
        format.wf(),
    ensures
        r.channels == format.channels,
        r.sample_rate == clamped(
            default_rate as int,
            format.min_sample_rate as int,
            format.max_sample_rate as int,
        ),
        r.buffer_size == buffer_setting_for(format.buffer_size, forced),
        format.min_sample_rate <= r.sample_rate <= format.max_sample_rate,
        r.buffer_size matches BufferSetting::Fixed(n) ==> format.buffer_size matches Some(b) && b.min
            <= n <= b.max,
{
    let sample_rate = clamp_u32(default_rate, format.min_sample_rate, format.max_sample_rate);
    let buffer_size = match (format.buffer_size, forced) {
        (Some(b), Some(n)) => BufferSetting::Fixed(clamp_u32(n, b.min, b.max)),
        _ => BufferSetting::Default,
    };
    StreamConfig { channels: format.channels, sample_rate, buffer_size }
}

/// Buffer-size clamp: whatever size is forced, the size negotiated lies in
/// the format's range, and it is the size asked for exactly when that lies in
/// the range.
pub proof fn lemma_buffer_size_clamped(lo: u32, hi: u32, n: u32)
    requires
        lo <= hi,
    ensures
        buffer_setting_for(Some(BufferRange { min: lo, max: hi }), Some(n)) matches BufferSetting::Fixed(k) && lo <= k <= hi
            && (k == n <==> lo <= n <= hi) && (n < lo ==> k == lo) && (n > hi ==> k == hi),
{
}

/// The buffer size last observed in the render callback; zero, which no
/// callback reports, means none was observed yet.
pub fn buffer_size_reading(observed: u32) -> (r: Option<u32>)
    ensures
        observed == 0 ==> r is None,
        observed != 0 ==> r == Some(observed),
{
    if observed == 0 {
        None
    } else {
        Some(observed)
    }
}

/// `a` and `b` name the same device (two devices without a name count as the
/// same).
pub open spec fn same_name(a: Option<String>, b: Option<String>) -> bool {
    match (a, b) {
        (Some(x), Some(y)) => x@ == y@,
        (None, None) => true,
        _ => false,
    }
}

fn names_equal(a: &Option<String>, b: &Option<String>) -> (r: bool)
    ensures
        r == same_name(*a, *b),
{
    match (a, b) {
        (Some(x), Some(y)) => x.eq(y),
        (None, None) => true,
        _ => false,
    }
}

/// What the session manager holds besides the device and the stream: the
/// chosen device's name, the format chosen on it, and the forced buffer size.
pub struct SessionSettings {
    pub device_name: Option<String>,
    pub format: Option<StreamFormat>,
    pub forced_buffer_size: Option<u32>,
}

impl SessionSettings {
    /// No device chosen yet, no format, default buffering.
    pub fn new() -> (r: Self)
        ensures
            r.device_name is None,
            r.format is None,
            r.forced_buffer_size is None,
    {
        SessionSettings { device_name: None, format: None, forced_buffer_size: None }
    }

    /// A chosen format has ranges that are not empty and is compatible.
    pub open spec fn wf(self) -> bool {
        match self.format {
            Some(f) => f.wf() && is_compatible(f),
            None => true,
        }
    }

    /// Selects a device by name. Returns whether the session must be rebuilt:
    /// not when the name is that of the current device; otherwise the device
    /// is taken and its format is to be chosen anew, while the forced buffer
    /// size is kept.
    pub fn select_device(&mut self, name: Option<String>) -> (rebuild: bool)
        requires
            old(self).wf(),
        ensures
            final(self).wf(),
            rebuild == !same_name(old(self).device_name, name),
            final(self).forced_buffer_size == old(self).forced_buffer_size,
            rebuild ==> final(self).device_name == name && final(self).format is None,
            !rebuild ==> final(self).device_name == old(self).device_name && final(self).format
                == old(self).format,
    {
        if names_equal(&self.device_name, &name) {
            false
        } else {
            self.device_name = name;
            self.format = None;
            true
        }
    }

    /// Forces a buffer size, or with `None` returns to default buffering.
    /// Returns whether the session must be rebuilt: exactly when the setting
    /// changes.
    pub fn set_forced_buffer_size(&mut self, size: Option<u32>) -> (rebuild: bool)
        requires
            old(self).wf(),
        ensures
            final(self).wf(),
            rebuild == (old(self).forced_buffer_size != size),
            final(self).forced_buffer_size == size,
            final(self).device_name == old(self).device_name,
            final(self).format == old(self).format,
    {
        if self.forced_buffer_size == size {
            false
        } else {
            self.forced_buffer_size = size;
            true
        }
    }

    /// Chooses the first compatible format among those the device offers,
    /// unless one is chosen already. Fails when a format is to be chosen and
    /// none is compatible, or the first compatible one reports an empty
    /// range; then no format is chosen.
    pub fn choose_format(&mut self, formats: &Vec<StreamFormat>) -> (r: Result<StreamFormat, SetupError>)
        requires
            old(self).wf(),
        ensures
            final(self).wf(),
            final(self).device_name == old(self).device_name,
            final(self).forced_buffer_size == old(self).forced_buffer_size,
            old(self).format matches Some(f) ==> r == Ok::<StreamFormat, SetupError>(f)
                && final(self).format == old(self).format,
            old(self).format is None ==> match r {
                Ok(f) => final(self).format == Some(f) && f.wf() && exists|i: int|
                    is_first_compatible(formats@, i) && #[trigger] formats@[i] == f,
                Err(SetupError::NoCompatibleFormat) => final(self).format is None && forall|j: int|
                    0 <= j < formats@.len() ==> !is_compatible(#[trigger] formats@[j]),
                Err(SetupError::InvalidRange) => final(self).format is None && exists|i: int|
                    is_first_compatible(formats@, i) && !(#[trigger] formats@[i]).wf(),
                Err(SetupError::ZeroSampleRate) => false,
            },
    {
        match self.format {
            Some(f) => Ok(f),
            None => match select_format(formats) {
                Some(i) => {
                    let f = formats[i];
                    let ranges_ok = f.min_sample_rate <= f.max_sample_rate && match f.buffer_size {
                        Some(b) => b.min <= b.max,
                        None => true,
                    };
                    if ranges_ok {
                        self.format = Some(f);
                        Ok(f)
                    } else {
                        Err(SetupError::InvalidRange)
                    }
                },
                None => Err(SetupError::NoCompatibleFormat),
            },
        }
    }

    /// The stream configuration for the chosen format (see `negotiate`), or
    /// `None` when no format is chosen.
    pub fn stream_config(&self, default_rate: u32) -> (r: Option<StreamConfig>)
        requires
            self.wf(),
        ensures
            match self.format {
                Some(f) => r matches Some(c) && c.channels == NUM_CHANNELS && c.sample_rate == clamped(
                    default_rate as int,
                    f.min_sample_rate as int,
                    f.max_sample_rate as int,
                ) && c.buffer_size == buffer_setting_for(f.buffer_size, self.forced_buffer_size),
                None => r is None,
            },
    {
        match &self.format {
            Some(f) => Some(negotiate(f, default_rate, self.forced_buffer_size)),
            None => None,
        }
    }

    /// The chosen format's range of buffer sizes, when it reports one.
    pub fn buffer_size_range(&self) -> (r: Option<(u32, u32)>)
        ensures
            match self.format {
                Some(f) => match f.buffer_size {
                    Some(b) => r == Some((b.min, b.max)),
                    None => r is None,
                },
                None => r is None,
            },
    {
        match &self.format {
            Some(f) => match f.buffer_size {
                Some(b) => Some((b.min, b.max)),
                None => None,
            },
            None => None,
        }
    }
}

/// The number of whole frames in a buffer of `len` samples, as the render
/// callback reports it; saturates at `u32::MAX`.
pub open spec fn reported_frames(len: int, channels: int) -> u32 {
    if whole_frames(len, channels) <= u32::MAX { whole_frames(len, channels) as u32 } else { u32::MAX }
}

/// The first channel of each whole frame of `out`.
pub open spec fn first_channel(out: Seq<i32>, channels: int) -> Seq<i32> {
    Seq::new(whole_frames(out.len() as int, channels) as nat, |f: int| out[f * channels])
}

/// The items of `s` whose place in `keep` is marked, in order: a
/// subsequence of `s`.
pub open spec fn kept(s: Seq<i32>, keep: Seq<bool>) -> Seq<i32>
    decreases s.len(),
{
    if s.len() == 0 {
        Seq::empty()
    } else if keep.last() {
        kept(s.drop_last(), keep.drop_last()).push(s.last())
    } else {
        kept(s.drop_last(), keep.drop_last())
    }
}

/// The state the render callback owns: the engine, the producing end of the
/// visualization ring, and the stream's sample rate and channel count.
pub struct StreamRenderer {
    pub synth: Synth,
    pub tap: ringbuf::Producer<i32>,
    /// Where the number of frames of the last callback is stored.
    pub buffer_size: std::sync::Arc<crossbeam::atomic::AtomicCell<u32>>,
    pub sample_rate: u32,
    pub channels: usize,
}

impl StreamRenderer {
    pub open spec fn wf(self) -> bool {
        &&& self.synth.state.wf()
        &&& self.sample_rate > 0
        &&& self.channels > 0
    }

    pub fn new(
        synth: Synth,
        tap: ringbuf::Producer<i32>,
        buffer_size: std::sync::Arc<crossbeam::atomic::AtomicCell<u32>>,
        sample_rate: u32,
        channels: usize,
    ) -> (r: Self)
        requires
            synth.state.wf(),
            sample_rate > 0,
            channels > 0,
        ensures
            r.wf(),
            r.tap == tap,
            r.synth.state == synth.state,
            r.sample_rate == sample_rate,
            r.channels == channels,
    {
        StreamRenderer { synth, tap, buffer_size, sample_rate, channels }
    }

    /// One render callback: stores the number of frames in `buffer_size`,
    /// renders the buffer through the engine (see `Synth::play`), offers the
    /// first channel of each frame, in order, to the visualization ring,
    /// where those that find the ring full are dropped, and returns the
    /// number of frames. Never blocks. Once the sample clock could no longer count
    /// the frames, it renders silence and leaves the engine as it is.
    pub fn process(&mut self, output: &mut Vec<i32>) -> (frames: u32)
        requires
            old(self).wf(),
        ensures
            final(self).wf(),
            final(self).sample_rate == old(self).sample_rate,
            final(self).channels == old(self).channels,
            frames == reported_frames(old(output)@.len() as int, old(self).channels as int),
            final(output)@.len() == old(output)@.len(),
            channels_replicated(final(output)@, old(self).channels as int),
            exists|keep: Seq<bool>|
                pushed_log(final(self).tap) == pushed_log(old(self).tap) + #[trigger] kept(
                    first_channel(final(output)@, old(self).channels as int),
                    keep,
                ),
            old(self).synth.state.clock + whole_frames(old(output)@.len() as int, old(self).channels as int)
                <= u64::MAX ==> exists|es: Seq<NoteEvent>|
                es.len() <= NOTE_QUEUE_CAPACITY && renders(
                    #[trigger] apply_all(old(self).synth.state, es),
                    old(self).sample_rate,
                    old(self).channels as int,
                    final(output)@,
                    final(self).synth.state,
                ) && received_log(final(self).synth.midi_events) == received_log(
                    old(self).synth.midi_events,
                ) + es,
            old(self).synth.state.clock + whole_frames(old(output)@.len() as int, old(self).channels as int)
                > u64::MAX ==> final(self).synth.state == old(self).synth.state && forall|i: int|
                0 <= i < final(output)@.len() ==> #[trigger] final(output)@[i] == 0,
    {
        let channels = self.channels;
        let len = output.len();
        let frames = len / channels;
        let reported: u32 = if frames <= u32::MAX as usize {
            frames as u32
        } else {
            u32::MAX
        };
        store_cell(&self.buffer_size, reported);
        self.synth.play(self.sample_rate, channels, output);
        let ghost rendered = output@;
        let ghost state = self.synth.state;
        let ghost events = self.synth.midi_events;
        let ghost start = pushed_log(self.tap);
        let ghost keep: Seq<bool> = Seq::empty();
        let ghost left = first_channel(rendered, channels as int);
        proof {
            vstd::arithmetic::div_mod::lemma_fundamental_div_mod(len as int, channels as int);
            assert(frames * channels <= len) by (nonlinear_arith)
                requires
                    len == channels * frames + len % channels,
                    0 <= len % channels,
            ;
        }
        let mut f: usize = 0;
        let mut pos: usize = 0;
        while f < frames
            invariant
                output@ == rendered,
                rendered.len() == len,
                self.synth.state == state,
                self.synth.midi_events == events,
                left == first_channel(rendered, channels as int),
                left.len() == frames,
                keep.len() == f,
                pushed_log(self.tap) == start + kept(left.take(f as int), keep),
                self.sample_rate == old(self).sample_rate,
                self.channels == channels,
                channels > 0,
                frames * channels <= len,
                f <= frames,
                pos == f * channels,
            decreases frames - f,
        {
            assert(pos + channels <= frames * channels) by (nonlinear_arith)
                requires
                    pos == f * channels,
                    f < frames,
            ;
            let x = output[pos];
            assert(x == left[f as int]);
            let pushed = push_sample(&mut self.tap, x);
            proof {
                let keep2 = keep.push(pushed);
                assert(left.take(f as int + 1).drop_last() =~= left.take(f as int));
                assert(keep2.drop_last() =~= keep);
                assert(kept(left.take(f as int + 1), keep2) == if pushed {
                    kept(left.take(f as int), keep).push(x)
                } else {
                    kept(left.take(f as int), keep)
                });
                keep = keep2;
            }
            f = f + 1;
            pos = pos + channels;
            assert(pos == f * channels) by (nonlinear_arith)
                requires
                    pos == (f - 1) * channels + channels,
            ;
        }
        proof {
            assert(left.take(frames as int) =~= left);
        }
        reported
    }
}

} // verus!
