//! The session manager's state, apart from the device and stream handles:
//! the settings that decide when a session is rebuilt, the cell in which the
//! render callback reports its buffer size, and the visualization tap of the
//! current session.

use vstd::prelude::*;
use crate::session::{
    atomic_cell, buffer_setting_for, buffer_size_reading, clamped, is_compatible,
    is_first_compatible, load_cell, negotiate,
    same_name, SessionSettings, SetupError, StreamConfig, StreamFormat, StreamRenderer,
    NUM_CHANNELS,
};
use crate::synth::Synth;
use crate::tap::{popped_log, pushed_log, VisualizationTap, VISUALIZATION_CAPACITY};

verus! {

/// The session manager's state.
pub struct AudioManager {
    pub settings: SessionSettings,
    /// Frames of the last render callback; zero before the first.
    pub buffer_size: std::sync::Arc<crossbeam::atomic::AtomicCell<u32>>,
    /// The tap of the current session, once one was prepared.
    pub visualization: Option<VisualizationTap>,
}

impl AudioManager {
    pub open spec fn wf(self) -> bool {
        &&& self.settings.wf()
        &&& match self.visualization {
            Some(t) => t.capacity == VISUALIZATION_CAPACITY,
            None => true,
        }
    }

    /// No device chosen, default buffering, no session yet.
    pub fn new() -> (r: Self)
        ensures
            r.wf(),
            r.settings.device_name is None,
            r.settings.format is None,
            r.settings.forced_buffer_size is None,
            r.visualization is None,
    {
        AudioManager {
            settings: SessionSettings::new(),
            buffer_size: std::sync::Arc::new(atomic_cell(0)),
            visualization: None,
        }
    }

    /// The name of the chosen device.
    pub fn get_name(&self) -> (r: Option<String>)
        ensures
            same_name(r, self.settings.device_name),
    {
        match &self.settings.device_name {
            Some(n) => Some(n.clone()),
            None => None,
        }
    }

    /// The number of frames the render callback last asked for, or `None`
    /// before the first callback.
    pub fn get_buffer_size(&self) -> (r: Option<u32>)
        ensures
            r matches Some(n) ==> n > 0,
    {
        buffer_size_reading(load_cell(&self.buffer_size))
    }

    /// The chosen format's range of buffer sizes, when it reports one.
    pub fn get_buffer_size_range(&self) -> (r: Option<(u32, u32)>)
        ensures
            match self.settings.format {
                Some(f) => match f.buffer_size {
                    Some(b) => r == Some((b.min, b.max)),
                    None => r is None,
                },
                None => r is None,
            },
    {
        self.settings.buffer_size_range()
    }

    /// Selects a device by name; returns whether the session must be rebuilt
    /// (see `SessionSettings::select_device`).
    pub fn set_device(&mut self, name: Option<String>) -> (rebuild: bool)
        requires
            old(self).wf(),
        ensures
            final(self).wf(),
            rebuild == !same_name(old(self).settings.device_name, name),
            final(self).settings.forced_buffer_size == old(self).settings.forced_buffer_size,
            rebuild ==> final(self).settings.device_name == name && final(self).settings.format is None,
            !rebuild ==> final(self).settings == old(self).settings,
            final(self).visualization == old(self).visualization,
            final(self).buffer_size == old(self).buffer_size,
    {
        self.settings.select_device(name)
    }

    /// Forces a buffer size, or returns to default buffering; returns whether
    /// the session must be rebuilt: exactly when the setting changes.
    pub fn set_forced_buffer_size(&mut self, buffer_size: Option<u32>) -> (rebuild: bool)
        requires
            old(self).wf(),
        ensures
            final(self).wf(),
            rebuild == (old(self).settings.forced_buffer_size != buffer_size),
            final(self).settings.forced_buffer_size == buffer_size,
            final(self).settings.device_name == old(self).settings.device_name,
            final(self).settings.format == old(self).settings.format,
            final(self).visualization == old(self).visualization,
            final(self).buffer_size == old(self).buffer_size,
    {
        self.settings.set_forced_buffer_size(buffer_size)
    }

    /// Takes out of the current session's tap, oldest first, the
    /// visualization samples it holds, at most `VISUALIZATION_CAPACITY` of
    /// them, and returns them; empty before any session. Never blocks.
    pub fn pop_each_left_vis_buffer(&mut self) -> (r: Vec<i32>)
        requires
            old(self).wf(),
        ensures
            final(self).wf(),
            final(self).settings == old(self).settings,
            final(self).buffer_size == old(self).buffer_size,
            r@.len() <= VISUALIZATION_CAPACITY,
            match old(self).visualization {
                Some(t) => (final(self).visualization matches Some(u) && popped_log(u.consumer)
                    == popped_log(t.consumer) + r@),
                None => r@.len() == 0 && final(self).visualization is None,
            },
    {
        match &mut self.visualization {
            Some(t) => t.drain(),
            None => Vec::new(),
        }
    }

    /// Prepares a new session on the chosen device, given the formats the
    /// device offers and its default sample rate: chooses the format (see
    /// `SessionSettings::choose_format`), negotiates the stream configuration
    /// (see `negotiate`), and makes the render callback's state around
    /// `synth` with a new visualization ring that replaces the old one.
    /// Fails when no format can be chosen or the negotiated sample rate is
    /// zero; then neither a format nor a tap is left.
    pub fn prepare_stream(&mut self, formats: &Vec<StreamFormat>, default_rate: u32, synth: Synth) -> (r:
        Result<(StreamConfig, StreamRenderer), SetupError>)
        requires
            old(self).wf(),
            synth.state.wf(),
        ensures
            final(self).wf(),
            final(self).settings.device_name == old(self).settings.device_name,
            final(self).settings.forced_buffer_size == old(self).settings.forced_buffer_size,
            final(self).buffer_size == old(self).buffer_size,
            old(self).settings.format matches Some(f) ==> (r is Ok <==> rate_for(f, default_rate) > 0)
                && (r is Ok ==> final(self).settings.format == old(self).settings.format) && (r is Err
                ==> r == Err::<(StreamConfig, StreamRenderer), SetupError>(SetupError::ZeroSampleRate)),
            old(self).settings.format is None ==> match r {
                Ok(_) => exists|i: int|
                    is_first_compatible(formats@, i) && final(self).settings.format == Some(
                        #[trigger] formats@[i],
                    ),
                Err(SetupError::NoCompatibleFormat) => forall|j: int|
                    0 <= j < formats@.len() ==> !is_compatible(#[trigger] formats@[j]),
                Err(SetupError::InvalidRange) => exists|i: int|
                    is_first_compatible(formats@, i) && !(#[trigger] formats@[i]).wf(),
                Err(SetupError::ZeroSampleRate) => exists|i: int|
                    is_first_compatible(formats@, i) && (#[trigger] formats@[i]).wf() && rate_for(
                        formats@[i],
                        default_rate,
                    ) == 0,
            },
            match r {
                Ok((c, rd)) => {
                    &&& (final(self).settings.format matches Some(f) && c.channels == NUM_CHANNELS
                        && c.sample_rate == rate_for(f, default_rate) && c.sample_rate > 0
                        && c.buffer_size == buffer_setting_for(
                        f.buffer_size,
                        old(self).settings.forced_buffer_size,
                    ))
                    &&& rd.wf()
                    &&& rd.synth.state == synth.state
                    &&& rd.sample_rate == c.sample_rate
                    &&& rd.channels == NUM_CHANNELS
                    &&& pushed_log(rd.tap) == Seq::<i32>::empty()
                    &&& (final(self).visualization matches Some(t) && popped_log(t.consumer)
                        == Seq::<i32>::empty())
                },
                Err(_) => {
                    &&& final(self).settings.format is None
                    &&& final(self).visualization is None
                },
            },
    {
        self.visualization = None;
        match self.settings.choose_format(formats) {
            Err(e) => Err(e),
            Ok(f) => {
                let config = negotiate(&f, default_rate, self.settings.forced_buffer_size);
                if config.sample_rate == 0 {
                    self.settings.format = None;
                    Err(SetupError::ZeroSampleRate)
                } else {
                    let (producer, tap) = VisualizationTap::new(VISUALIZATION_CAPACITY);
                    self.visualization = Some(tap);
                    let renderer = StreamRenderer::new(
                        synth,
                        producer,
                        self.buffer_size.clone(),
                        config.sample_rate,
                        NUM_CHANNELS as usize,
                    );
                    Ok((config, renderer))
                }
            },
        }
    }
}

/// The sample rate negotiated for a format: the device's default rate
/// clamped into the format's range.
pub open spec fn rate_for(f: StreamFormat, default_rate: u32) -> int {
    clamped(default_rate as int, f.min_sample_rate as int, f.max_sample_rate as int)
}

} // verus!
