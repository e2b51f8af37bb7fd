//! The on-screen keyboard's note logic: which keys are black, and turning the
//! pointer state of each key into one note-on when it goes down and one
//! note-off when it comes up.

use vstd::prelude::*;
use crate::event::{push_note_event, NoteEvent, KEY_COUNT};
use crate::synth::VELOCITY_MAX;

verus! {

/// Whether the key of this MIDI number is a black key: C#, D#, F#, G#, A#.
pub open spec fn is_black(note: u8) -> bool {
    let k = note % 12;
    k == 1 || k == 3 || k == 6 || k == 8 || k == 10
}

pub fn is_key_black(note: u8) -> (r: bool)
    ensures
        r == is_black(note),
{
    let k = note % 12;
    k == 1 || k == 3 || k == 6 || k == 8 || k == 10
}

/// The note event for a key whose pointer state goes from `held` to `down`:
/// a note-on at full velocity when it goes down, a note-off when it comes up,
/// none otherwise.
pub open spec fn key_event(note: u8, millihertz: u32, held: bool, down: bool) -> Option<NoteEvent> {
    if down && !held {
        Some(NoteEvent::On { note, millihertz, velocity: VELOCITY_MAX })
    } else if !down && held {
        Some(NoteEvent::Off { note })
    } else {
        None
    }
}

/// The keys held down on the on-screen keyboard, and the queue their note
/// events go to.
pub struct OnScreenKeyboard {
    /// `held[k]`: key `k` is held down.
    pub held: Vec<bool>,
    pub midi_tx: crossbeam::channel::Sender<NoteEvent>,
}

impl OnScreenKeyboard {
    pub open spec fn wf(self) -> bool {
        self.held@.len() == KEY_COUNT
    }

    /// No key held.
    pub fn new(midi_tx: crossbeam::channel::Sender<NoteEvent>) -> (r: Self)
        ensures
            r.wf(),
            forall|k: int| 0 <= k < KEY_COUNT ==> !#[trigger] r.held@[k],
    {
        let mut held: Vec<bool> = Vec::new();
        let mut k: usize = 0;
        while k < KEY_COUNT
            invariant
                k <= KEY_COUNT,
                held@.len() == k,
                forall|j: int| 0 <= j < k ==> !#[trigger] held@[j],
            decreases KEY_COUNT - k,
        {
            held.push(false);
            k = k + 1;
        }
        OnScreenKeyboard { held, midi_tx }
    }

    /// Takes the pointer state of key `note` (pitch `millihertz`) in this
    /// frame, queues its note event (see `key_event`) without blocking, and
    /// returns that event. An event the full queue drops is still returned.
    pub fn update_key(&mut self, note: u8, millihertz: u32, down: bool) -> (r: Option<NoteEvent>)
        requires
            old(self).wf(),
            (note as int) < KEY_COUNT,
        ensures
            final(self).wf(),
            r == key_event(note, millihertz, old(self).held@[note as int], down),
            final(self).held@ == old(self).held@.update(note as int, down),
    {
        let held = self.held[note as usize];
        let event = if down && !held {
            Some(NoteEvent::On { note, millihertz, velocity: VELOCITY_MAX })
        } else if !down && held {
            Some(NoteEvent::Off { note })
        } else {
            None
        };
        self.held.set(note as usize, down);
        match event {
            Some(e) => {
                push_note_event(&self.midi_tx, e);
            },
            None => {},
        }
        event
    }
}

} // verus!
