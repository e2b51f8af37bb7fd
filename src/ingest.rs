//! Note ingestion: what happens to each raw message from the input port, and
//! the decisions of the connection loop that keeps trying to reach a port.

use vstd::prelude::*;
use crate::event::{midi_note_of, midi_to_event, push_note_event, NoteEvent, KEY_COUNT};

verus! {

/// Delay before another attempt to connect to an input port, in
/// milliseconds.
pub const RETRY_DELAY_MS: u64 = 1000;

/// What became of one raw input message.
#[derive(Clone, Copy, Debug, PartialEq, Eq, Structural)]
pub enum IngestOutcome {
    /// A note event was queued for the engine.
    Queued,
    /// A note event was dropped: the queue was full.
    Dropped,
    /// A well-formed message that carries no note event.
    Ignored,
    /// Bytes that do not form a message; to be reported and dropped.
    Malformed,
}

/// Decodes one raw input message and queues its note event without
/// blocking. `pitch_mhz[k]` is the pitch of key `k` in millihertz.
pub fn ingest_message(
    tx: &crossbeam::channel::Sender<NoteEvent>,
    bytes: &[u8],
    pitch_mhz: &[u32],
) -> (r: IngestOutcome)
    requires
        pitch_mhz@.len() == KEY_COUNT,
    ensures
        midi_note_of(bytes@) is Malformed ==> r == IngestOutcome::Malformed,
        midi_note_of(bytes@) is On || midi_note_of(bytes@) is Off ==> r == IngestOutcome::Queued || r
            == IngestOutcome::Dropped,
        midi_note_of(bytes@) is Other ==> r == IngestOutcome::Ignored || r == IngestOutcome::Malformed,
{
    match midi_to_event(bytes, pitch_mhz) {
        Ok(Some(e)) => if push_note_event(tx, e) {
            IngestOutcome::Queued
        } else {
            IngestOutcome::Dropped
        },
        Ok(None) => IngestOutcome::Ignored,
        Err(_) => IngestOutcome::Malformed,
    }
}

/// The result of one attempt to connect to an input port.
pub enum ConnectOutcome {
    /// Connected to the port of this name.
    Connected(String),
    /// No input port is present.
    NoPort,
    /// The attempt failed, for the reason given.
    Failed(String),
}

/// What the connection loop does next.
#[derive(Clone, Copy, Debug, PartialEq, Eq, Structural)]
pub enum IngestAction {
    /// Nothing: a port is connected.
    Idle,
    /// Attempt to connect again after this many milliseconds.
    RetryAfter(u64),
}

/// The name shown for the input port.
pub open spec fn port_label(name: Option<String>) -> Seq<char> {
    match name {
        Some(n) => n@,
        None => "-"@,
    }
}

/// The state of note ingestion: the name of the connected input port, if any.
pub struct InputPort {
    pub name: Option<String>,
}

impl InputPort {
    /// Not connected yet.
    pub fn new() -> (r: Self)
        ensures
            r.name is None,
    {
        InputPort { name: None }
    }

    /// The connected port's name, or `-` when none is connected.
    pub fn get_name(&self) -> (r: String)
        ensures
            r@ == port_label(self.name),
    {
        match &self.name {
            Some(n) => n.clone(),
            None => {
                proof {
                    reveal_strlit("-");
                }
                String::from_str("-")
            },
        }
    }

    /// Takes the result of a connection attempt: on success the port's name
    /// is kept and the loop rests; otherwise nothing changes and another
    /// attempt follows after `RETRY_DELAY_MS`.
    pub fn on_connect(&mut self, outcome: ConnectOutcome) -> (a: IngestAction)
        ensures
            match outcome {
                ConnectOutcome::Connected(n) => final(self).name == Some(n) && a == IngestAction::Idle,
                _ => final(self).name == old(self).name && a == IngestAction::RetryAfter(RETRY_DELAY_MS),
            },
    {
        match outcome {
            ConnectOutcome::Connected(n) => {
                self.name = Some(n);
                IngestAction::Idle
            },
            _ => IngestAction::RetryAfter(RETRY_DELAY_MS),
        }
    }
}

} // verus!
