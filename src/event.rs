//! Note events, the bounded queue that carries them to the engine, and the
//! decoding of raw MIDI messages into them.

use vstd::prelude::*;

verus! {

#[verifier::external_type_specification]
#[verifier::external_body]
#[verifier::reject_recursive_types(T)]
pub struct ExSender<T>(crossbeam::channel::Sender<T>);

#[verifier::external_type_specification]
#[verifier::external_body]
#[verifier::reject_recursive_types(T)]
pub struct ExReceiver<T>(crossbeam::channel::Receiver<T>);

/// How many note events the queue holds before it drops new ones.
pub const NOTE_QUEUE_CAPACITY: usize = 256;

/// One note event as the synthesis engine consumes it.
///
/// `millihertz` is the pitch of the note in thousandths of a hertz; `note` is
/// the MIDI key number that identifies the note, so that a release reaches
/// only the note that it names; `velocity` is the MIDI velocity (0..=127,
/// larger values count as 127).
#[derive(Clone, Copy, Debug, PartialEq, Eq, Structural)]
pub enum NoteEvent {
    On { note: u8, millihertz: u32, velocity: u8 },
    Off { note: u8 },
}

/// What a raw MIDI message means to the engine.
#[derive(Clone, Copy, Debug, PartialEq, Eq, Structural)]
pub enum MidiNote {
    /// A note-on with a nonzero velocity.
    On { note: u8, velocity: u8 },
    /// A note-off, or a note-on with velocity zero.
    Off { note: u8 },
    /// A well-formed message of another kind.
    Other,
    /// Bytes that do not form a MIDI message.
    Malformed,
}

/// A byte that starts a MIDI message.
pub open spec fn is_status_byte(b: u8) -> bool {
    b >= 0x80
}

/// A byte that may follow the status byte.
pub open spec fn is_data_byte(b: u8) -> bool {
    b < 0x80
}

/// The meaning of the note messages: a note-off (status `0x8n`) and a note-on
/// (status `0x9n`) carry a key and a velocity byte, and a note-on whose
/// velocity is zero is a note-off. Other bytes are neither.
pub open spec fn midi_note_of(b: Seq<u8>) -> MidiNote {
    if b.len() == 0 || !is_status_byte(b[0]) {
        MidiNote::Malformed
    } else if b[0] / 16 == 8 || b[0] / 16 == 9 {
        if b.len() < 3 || !is_data_byte(b[1]) || !is_data_byte(b[2]) {
            MidiNote::Malformed
        } else if b[0] / 16 == 9 && b[2] != 0 {
            MidiNote::On { note: b[1], velocity: b[2] }
        } else {
            MidiNote::Off { note: b[1] }
        }
    } else {
        MidiNote::Other
    }
}

/// Relies on `wmidi::MidiMessage::try_from` for the decoding of one message:
/// its note-on and note-off arms are as `midi_note_of` states; any other
/// status decodes to another message or to an error.
#[verifier::external_body]
fn decode_midi(bytes: &[u8]) -> (r: MidiNote)
    ensures
        midi_note_of(bytes@) is On ==> r == midi_note_of(bytes@),
        midi_note_of(bytes@) is Off ==> r == midi_note_of(bytes@),
        midi_note_of(bytes@) is Malformed ==> r is Malformed,
        midi_note_of(bytes@) is Other ==> (r is Other || r is Malformed),
{
    match wmidi::MidiMessage::try_from(bytes) {
        Ok(wmidi::MidiMessage::NoteOn(_, note, velocity)) => MidiNote::On {
            note: u8::from(note),
            velocity: u8::from(velocity),
        },
        Ok(wmidi::MidiMessage::NoteOff(_, note, _)) => MidiNote::Off { note: u8::from(note) },
        Ok(_) => MidiNote::Other,
        Err(_) => MidiNote::Malformed,
    }
}

/// Why a raw MIDI message could not be turned into a note event.
#[derive(Clone, Copy, Debug, PartialEq, Eq, Structural)]
pub enum MidiError {
    /// The bytes do not form a MIDI message.
    Malformed,
}

/// Number of MIDI keys.
pub const KEY_COUNT: usize = 128;

/// The note event that a raw MIDI message stands for, given the pitch of each
/// key in millihertz: a note-on becomes `On` with the key's pitch, a note-off
/// becomes `Off`; a message of another kind carries no note event.
pub open spec fn event_of(m: MidiNote, pitch_mhz: Seq<u32>) -> Option<NoteEvent> {
    match m {
        MidiNote::On { note, velocity } => Some(
            NoteEvent::On { note, millihertz: pitch_mhz[note as int], velocity },
        ),
        MidiNote::Off { note } => Some(NoteEvent::Off { note }),
        _ => None,
    }
}

/// Turns one raw MIDI message into a note event. `pitch_mhz[k]` is the pitch
/// of key `k`. Malformed bytes are an error; a well-formed message that is
/// neither a note-on nor a note-off gives `Ok(None)`.
pub fn midi_to_event(bytes: &[u8], pitch_mhz: &[u32]) -> (r: Result<Option<NoteEvent>, MidiError>)
    requires
        pitch_mhz@.len() == KEY_COUNT,
    ensures
        midi_note_of(bytes@) is Malformed ==> r == Err::<Option<NoteEvent>, MidiError>(MidiError::Malformed),
        midi_note_of(bytes@) is On || midi_note_of(bytes@) is Off
            ==> r == Ok::<Option<NoteEvent>, MidiError>(event_of(midi_note_of(bytes@), pitch_mhz@)),
        midi_note_of(bytes@) is Other ==> (r is Err || r == Ok::<Option<NoteEvent>, MidiError>(None)),
{
    match decode_midi(bytes) {
        MidiNote::On { note, velocity } => Ok(
            Some(NoteEvent::On { note, millihertz: pitch_mhz[note as usize], velocity }),
        ),
        MidiNote::Off { note } => Ok(Some(NoteEvent::Off { note })),
        MidiNote::Other => Ok(None),
        MidiNote::Malformed => Err(MidiError::Malformed),
    }
}

/// The capacity of the queue this sending end was made with.
pub uninterp spec fn queue_capacity(tx: crossbeam::channel::Sender<NoteEvent>) -> nat;

/// Every event this receiving end has taken out of its queue, in order. Only
/// this end adds to it.
pub uninterp spec fn received_log(rx: crossbeam::channel::Receiver<NoteEvent>) -> Seq<NoteEvent>;

/// Relies on `crossbeam::channel::bounded`: a new queue of the given
/// capacity, with its two ends.
#[verifier::external_body]
fn bounded_queue(capacity: usize) -> (r: (crossbeam::channel::Sender<NoteEvent>, crossbeam::channel::Receiver<NoteEvent>))
    ensures
        queue_capacity(r.0) == capacity,
        received_log(r.1) == Seq::<NoteEvent>::empty(),
{
    crossbeam::channel::bounded(capacity)
}

/// Relies on `crossbeam::channel::Sender::try_send`, which never blocks: the
/// event is queued, or dropped when the queue is full or closed.
#[verifier::external_body]
fn try_send_event(tx: &crossbeam::channel::Sender<NoteEvent>, e: NoteEvent) -> (sent: bool) {
    tx.try_send(e).is_ok()
}

/// Relies on `crossbeam::channel::Receiver::try_recv`, which never blocks:
/// the oldest queued event, taken out of the queue, or `None` when the queue
/// is empty. What is queued depends on other threads, so only what was taken
/// is stated.
#[verifier::external_body]
pub(crate) fn try_receive_event(rx: &mut crossbeam::channel::Receiver<NoteEvent>) -> (r: Option<NoteEvent>)
    ensures
        r matches Some(e) ==> received_log(*final(rx)) == received_log(*old(rx)).push(e),
        r is None ==> received_log(*final(rx)) == received_log(*old(rx)),
{
    rx.try_recv().ok()
}

/// The note event queue: a bounded queue of `NOTE_QUEUE_CAPACITY` events
/// from the producers of note events to the synthesis engine.
pub fn note_channel() -> (r: (crossbeam::channel::Sender<NoteEvent>, crossbeam::channel::Receiver<NoteEvent>))
    ensures
        queue_capacity(r.0) == NOTE_QUEUE_CAPACITY,
        received_log(r.1) == Seq::<NoteEvent>::empty(),
{
    bounded_queue(NOTE_QUEUE_CAPACITY)
}

/// Queues a note event without blocking. Returns whether it was queued: on a
/// full queue the event is dropped.
pub fn push_note_event(tx: &crossbeam::channel::Sender<NoteEvent>, e: NoteEvent) -> (sent: bool) {
    try_send_event(tx, e)
}

} // verus!
