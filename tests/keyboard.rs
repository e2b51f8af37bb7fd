use wayfarer::event::{note_channel, NoteEvent};
use wayfarer::keyboard::{is_key_black, OnScreenKeyboard};

#[test]
fn black_keys() {
    let black: Vec<u8> = (60..72).filter(|&n| is_key_black(n)).collect();
    assert_eq!(black, vec![61, 63, 66, 68, 70]);
    assert!(!is_key_black(0));
    assert!(is_key_black(127 - 6));
}

#[test]
fn key_sends_one_on_and_one_off() {
    let (tx, rx) = note_channel();
    let mut kb = OnScreenKeyboard::new(tx);
    assert_eq!(kb.update_key(60, 261_626, true), Some(NoteEvent::On { note: 60, millihertz: 261_626, velocity: 127 }));
    assert_eq!(kb.update_key(60, 261_626, true), None);
    assert_eq!(kb.update_key(61, 277_183, false), None);
    assert_eq!(kb.update_key(60, 261_626, false), Some(NoteEvent::Off { note: 60 }));
    assert_eq!(kb.update_key(60, 261_626, false), None);
    assert_eq!(rx.try_recv().unwrap(), NoteEvent::On { note: 60, millihertz: 261_626, velocity: 127 });
    assert_eq!(rx.try_recv().unwrap(), NoteEvent::Off { note: 60 });
    assert!(rx.try_recv().is_err());
}
