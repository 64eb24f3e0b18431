use chip8::custom_errors::QuitGameError;
use chip8::events::{key_of, update, Event, KeysState, Keycode};

fn down(keys_state: &KeysState) -> Vec<u8> {
    (0u8..16).filter(|key| keys_state.read_state(*key)).collect()
}

#[test]
fn new_pad_has_no_key_down() {
    let keys_state = KeysState::new();
    assert_eq!(down(&keys_state), vec![]);
    assert_eq!(keys_state.is_key_pressed(), None);
}

#[test]
fn read_state_of_no_key_is_false() {
    let mut keys_state = KeysState::new();
    for key in 0..16 {
        keys_state.update_state(key, true);
    }
    assert!(keys_state.read_state(15));
    assert!(!keys_state.read_state(16));
    assert!(!keys_state.read_state(255));
}

#[test]
fn is_key_pressed_gives_the_lowest_key() {
    let mut keys_state = KeysState::new();
    keys_state.update_state(0xF, true);
    assert_eq!(keys_state.is_key_pressed(), Some(0xF));
    keys_state.update_state(0x7, true);
    keys_state.update_state(0x9, true);
    assert_eq!(keys_state.is_key_pressed(), Some(0x7));
    keys_state.update_state(0x0, true);
    assert_eq!(keys_state.is_key_pressed(), Some(0x0));
    keys_state.update_state(0x0, false);
    keys_state.update_state(0x7, false);
    assert_eq!(keys_state.is_key_pressed(), Some(0x9));
}

#[test]
fn keyboard_layout() {
    assert_eq!(key_of(Keycode::Num1), Some(0x1));
    assert_eq!(key_of(Keycode::Num2), Some(0x2));
    assert_eq!(key_of(Keycode::Num3), Some(0x3));
    assert_eq!(key_of(Keycode::Num4), Some(0xC));
    assert_eq!(key_of(Keycode::A), Some(0x4));
    assert_eq!(key_of(Keycode::Z), Some(0x5));
    assert_eq!(key_of(Keycode::E), Some(0x6));
    assert_eq!(key_of(Keycode::R), Some(0xD));
    assert_eq!(key_of(Keycode::Q), Some(0x7));
    assert_eq!(key_of(Keycode::S), Some(0x8));
    assert_eq!(key_of(Keycode::D), Some(0x9));
    assert_eq!(key_of(Keycode::F), Some(0xE));
    assert_eq!(key_of(Keycode::W), Some(0xA));
    assert_eq!(key_of(Keycode::X), Some(0x0));
    assert_eq!(key_of(Keycode::C), Some(0xB));
    assert_eq!(key_of(Keycode::V), Some(0xF));
    assert_eq!(key_of(Keycode::Escape), None);
    assert_eq!(key_of(Keycode::Other), None);
}

#[test]
fn update_applies_key_events_in_order() {
    let mut keys_state = KeysState::new();
    let events = vec![
        Event::KeyDown(Keycode::A),
        Event::KeyDown(Keycode::V),
        Event::Other,
        Event::KeyDown(Keycode::Other),
        Event::KeyUp(Keycode::A),
        Event::KeyDown(Keycode::Num4),
        Event::KeyUp(Keycode::Escape),
    ];
    assert_eq!(update(&events, &mut keys_state), Ok(()));
    assert_eq!(down(&keys_state), vec![0xC, 0xF]);
}

#[test]
fn update_keeps_keys_between_calls() {
    let mut keys_state = KeysState::new();
    assert_eq!(update(&vec![Event::KeyDown(Keycode::X)], &mut keys_state), Ok(()));
    assert_eq!(update(&vec![], &mut keys_state), Ok(()));
    assert_eq!(down(&keys_state), vec![0x0]);
    assert_eq!(update(&vec![Event::KeyUp(Keycode::X)], &mut keys_state), Ok(()));
    assert_eq!(down(&keys_state), vec![]);
}

#[test]
fn update_stops_at_quit() {
    let mut keys_state = KeysState::new();
    let events = vec![Event::KeyDown(Keycode::Q), Event::Quit, Event::KeyDown(Keycode::S)];
    assert_eq!(update(&events, &mut keys_state), Err(QuitGameError));
    assert_eq!(down(&keys_state), vec![0x7]);
}

#[test]
fn update_stops_at_escape_down() {
    let mut keys_state = KeysState::new();
    let events = vec![
        Event::KeyDown(Keycode::Escape),
        Event::KeyDown(Keycode::S),
    ];
    assert_eq!(update(&events, &mut keys_state), Err(QuitGameError));
    assert_eq!(down(&keys_state), vec![]);
}

#[test]
fn escape_up_does_not_quit() {
    let mut keys_state = KeysState::new();
    let events = vec![Event::KeyUp(Keycode::Escape), Event::KeyDown(Keycode::S)];
    assert_eq!(update(&events, &mut keys_state), Ok(()));
    assert_eq!(down(&keys_state), vec![0x8]);
}
