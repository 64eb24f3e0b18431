//! The sixteen-key pad and the input events that change it.
use vstd::prelude::*;
use crate::custom_errors::QuitGameError;

verus! {

/// Number of keys of the pad.
pub const NB_KEYS: usize = 16;

/// A key of the keyboard, as far as the pad distinguishes them.
#[derive(Debug, Clone, Copy, PartialEq, Eq, Structural)]
pub enum Keycode {
    Num1,
    Num2,
    Num3,
    Num4,
    A,
    Z,
    E,
    R,
    Q,
    S,
    D,
    F,
    W,
    X,
    C,
    V,
    Escape,
    /// Any key that the pad has no use for.
    Other,
}

/// What the input source reports.
#[derive(Debug, Clone, Copy, PartialEq, Eq, Structural)]
pub enum Event {
    /// The window was closed.
    Quit,
    KeyDown(Keycode),
    KeyUp(Keycode),
    /// Anything else.
    Other,
}

/// The key of the pad that a key of the keyboard stands for, if any.
pub open spec fn pad_key(keycode: Keycode) -> Option<u8> {
    match keycode {
        Keycode::Num1 => Some(0x1u8),
        Keycode::Num2 => Some(0x2u8),
        Keycode::Num3 => Some(0x3u8),
        Keycode::Num4 => Some(0xCu8),
        Keycode::A => Some(0x4u8),
        Keycode::Z => Some(0x5u8),
        Keycode::E => Some(0x6u8),
        Keycode::R => Some(0xDu8),
        Keycode::Q => Some(0x7u8),
        Keycode::S => Some(0x8u8),
        Keycode::D => Some(0x9u8),
        Keycode::F => Some(0xEu8),
        Keycode::W => Some(0xAu8),
        Keycode::X => Some(0x0u8),
        Keycode::C => Some(0xBu8),
        Keycode::V => Some(0xFu8),
        Keycode::Escape => None,
        Keycode::Other => None,
    }
}

/// Whether the event ends the run: the window is closed or Escape goes down.
pub open spec fn is_quit(event: Event) -> bool {
    event == Event::Quit || event == Event::KeyDown(Keycode::Escape)
}

/// The pad after one event that does not end the run.
pub open spec fn keys_after_event(keys: Seq<bool>, event: Event) -> Seq<bool> {
    match event {
        Event::KeyDown(keycode) => match pad_key(keycode) {
            Some(key) => keys.update(key as int, true),
            None => keys,
        },
        Event::KeyUp(keycode) => match pad_key(keycode) {
            Some(key) => keys.update(key as int, false),
            None => keys,
        },
        _ => keys,
    }
}

/// The number of events that are handled: those before the first that ends
/// the run, or all of them.
pub open spec fn events_handled(events: Seq<Event>) -> nat
    decreases events.len(),
{
    if events.len() == 0 || is_quit(events[0]) {
        0
    } else {
        1 + events_handled(events.drop_first())
    }
}

/// The pad after the first `n` events, none of which ends the run.
pub open spec fn keys_after_events(keys: Seq<bool>, events: Seq<Event>, n: nat) -> Seq<bool>
    decreases n,
{
    if n == 0 || events.len() == 0 {
        keys
    } else {
        keys_after_event(
            keys_after_events(keys, events, (n - 1) as nat),
            events[n - 1],
        )
    }
}

/// Which keys of the pad are held down.
pub struct KeysState {
    keys: [bool; 16],
}

impl View for KeysState {
    type V = Seq<bool>;

    closed spec fn view(&self) -> Seq<bool> {
        self.keys@
    }
}

/// The lowest key that is down, if any is.
pub open spec fn first_pressed(keys: Seq<bool>) -> Option<u8>
    decreases keys.len(),
{
    if keys.len() == 0 {
        None
    } else {
        match first_pressed(keys.drop_last()) {
            Some(key) => Some(key),
            None => if keys.last() {
                Some((keys.len() - 1) as u8)
            } else {
                None
            },
        }
    }
}

/// `first_pressed` names a key that is down and below which none is, or
/// says that none is down.
pub proof fn lemma_first_pressed(keys: Seq<bool>)
    requires
        keys.len() <= 256,
    ensures
        match first_pressed(keys) {
            Some(key) => key < keys.len() && keys[key as int] && forall|l: int|
                0 <= l < key ==> !keys[l],
            None => forall|l: int| 0 <= l < keys.len() ==> !keys[l],
        },
    decreases keys.len(),
{
    if keys.len() > 0 {
        lemma_first_pressed(keys.drop_last());
        assert(forall|l: int| 0 <= l < keys.len() - 1 ==> keys.drop_last()[l] == keys[l]);
    }
}

impl KeysState {
    /// Every pad has sixteen keys.
    pub proof fn lemma_view_len(&self)
        ensures
            self@.len() == NB_KEYS,
    {
    }

    /// A pad on which no key is down.
    pub fn new() -> (keys_state: Self)
        ensures
            keys_state@ == Seq::new(NB_KEYS as nat, |k: int| false),
    {
        let keys_state = KeysState { keys: [false;16] };
        assert(keys_state@ =~= Seq::new(NB_KEYS as nat, |k: int| false));
        keys_state
    }

    /// Whether `key` is down. A value that names no key of the pad is never
    /// down.
    pub fn read_state(&self, key: u8) -> (down: bool)
        ensures
            down == (key < NB_KEYS && self@[key as int]),
    {
        (key as usize) < NB_KEYS && self.keys[key as usize]
    }

    /// The lowest key that is down, or `None` when no key is down.
    pub fn is_key_pressed(&self) -> (pressed: Option<u8>)
        ensures
            pressed == first_pressed(self@),
            match pressed {
                Some(key) => key < NB_KEYS && self@[key as int] && forall|l: int|
                    0 <= l < key ==> !self@[l],
                None => forall|l: int| 0 <= l < NB_KEYS ==> !self@[l],
            },
    {
        let mut i: usize = 0;
        while i < NB_KEYS
            invariant
                i <= NB_KEYS,
                forall|l: int| 0 <= l < i ==> !self@[l],
            decreases NB_KEYS - i,
        {
            if self.keys[i] {
                proof {
                    lemma_first_pressed(self@);
                }
                return Some(i as u8);
            }
            i += 1;
        }
        proof {
            lemma_first_pressed(self@);
        }
        None
    }

    /// Records that `key` went down (`state` true) or up.
    pub fn update_state(&mut self, key: u8, state: bool)
        requires
            key < NB_KEYS,
        ensures
            final(self)@ == old(self)@.update(key as int, state),
    {
        self.keys[key as usize] = state;
    }
}

/// Applies what the input source reported, in order, to the pad.
///
/// The first event that ends the run stops the handling: the events before
/// it are applied, it and those after it are not, and the result is the
/// request to quit. Without such an event all are applied.
pub fn update(events: &[Event], keys_state: &mut KeysState) -> (result: Result<
    (),
    QuitGameError,
>)
    ensures
        final(keys_state)@ == keys_after_events(
            old(keys_state)@,
            events@,
            events_handled(events@),
        ),
        result is Err <==> exists|i: int| 0 <= i < events@.len() && is_quit(events@[i]),
        result is Err <==> events_handled(events@) < events@.len(),
{
    let mut i: usize = 0;
    proof {
        keys_state.lemma_view_len();
        assert(events@.skip(0) =~= events@);
    }
    while i < events.len()
        invariant
            i <= events@.len(),
            keys_state@.len() == NB_KEYS,
            keys_state@ == keys_after_events(old(keys_state)@, events@, i as nat),
            forall|k: int| 0 <= k < i ==> !is_quit(events@[k]),
            events_handled(events@) == i + events_handled(events@.skip(i as int)),
        decreases events@.len() - i,
    {
        let ghost rest = events@.skip(i as int);
        assert(rest.len() > 0 && rest[0] == events@[i as int]);
        assert(rest.drop_first() =~= events@.skip(i + 1));
        match events[i] {
            Event::Quit => {
                return Err(QuitGameError);
            },
            Event::KeyDown(keycode) => {
                match key_of(keycode) {
                    Some(key) => keys_state.update_state(key, true),
                    None => {
                        if is_escape(keycode) {
                            return Err(QuitGameError);
                        }
                    },
                }
            },
            Event::KeyUp(keycode) => {
                match key_of(keycode) {
                    Some(key) => keys_state.update_state(key, false),
                    None => {},
                }
            },
            Event::Other => {},
        }
        i += 1;
    }
    assert(events@.skip(i as int).len() == 0);
    Ok(())
}

/// The key of the pad that a key of the keyboard stands for, if any.
pub fn key_of(keycode: Keycode) -> (key: Option<u8>)
    ensures
        key == pad_key(keycode),
        key matches Some(k) ==> k < NB_KEYS,
{
    match keycode {
        Keycode::Num1 => Some(0x1),
        Keycode::Num2 => Some(0x2),
        Keycode::Num3 => Some(0x3),
        Keycode::Num4 => Some(0xC),
        Keycode::A => Some(0x4),
        Keycode::Z => Some(0x5),
        Keycode::E => Some(0x6),
        Keycode::R => Some(0xD),
        Keycode::Q => Some(0x7),
        Keycode::S => Some(0x8),
        Keycode::D => Some(0x9),
        Keycode::F => Some(0xE),
        Keycode::W => Some(0xA),
        Keycode::X => Some(0x0),
        Keycode::C => Some(0xB),
        Keycode::V => Some(0xF),
        Keycode::Escape => None,
        Keycode::Other => None,
    }
}

fn is_escape(keycode: Keycode) -> (escape: bool)
    ensures
        escape == (keycode == Keycode::Escape),
{
    match keycode {
        Keycode::Escape => true,
        _ => false,
    }
}

} // verus!
