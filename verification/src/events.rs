//! What the user asks for, and where it comes from.
//!
//! The window and the terminal both hand back lists of player events; they
//! are put one behind the other.

use crate::clock::TimeSpan;
use std::time::Duration;
use vstd::prelude::*;

verus! {

/// Direction of a relative seek.
#[derive(Clone, Copy, Debug, PartialEq, Eq, Structural)]
pub enum SeekDir {
    Back,
    Forward,
}

/// One request of the user.
#[derive(Clone, Copy, Debug, PartialEq, Eq, Structural)]
pub enum PlayerEvent {
    Quit,
    TogglePause,
    SeekRelative(TimeSpan, SeekDir),
    /// Change of volume, in percent.
    VolumeDelta(i32),
}

/// A key that means something to the player, or any other.
#[derive(Clone, Copy, Debug, PartialEq, Eq, Structural)]
pub enum Key {
    Q,
    Escape,
    Space,
    Left,
    Right,
    Up,
    Down,
    Other,
}

/// The modifiers held down with a key.
#[derive(Clone, Copy, Debug, PartialEq, Eq, Structural)]
pub struct KeyMod {
    pub left_shift: bool,
    pub right_shift: bool,
}

/// One event of the window.
#[derive(Clone, Copy, Debug, PartialEq, Eq, Structural)]
pub enum WindowEvent {
    /// The window is being closed.
    Quit,
    /// A key went down; the key is unknown where it has no code.
    KeyDown { keycode: Option<Key>, keymod: KeyMod },
    Other,
}

/// Seconds of a seek.
pub const SHORT_SEEK_SECS: u64 = 5;

/// Seconds of a seek with shift held.
pub const LONG_SEEK_SECS: u64 = 30;

/// Percent of one step of volume.
pub const VOLUME_STEP: i32 = 5;

/// How far a seek key goes.
pub open spec fn seek_distance(keymod: KeyMod) -> TimeSpan {
    TimeSpan {
        secs: if keymod.left_shift || keymod.right_shift {
            LONG_SEEK_SECS
        } else {
            SHORT_SEEK_SECS
        },
        nanos: 0,
    }
}

/// What a key asks for, if anything.
pub open spec fn key_event(key: Key, keymod: KeyMod) -> Option<PlayerEvent> {
    match key {
        Key::Q | Key::Escape => Some(PlayerEvent::Quit),
        Key::Space => Some(PlayerEvent::TogglePause),
        Key::Left => Some(PlayerEvent::SeekRelative(seek_distance(keymod), SeekDir::Back)),
        Key::Right => Some(PlayerEvent::SeekRelative(seek_distance(keymod), SeekDir::Forward)),
        Key::Up => Some(PlayerEvent::VolumeDelta(VOLUME_STEP)),
        Key::Down => Some(PlayerEvent::VolumeDelta((-VOLUME_STEP) as i32)),
        Key::Other => None,
    }
}

/// What an event of the window asks for, if anything.
pub open spec fn window_event(event: WindowEvent) -> Option<PlayerEvent> {
    match event {
        WindowEvent::Quit => Some(PlayerEvent::Quit),
        WindowEvent::KeyDown { keycode: Some(key), keymod } => key_event(key, keymod),
        _ => None,
    }
}

/// What a list of window events asks for, in order.
pub open spec fn window_events(events: Seq<WindowEvent>) -> Seq<PlayerEvent>
    decreases events.len(),
{
    if events.len() == 0 {
        Seq::empty()
    } else {
        let before = window_events(events.drop_last());
        match window_event(events.last()) {
            Some(event) => before.push(event),
            None => before,
        }
    }
}

/// Translates a key of the window.
pub fn map_sdl_key(key: Key, keymod: KeyMod) -> (event: Option<PlayerEvent>)
    ensures
        event == key_event(key, keymod),
{
    let shift = keymod.left_shift || keymod.right_shift;
    let distance = TimeSpan {
        secs: if shift {
            LONG_SEEK_SECS
        } else {
            SHORT_SEEK_SECS
        },
        nanos: 0,
    };
    match key {
        Key::Q | Key::Escape => Some(PlayerEvent::Quit),
        Key::Space => Some(PlayerEvent::TogglePause),
        Key::Left => Some(PlayerEvent::SeekRelative(distance, SeekDir::Back)),
        Key::Right => Some(PlayerEvent::SeekRelative(distance, SeekDir::Forward)),
        Key::Up => Some(PlayerEvent::VolumeDelta(VOLUME_STEP)),
        Key::Down => Some(PlayerEvent::VolumeDelta(-VOLUME_STEP)),
        Key::Other => None,
    }
}

/// Translates the events of the window, dropping those that ask for nothing.
pub fn poll_events(events: &Vec<WindowEvent>) -> (out: Vec<PlayerEvent>)
    ensures
        out@ == window_events(events@),
{
    let mut out: Vec<PlayerEvent> = Vec::new();
    let mut i: usize = 0;
    assert(events@.take(0) =~= Seq::<WindowEvent>::empty());
    while i < events.len()
        invariant
            i <= events.len(),
            out@ == window_events(events@.take(i as int)),
        decreases events.len() - i,
    {
        assert(events@.take(i + 1).drop_last() =~= events@.take(i as int));
        match events[i] {
            WindowEvent::Quit => out.push(PlayerEvent::Quit),
            WindowEvent::KeyDown { keycode: Some(key), keymod } => {
                if let Some(event) = map_sdl_key(key, keymod) {
                    out.push(event);
                }
            },
            _ => {},
        }
        i = i + 1;
    }
    assert(events@.take(events@.len() as int) =~= events@);
    out
}

/// Merges the events of the output driver, already polled, with those of the
/// terminal. The terminal is polled, for at most `tui_timeout`, only while
/// `tui_active`; its events come last.
pub fn gather<F: FnOnce(Duration) -> Vec<PlayerEvent>>(
    driver_events: Vec<PlayerEvent>,
    tui_active: bool,
    tui_timeout: Duration,
    poll_tui: F,
) -> (out: Vec<PlayerEvent>)
    requires
        tui_active ==> call_requires(poll_tui, (tui_timeout,)),
    ensures
        !tui_active ==> out@ == driver_events@,
        tui_active ==> exists|tui_events: Vec<PlayerEvent>|
            #[trigger] call_ensures(poll_tui, (tui_timeout,), tui_events) && out@
                == driver_events@ + tui_events@,
{
    let mut out = driver_events;
    if tui_active {
        let tui_events = poll_tui(tui_timeout);
        let ghost polled = tui_events;
        let mut rest = tui_events;
        out.append(&mut rest);
        assert(call_ensures(poll_tui, (tui_timeout,), polled) && out@ == driver_events@ + polled@);
    }
    out
}

/// Shift changes how far a seek goes and nothing else: it makes no
/// difference to any other key, nor to the direction.
pub proof fn law_shift_only_lengthens_seeks(key: Key, a: KeyMod, b: KeyMod)
    ensures
        key_event(key, a) == key_event(key, b) || (key_event(key, a) matches Some(
            PlayerEvent::SeekRelative(_, da),
        ) && key_event(key, b) matches Some(PlayerEvent::SeekRelative(_, db)) && da == db),
        (a.left_shift || a.right_shift) == (b.left_shift || b.right_shift) ==> key_event(key, a)
            == key_event(key, b),
{
}

/// Window events are translated one by one, in order: a list followed by
/// another asks for what the first asks for, followed by what the other
/// does.
pub proof fn law_window_events_keep_their_order(a: Seq<WindowEvent>, b: Seq<WindowEvent>)
    ensures
        window_events(a + b) == window_events(a) + window_events(b),
    decreases b.len(),
{
    if b.len() == 0 {
        assert(a + b =~= a);
        assert(window_events(a) + window_events(b) =~= window_events(a));
    } else {
        law_window_events_keep_their_order(a, b.drop_last());
        assert((a + b).drop_last() =~= a + b.drop_last());
        assert((a + b).last() == b.last());
        assert(window_events(a + b) =~= window_events(a) + window_events(b));
    }
}

/// The keys: `q` and escape quit, space pauses, left and right seek five
/// seconds back and forth, or thirty with a shift key held, up and down
/// change the volume by five percent; no other key does anything.
pub proof fn law_keys_ask_for_what_they_stand_for(
    key: Key,
    keymod: KeyMod,
    event: Option<PlayerEvent>,
)
    requires
        call_ensures(map_sdl_key, (key, keymod), event),
    ensures
        event is None <==> key == Key::Other,
        event == Some(PlayerEvent::Quit) <==> key == Key::Q || key == Key::Escape,
        event == Some(PlayerEvent::TogglePause) <==> key == Key::Space,
        event == Some(PlayerEvent::VolumeDelta(5)) <==> key == Key::Up,
        event == Some(PlayerEvent::VolumeDelta((-5) as i32)) <==> key == Key::Down,
        key == Key::Left || key == Key::Right ==> {
            &&& event matches Some(PlayerEvent::SeekRelative(distance, dir))
            &&& distance.secs == (if keymod.left_shift || keymod.right_shift {
                30int
            } else {
                5int
            })
            &&& distance.nanos == 0
            &&& dir == (if key == Key::Left {
                SeekDir::Back
            } else {
                SeekDir::Forward
            })
        },
{
}

/// A list of window events asks for what each of its events asks for, in
/// order: closing the window quits, a key that goes down asks for what it
/// stands for, and nothing else asks for anything.
pub proof fn law_window_events_ask_one_by_one(
    none: &Vec<WindowEvent>,
    of_none: Vec<PlayerEvent>,
    events: &Vec<WindowEvent>,
    asked: Vec<PlayerEvent>,
    event: WindowEvent,
    longer: &Vec<WindowEvent>,
    asked_longer: Vec<PlayerEvent>,
    of_key: Option<PlayerEvent>,
)
    requires
        none@.len() == 0,
        call_ensures(poll_events, (none,), of_none),
        call_ensures(poll_events, (events,), asked),
        longer@ == events@.push(event),
        call_ensures(poll_events, (longer,), asked_longer),
        event matches WindowEvent::KeyDown { keycode: Some(key), keymod } ==> call_ensures(
            map_sdl_key,
            (key, keymod),
            of_key,
        ),
    ensures
        of_none@.len() == 0,
        match event {
            WindowEvent::Quit => asked_longer@ == asked@.push(PlayerEvent::Quit),
            WindowEvent::KeyDown { keycode: Some(_), .. } => match of_key {
                Some(e) => asked_longer@ == asked@.push(e),
                None => asked_longer@ == asked@,
            },
            _ => asked_longer@ == asked@,
        },
{
    assert(longer@.drop_last() =~= events@);
    assert(longer@.last() == event);
}

/// The terminal's events, if it is polled at all, follow the window's, and
/// none of either is lost.
pub proof fn law_terminal_events_come_last<F: FnOnce(Duration) -> Vec<PlayerEvent>>(
    driver_events: Vec<PlayerEvent>,
    tui_active: bool,
    tui_timeout: Duration,
    poll_tui: F,
    out: Vec<PlayerEvent>,
)
    requires
        call_ensures(gather::<F>, (driver_events, tui_active, tui_timeout, poll_tui), out),
    ensures
        !tui_active ==> out@ == driver_events@,
        tui_active ==> exists|polled: Vec<PlayerEvent>| #[trigger]
            call_ensures(poll_tui, (tui_timeout,), polled) && out@ == driver_events@ + polled@,
{
}

} // verus!
