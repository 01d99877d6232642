use oxideplay::clock::TimeSpan;
use oxideplay::driver_select::{
    backend_name, no_backend_message, open_failure_message, select_driver, settle, Selection,
};
use oxideplay::events::{
    gather, map_sdl_key, poll_events, Key, KeyMod, PlayerEvent, SeekDir, WindowEvent,
};
use std::time::Duration;

const PLAIN: KeyMod = KeyMod { left_shift: false, right_shift: false };
const LEFT_SHIFT: KeyMod = KeyMod { left_shift: true, right_shift: false };
const RIGHT_SHIFT: KeyMod = KeyMod { left_shift: false, right_shift: true };

fn secs(secs: u64) -> TimeSpan {
    TimeSpan { secs, nanos: 0 }
}

#[test]
fn keys_without_shift() {
    assert_eq!(map_sdl_key(Key::Q, PLAIN), Some(PlayerEvent::Quit));
    assert_eq!(map_sdl_key(Key::Escape, PLAIN), Some(PlayerEvent::Quit));
    assert_eq!(map_sdl_key(Key::Space, PLAIN), Some(PlayerEvent::TogglePause));
    assert_eq!(
        map_sdl_key(Key::Left, PLAIN),
        Some(PlayerEvent::SeekRelative(secs(5), SeekDir::Back))
    );
    assert_eq!(
        map_sdl_key(Key::Right, PLAIN),
        Some(PlayerEvent::SeekRelative(secs(5), SeekDir::Forward))
    );
    assert_eq!(map_sdl_key(Key::Up, PLAIN), Some(PlayerEvent::VolumeDelta(5)));
    assert_eq!(map_sdl_key(Key::Down, PLAIN), Some(PlayerEvent::VolumeDelta(-5)));
    assert_eq!(map_sdl_key(Key::Other, PLAIN), None);
}

#[test]
fn either_shift_lengthens_a_seek() {
    for shift in [LEFT_SHIFT, RIGHT_SHIFT] {
        assert_eq!(
            map_sdl_key(Key::Left, shift),
            Some(PlayerEvent::SeekRelative(secs(30), SeekDir::Back))
        );
        assert_eq!(
            map_sdl_key(Key::Right, shift),
            Some(PlayerEvent::SeekRelative(secs(30), SeekDir::Forward))
        );
        for key in [Key::Q, Key::Escape, Key::Space, Key::Up, Key::Down, Key::Other] {
            assert_eq!(map_sdl_key(key, shift), map_sdl_key(key, PLAIN));
        }
    }
}

#[test]
fn window_events_are_translated_in_order() {
    let events = vec![
        WindowEvent::Other,
        WindowEvent::KeyDown { keycode: Some(Key::Space), keymod: PLAIN },
        WindowEvent::KeyDown { keycode: None, keymod: PLAIN },
        WindowEvent::KeyDown { keycode: Some(Key::Other), keymod: PLAIN },
        WindowEvent::KeyDown { keycode: Some(Key::Up), keymod: LEFT_SHIFT },
        WindowEvent::Quit,
    ];
    assert_eq!(
        poll_events(&events),
        vec![PlayerEvent::TogglePause, PlayerEvent::VolumeDelta(5), PlayerEvent::Quit]
    );
    assert!(poll_events(&vec![]).is_empty());
}

#[test]
fn terminal_events_follow_the_window() {
    let out = gather(vec![PlayerEvent::Quit], true, Duration::from_millis(7), |timeout| {
        assert_eq!(timeout, Duration::from_millis(7));
        vec![PlayerEvent::TogglePause, PlayerEvent::VolumeDelta(-5)]
    });
    assert_eq!(
        out,
        vec![PlayerEvent::Quit, PlayerEvent::TogglePause, PlayerEvent::VolumeDelta(-5)]
    );
}

#[test]
fn inactive_terminal_is_not_polled() {
    let out = gather(vec![PlayerEvent::TogglePause], false, Duration::ZERO, |_| {
        panic!("the terminal was polled")
    });
    assert_eq!(out, vec![PlayerEvent::TogglePause]);
}

#[test]
fn backend_names_are_trimmed() {
    assert_eq!(backend_name(None), None);
    assert_eq!(backend_name(Some("".to_string())), None);
    assert_eq!(backend_name(Some(" \t\r\n\u{a0}\u{3000}".to_string())), None);
    assert_eq!(backend_name(Some("  pulse\n".to_string())), Some("pulse".to_string()));
    assert_eq!(backend_name(Some("a b".to_string())), Some("a b".to_string()));
    // A zero-width space is no white space.
    assert_eq!(backend_name(Some("\u{200b}".to_string())), Some("\u{200b}".to_string()));
}

#[test]
fn white_space_is_what_unicode_says() {
    for n in 0..0x1_1000u32 {
        if let Some(c) = char::from_u32(n) {
            let blank = matches!(n, 0x09..=0x0d | 0x20 | 0x85 | 0xa0 | 0x1680 | 0x2000..=0x200a
                | 0x2028 | 0x2029 | 0x202f | 0x205f | 0x3000);
            assert_eq!(backend_name(Some(c.to_string())).is_none(), blank, "{n:x}");
        }
    }
}

#[test]
fn unset_or_blank_variable_leaves_the_choice() {
    assert!(matches!(select_driver(None), Selection::Preferred));
    assert!(matches!(select_driver(Some("  ".to_string())), Selection::Preferred));
}

#[test]
fn unknown_backend_is_refused() {
    match select_driver(Some(" nosuch ".to_string())) {
        Selection::Refused(e) => {
            assert_eq!(e, "OXIDEPLAY_AUDIO_DRIVER=nosuch — no such sysaudio backend")
        }
        _ => panic!("not refused"),
    }
    match settle("x", None) {
        Selection::Refused(e) => {
            assert_eq!(e, "OXIDEPLAY_AUDIO_DRIVER=x — no such sysaudio backend")
        }
        _ => panic!("not refused"),
    }
}

#[test]
fn built_in_backends_are_found_by_name() {
    for d in oxideav_sysaudio::drivers() {
        match select_driver(Some(format!("\t{} ", d.name()))) {
            Selection::Chosen { driver, name } => {
                assert!(driver == d);
                assert_eq!(name, d.name());
            }
            _ => panic!("not found"),
        }
    }
}

#[test]
fn failure_messages() {
    assert_eq!(no_backend_message(), "sysaudio: no audio backend is available");
    assert_eq!(open_failure_message("alsa", "busy"), "sysaudio: open(alsa): busy");
}
