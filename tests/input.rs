use paddleball::input::{translate_key, Command, Key};
use paddleball::simulation::{Event, KeyState};

#[test]
fn arrows_steer_on_press_and_release() {
    assert_eq!(translate_key(Key::ArrowLeft, KeyState::Pressed), Command::Send(Event::Left(KeyState::Pressed)));
    assert_eq!(translate_key(Key::ArrowLeft, KeyState::Released), Command::Send(Event::Left(KeyState::Released)));
    assert_eq!(translate_key(Key::ArrowRight, KeyState::Pressed), Command::Send(Event::Right(KeyState::Pressed)));
    assert_eq!(translate_key(Key::ArrowRight, KeyState::Released), Command::Send(Event::Right(KeyState::Released)));
}

#[test]
fn space_resets_only_on_press() {
    assert_eq!(translate_key(Key::Space, KeyState::Pressed), Command::Send(Event::Reset));
    assert_eq!(translate_key(Key::Space, KeyState::Released), Command::Ignore);
}

#[test]
fn escape_exits_and_others_are_ignored() {
    assert_eq!(translate_key(Key::Escape, KeyState::Pressed), Command::Exit);
    assert_eq!(translate_key(Key::Other, KeyState::Pressed), Command::Ignore);
}
