use pomodoro::listener::{listener_step, Listener, ListenerAction, ListenerInput};
use pomodoro::signal::{signal_for_key, ControlSignal, KeyCode, KeyInput, KeyKind};

fn press(c: char) -> KeyInput {
    KeyInput { code: KeyCode::Char(c), kind: KeyKind::Press, control: false }
}

#[test]
fn keys_map_to_signals() {
    assert_eq!(signal_for_key(press('p')), Some(ControlSignal::PauseToggle));
    assert_eq!(signal_for_key(press(' ')), Some(ControlSignal::PauseToggle));
    assert_eq!(signal_for_key(press('q')), Some(ControlSignal::Quit));
    assert_eq!(signal_for_key(press('c')), None);
    assert_eq!(signal_for_key(press('x')), None);
    let ctrl_c = KeyInput { code: KeyCode::Char('c'), kind: KeyKind::Press, control: true };
    assert_eq!(signal_for_key(ctrl_c), Some(ControlSignal::Quit));
    let other = KeyInput { code: KeyCode::Other, kind: KeyKind::Press, control: false };
    assert_eq!(signal_for_key(other), None);
}

#[test]
fn only_presses_count() {
    let release = KeyInput { code: KeyCode::Char('q'), kind: KeyKind::Release, control: false };
    let repeat = KeyInput { code: KeyCode::Char('p'), kind: KeyKind::Repeat, control: false };
    assert_eq!(signal_for_key(release), None);
    assert_eq!(signal_for_key(repeat), None);
}

#[test]
fn listener_stops_on_quit_and_read_failure() {
    assert_eq!(
        listener_step(ListenerInput::Key(press('q'))),
        ListenerAction { send: Some(ControlSignal::Quit), stop: true }
    );
    assert_eq!(
        listener_step(ListenerInput::Key(press('p'))),
        ListenerAction { send: Some(ControlSignal::PauseToggle), stop: false }
    );
    assert_eq!(listener_step(ListenerInput::OtherEvent), ListenerAction { send: None, stop: false });
    assert_eq!(listener_step(ListenerInput::ReadFailed), ListenerAction { send: None, stop: true });
}

#[test]
fn terminal_mode_restored_after_quit() {
    let mut l = Listener::start(false);
    assert!(l.raw && l.reading);
    l.handle(ListenerInput::Key(press('p')));
    assert!(l.raw && l.reading);
    let a = l.handle(ListenerInput::Key(press('q')));
    assert_eq!(a.send, Some(ControlSignal::Quit));
    assert!(!l.reading);
    assert!(!l.raw);
    let again = l.handle(ListenerInput::Key(press('p')));
    assert_eq!(again, ListenerAction { send: None, stop: true });
}

#[test]
fn terminal_mode_restored_after_error_or_session_end() {
    let mut l = Listener::start(false);
    l.handle(ListenerInput::ReadFailed);
    assert!(!l.raw && !l.reading);

    let mut l = Listener::start(true);
    l.handle(ListenerInput::OtherEvent);
    l.stop();
    assert!(l.raw && !l.reading);

    let mut l = Listener::start(false);
    l.stop();
    assert!(!l.raw && !l.reading);
}
