use mosaic::keys::{is_quit_key, KeyCode, KeyEvent, KeyModifiers};
use mosaic::scheduler::{Action, Outcome, Phase, Scheduler};

fn key(code: KeyCode) -> KeyEvent {
    KeyEvent { code, modifiers: KeyModifiers { bits: 0 } }
}

fn started() -> Scheduler {
    let mut s = Scheduler::new();
    assert_eq!(s.step(Outcome::Done), Action::CallInit);
    assert_eq!(s.step(Outcome::Done), Action::EnterTerminal);
    assert!(s.terminal_active);
    assert_eq!(s.step(Outcome::Done), Action::CallDraw);
    assert_eq!(s.step(Outcome::Done), Action::FlushOutput);
    assert_eq!(s.step(Outcome::Done), Action::ReadInput);
    assert_eq!(s.phase, Phase::AwaitingInput);
    s
}

#[test]
fn quit_key_detection() {
    assert!(is_quit_key(&key(KeyCode::Char('q'))));
    assert!(!is_quit_key(&key(KeyCode::Char('Q'))));
    assert!(!is_quit_key(&key(KeyCode::Esc)));
}

#[test]
fn key_is_queued_then_handled() {
    let mut s = started();
    let k = key(KeyCode::Down);
    assert_eq!(s.step(Outcome::Key(k)), Action::QueueKey(k));
    assert_eq!(s.step(Outcome::Done), Action::CallHandleKey);
    assert_eq!(s.step(Outcome::Done), Action::CallDraw);
}

#[test]
fn other_input_redraws_without_guest_key_call() {
    let mut s = started();
    assert_eq!(s.step(Outcome::OtherInput), Action::CallDraw);
    assert_eq!(s.phase, Phase::Drawing);
}

#[test]
fn quit_restores_terminal_once() {
    let mut s = started();
    assert_eq!(s.step(Outcome::Key(key(KeyCode::Char('q')))), Action::RestoreTerminal);
    assert_eq!(s.phase, Phase::Shutdown);
    assert_eq!(s.step(Outcome::Done), Action::Exit(true));
    assert_eq!(s.step(Outcome::Done), Action::Exit(true));
}

#[test]
fn load_failure_never_touches_terminal() {
    let mut s = Scheduler::new();
    assert_eq!(s.step(Outcome::Failed), Action::Exit(false));
    assert!(!s.terminal_active);
    assert_eq!(s.step(Outcome::Done), Action::Exit(false));
}

#[test]
fn guest_fault_restores_terminal() {
    let mut s = started();
    assert_eq!(s.step(Outcome::OtherInput), Action::CallDraw);
    assert_eq!(s.step(Outcome::Failed), Action::RestoreTerminal);
    assert_eq!(s.step(Outcome::Done), Action::Exit(false));
}
