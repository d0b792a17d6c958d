use air::hotkey::{function_of, Function};
use air::keycode::{LogicalKey, Platform};
use air::pipeline::{Command, Event, Pipeline, Stage};

const IDS: [u32; 4] = [11, 22, 33, 44];

fn press(id: u32) -> Event {
    Event::Hotkey { id, pressed: true }
}

fn release(id: u32) -> Event {
    Event::Hotkey { id, pressed: false }
}

/// Drives a run from a press of `id` up to the open stream.
fn start_stream(p: &mut Pipeline, id: u32) {
    let mut cmd = p.step(press(id));
    if matches!(cmd, Command::Unhide) {
        cmd = p.step(Event::Done);
    }
    assert!(matches!(cmd, Command::Sleep(1000)));
    assert!(matches!(p.step(Event::Done), Command::Copy));
    assert!(matches!(p.step(Event::Done), Command::Sleep(500)));
    assert!(matches!(p.step(Event::Done), Command::ReadClipboard));
    let mut cmd = p.step(Event::Clipboard(Some("hello".to_string())));
    if matches!(cmd, Command::Focus) {
        cmd = p.step(Event::Done);
    }
    match cmd {
        Command::Publish(t) => assert_eq!(t, "hello"),
        _ => panic!("expected Publish"),
    }
    match p.step(Event::Done) {
        Command::Request(_, t) => assert_eq!(t, "hello"),
        _ => panic!("expected Request"),
    }
    assert_eq!(p.stage(), Stage::Streaming);
}

#[test]
fn functions_by_id() {
    assert_eq!(function_of(&IDS, 11), Some(Function::Rewrite));
    assert_eq!(function_of(&IDS, 22), Some(Function::RewriteDirectly));
    assert_eq!(function_of(&IDS, 33), Some(Function::Translate));
    assert_eq!(function_of(&IDS, 44), Some(Function::TranslateDirectly));
    assert_eq!(function_of(&IDS, 55), None);
    assert!(Function::TranslateDirectly.is_directly());
    assert!(!Function::Translate.is_directly());
}

#[test]
fn press_then_release_starts_one_run() {
    let mut p = Pipeline::new(IDS, 1000, 500);
    assert!(!p.is_running());
    assert!(matches!(p.step(press(22)), Command::Sleep(1000)));
    assert!(p.is_running());
    assert!(matches!(p.step(release(22)), Command::Nothing));
    assert_eq!(p.stage(), Stage::SettlingKeys);
}

#[test]
fn release_alone_starts_nothing() {
    let mut p = Pipeline::new(IDS, 1000, 500);
    assert!(matches!(p.step(release(11)), Command::Listen));
    assert!(!p.is_running());
    assert!(matches!(p.step(press(99)), Command::Listen));
    assert!(!p.is_running());
}

#[test]
fn window_functions_unhide_first() {
    let mut p = Pipeline::new(IDS, 1000, 500);
    assert!(matches!(p.step(press(11)), Command::Unhide));
    assert_eq!(p.stage(), Stage::Unhiding);
}

#[test]
fn empty_clipboard_aborts_without_request() {
    let mut p = Pipeline::new(IDS, 1000, 500);
    p.step(press(22));
    p.step(Event::Done);
    p.step(Event::Done);
    assert!(matches!(p.step(Event::Done), Command::ReadClipboard));
    assert!(matches!(p.step(Event::Clipboard(Some(String::new()))), Command::Listen));
    assert!(!p.is_running());

    p.step(press(33));
    for _ in 0..4 {
        p.step(Event::Done);
    }
    assert_eq!(p.stage(), Stage::Reading);
    assert!(matches!(p.step(Event::Clipboard(None)), Command::Listen));
    assert!(!p.is_running());
}

#[test]
fn directly_chunks_are_injected_in_order() {
    let mut p = Pipeline::new(IDS, 1000, 500);
    start_stream(&mut p, 22);
    match p.step(Event::Chunk("Hel".to_string())) {
        Command::Inject(t) => assert_eq!(t, "Hel"),
        _ => panic!("expected Inject"),
    }
    match p.step(Event::Chunk("lo".to_string())) {
        Command::Inject(t) => assert_eq!(t, "lo"),
        _ => panic!("expected Inject"),
    }
    assert!(matches!(p.step(Event::StreamEnded), Command::Listen));
    assert!(!p.is_running());
}

#[test]
fn window_chunks_are_appended_in_order() {
    let mut p = Pipeline::new(IDS, 1000, 500);
    start_stream(&mut p, 33);
    match p.step(Event::Chunk("Hel".to_string())) {
        Command::Append(t) => assert_eq!(t, "Hel"),
        _ => panic!("expected Append"),
    }
    match p.step(Event::Chunk("lo".to_string())) {
        Command::Append(t) => assert_eq!(t, "lo"),
        _ => panic!("expected Append"),
    }
    assert!(matches!(p.step(Event::StreamEnded), Command::Listen));
}

#[test]
fn stream_failure_is_reported_and_loop_rearms() {
    let mut p = Pipeline::new(IDS, 1000, 500);
    start_stream(&mut p, 44);
    match p.step(Event::Failed("timeout".to_string())) {
        Command::Report(m) => assert_eq!(m, "timeout"),
        _ => panic!("expected Report"),
    }
    assert!(!p.is_running());
    assert!(matches!(p.step(Event::Done), Command::Listen));
    assert!(matches!(p.step(press(44)), Command::Sleep(1000)));
}

#[test]
fn copy_failure_ends_the_run() {
    let mut p = Pipeline::new(IDS, 1000, 500);
    p.step(press(22));
    p.step(Event::Done);
    assert_eq!(p.stage(), Stage::Copying);
    assert!(matches!(p.step(Event::Failed("denied".to_string())), Command::Report(_)));
    assert!(!p.is_running());
}

#[test]
fn abort_mid_copy_gives_modifier_to_release() {
    let mut p = Pipeline::new(IDS, 1000, 500);
    p.step(press(22));
    p.step(Event::Done);
    assert_eq!(p.stage(), Stage::Copying);
    let keys = p.abort(Platform::Windows);
    assert_eq!(keys.0, vec![LogicalKey::Control]);
    assert!(!p.is_running());
    p.step(press(22));
    p.step(Event::Done);
    assert_eq!(p.abort(Platform::MacOs).0, vec![LogicalKey::Meta]);
    assert!(p.abort(Platform::MacOs).0.is_empty());
}

#[test]
fn delays_are_configurable() {
    let mut p = Pipeline::new(IDS, 250, 75);
    assert!(matches!(p.step(press(22)), Command::Sleep(250)));
    p.step(Event::Done);
    assert!(matches!(p.step(Event::Done), Command::Sleep(75)));
}
