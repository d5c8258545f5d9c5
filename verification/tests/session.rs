use canvas_link::command::Command;
use canvas_link::command_codec::encode_command_batch;
use canvas_link::config::{encode_canvas_config, encode_window_config, CanvasConfig, WindowConfig};
use canvas_link::config::{window_build_steps, WindowBuildStep, WindowPosition};
use canvas_link::engine::EngineState;
use canvas_link::event::Event;
use canvas_link::session::{
    events_message, frame_message, Session, SessionState, EVENTS_FOLLOW, READY_FOR_COMMANDS,
    READY_FOR_WINDOW_CONFIG,
};

fn plain_window_config() -> WindowConfig {
    WindowConfig {
        title: b"t".to_vec(),
        width: 100,
        height: 50,
        flags: None,
        position: None,
        centered: true,
        fullscreen: false,
        hidden: false,
        resizable: false,
        minimized: false,
        maximized: false,
    }
}

#[test]
fn session_reaches_looping_accepts_an_empty_batch_and_quits_cleanly() {
    let mut sess = Session::new();
    assert_eq!(sess.state, SessionState::Connecting);

    assert_eq!(sess.begin(), READY_FOR_WINDOW_CONFIG);
    assert_eq!(sess.state, SessionState::AwaitWindowConfig);

    let cfg = plain_window_config();
    let payload = encode_window_config(&cfg);
    let (decoded, signal) = sess.on_window_config(&payload).unwrap();
    assert_eq!(decoded, cfg);
    assert_eq!(signal, READY_FOR_COMMANDS);
    assert_eq!(sess.state, SessionState::AwaitCanvasConfig);

    let payload = encode_canvas_config(&CanvasConfig { software: false });
    let canvas_cfg = sess.on_canvas_config(&payload).unwrap();
    assert!(!canvas_cfg.software);
    assert_eq!(sess.state, SessionState::Looping);

    // One empty batch is accepted without error.
    let payload = encode_command_batch(&vec![]);
    let cmds = sess.on_command_batch(&payload).unwrap();
    assert_eq!(cmds, vec![]);
    assert_eq!(sess.end_batch().len(), 0);
    assert_eq!(sess.state, SessionState::Looping);

    // A batch carrying Quit terminates the session cleanly.
    let payload = encode_command_batch(&vec![Command::Quit]);
    let cmds = sess.on_command_batch(&payload).unwrap();
    for cmd in cmds {
        assert_eq!(sess.engine.step(cmd), vec![]);
    }
    let released = sess.end_batch();
    assert_eq!(released.len(), 0);
    assert_eq!(sess.state, SessionState::Closed);
    assert_eq!(sess.engine.state, EngineState::Closed);
}

#[test]
fn malformed_batch_fails_only_that_batch() {
    let mut sess = Session::new();
    sess.begin();
    sess.on_window_config(&encode_window_config(&plain_window_config())).unwrap();
    sess.on_canvas_config(&encode_canvas_config(&CanvasConfig { software: true })).unwrap();

    // An unknown tag rejects the whole payload, nothing is applied, and
    // the session keeps looping.
    assert!(sess.on_command_batch(&[1, 0, 0, 0, 200]).is_err());
    assert_eq!(sess.state, SessionState::Looping);

    // The controller resends a corrected batch and the cycle goes on.
    let payload = encode_command_batch(&vec![Command::Present]);
    let cmds = sess.on_command_batch(&payload).unwrap();
    assert_eq!(cmds, vec![Command::Present]);
}

#[test]
fn malformed_window_config_closes_the_session() {
    let mut sess = Session::new();
    sess.begin();
    assert!(sess.on_window_config(&[1, 2, 3]).is_err());
    assert_eq!(sess.state, SessionState::Closed);
}

#[test]
fn malformed_canvas_config_closes_the_session() {
    let mut sess = Session::new();
    sess.begin();
    sess.on_window_config(&encode_window_config(&plain_window_config())).unwrap();
    assert!(sess.on_canvas_config(&[7]).is_err());
    assert_eq!(sess.state, SessionState::Closed);
}

#[test]
fn transport_loss_tears_the_session_down() {
    let mut sess = Session::new();
    sess.begin();
    let released = sess.on_transport_lost();
    assert_eq!(released.len(), 0);
    assert_eq!(sess.state, SessionState::Closed);
    assert_eq!(sess.engine.state, EngineState::Closed);
}

#[test]
fn events_are_sent_only_when_pending() {
    assert_eq!(events_message(&vec![]), None);
    let events = vec![Event::Quit];
    let msg = events_message(&events).unwrap();
    // Tag byte, then the framed batch: count 1, event tag 0.
    assert_eq!(msg, vec![EVENTS_FOLLOW, 5, 0, 0, 0, 1, 0, 0, 0, 0]);
}

#[test]
fn frame_of_an_empty_payload() {
    assert_eq!(frame_message(&vec![]), vec![0, 0, 0, 0]);
}

#[test]
fn build_steps_follow_the_configuration_in_order() {
    let mut cfg = plain_window_config();
    cfg.flags = Some(0x20);
    cfg.position = Some(WindowPosition { x: 3, y: 4 });
    cfg.maximized = true;
    cfg.resizable = true;
    assert_eq!(
        window_build_steps(&cfg),
        vec![
            WindowBuildStep::SetFlags { flags: 0x20 },
            WindowBuildStep::SetWindowPosition { x: 3, y: 4 },
            WindowBuildStep::Centered,
            WindowBuildStep::Maximized,
            WindowBuildStep::Resizable,
        ]
    );
    let bare = WindowConfig { centered: false, ..plain_window_config() };
    assert_eq!(window_build_steps(&bare), vec![]);
}
