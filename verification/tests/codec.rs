use canvas_link::command::{
    CanvasColor, CanvasPoint, Command, FontFill, FontStyle, OptionRectangle, Rectangle,
};
use canvas_link::command_codec::{decode_command_batch, encode_command_batch};
use canvas_link::config::{
    decode_canvas_config, decode_window_config, encode_canvas_config, encode_window_config,
    CanvasConfig, WindowConfig, WindowPosition,
};
use canvas_link::event::{decode_event_batch, encode_event_batch, Event};
use canvas_link::session::{frame_message, frame_payload_len};

fn sample_color() -> CanvasColor {
    CanvasColor { r: 12, g: 34, b: 56, a: 78 }
}

fn sample_commands() -> Vec<Command> {
    vec![
        Command::Present,
        Command::SetDrawColor { color: sample_color() },
        Command::SetScale { x_bits: 0x3f80_0000, y_bits: 0x4000_0000 },
        Command::DrawPoint { point: CanvasPoint { x: -1, y: 2 } },
        Command::DrawPoints {
            points: vec![CanvasPoint { x: 0, y: 0 }, CanvasPoint { x: -5, y: 7 }],
        },
        Command::DrawLine {
            p1: CanvasPoint { x: 1, y: 2 },
            p2: CanvasPoint { x: 3, y: 4 },
        },
        Command::DrawLines { points: vec![] },
        Command::DrawRect { rect: Rectangle { x: -3, y: 4, width: 10, height: 20 } },
        Command::DrawRects {
            rects: vec![Rectangle { x: 0, y: 0, width: 1, height: 1 }],
        },
        Command::FillRect { rect: Rectangle { x: 9, y: 9, width: 9, height: 9 } },
        Command::FillRects { rects: vec![] },
        Command::Clear,
        Command::Nop,
        Command::RenderFont {
            text: b"hello".to_vec(),
            fill: FontFill::Shaded { color: sample_color(), background: sample_color() },
            target: Some(OptionRectangle { x: 10, y: 10, width: Some(50), height: None }),
            path: b"font.ttf".to_vec(),
            size: 24,
            style: Some(FontStyle::Bold),
        },
        Command::SetCursor { index: 3, path: b"cursor.png".to_vec() },
        Command::OpenAudio { frequency: 44100, format: 0x8010, channels: 2, chunksize: 1024 },
        Command::PlayMusic { path: b"music.mp3".to_vec() },
        Command::CreateSurface { width: 64, height: 64, format: 0x16161804, index: 1 },
        Command::CreateSurfaceBitmap { path: b"img.bmp".to_vec(), index: 2 },
        Command::LoadSurface { path: b"img.png".to_vec(), index: 4 },
        Command::CreateTexture { format: None, access: 1, width: 32, height: 32, index: 5 },
        Command::CreateTextureSurface { surface: 2, index: 6 },
        Command::LoadTexture { path: b"tex.png".to_vec(), index: 7 },
        Command::CopyRect {
            texture: 7,
            src: Rectangle { x: 0, y: 0, width: 8, height: 8 },
            dst: Rectangle { x: 16, y: 16, width: 8, height: 8 },
        },
        Command::SetDisplayMode { width: 800, height: 600, rate: 60, format: 0x16161804 },
        Command::SetTitle { title: b"a window".to_vec() },
        Command::SetIcon { icon: b"icon.png".to_vec() },
        Command::SetPosition { x: -10, y: 300 },
        Command::SetSize { width: 640, height: 480 },
        Command::SetMinimumSize { width: 100, height: 100 },
        Command::Show,
        Command::Hide,
        Command::Raise,
        Command::Maximize,
        Command::Minimize,
        Command::Restore,
        Command::SetBrightness { brightness_bits: 0x3fe0_0000_0000_0000 },
        Command::SetOpacity { opacity_bits: 0x3f00_0000 },
        Command::Quit,
    ]
}

#[test]
fn command_batch_round_trips_every_variant() {
    let cmds = sample_commands();
    let bytes = encode_command_batch(&cmds);
    assert_eq!(decode_command_batch(&bytes), Some(cmds));
}

#[test]
fn empty_command_batch_round_trips() {
    let cmds: Vec<Command> = vec![];
    let bytes = encode_command_batch(&cmds);
    assert_eq!(bytes, vec![0, 0, 0, 0]);
    assert_eq!(decode_command_batch(&bytes), Some(vec![]));
}

#[test]
fn command_batch_exact_bytes() {
    let cmds = vec![Command::SetDrawColor {
        color: CanvasColor { r: 255, g: 0, b: 0, a: 255 },
    }];
    let bytes = encode_command_batch(&cmds);
    assert_eq!(bytes, vec![1, 0, 0, 0, 1, 255, 0, 0, 255]);
}

#[test]
fn signed_coordinates_use_twos_complement() {
    let cmds = vec![Command::DrawPoint { point: CanvasPoint { x: -1, y: 1 } }];
    let bytes = encode_command_batch(&cmds);
    assert_eq!(
        bytes,
        vec![1, 0, 0, 0, 3, 0xff, 0xff, 0xff, 0xff, 1, 0, 0, 0]
    );
}

#[test]
fn malformed_batches_are_rejected_whole() {
    // Truncated count.
    assert_eq!(decode_command_batch(&[1, 0, 0]), None);
    // Count promises a command that is not there.
    assert_eq!(decode_command_batch(&[1, 0, 0, 0]), None);
    // Unknown command tag.
    assert_eq!(decode_command_batch(&[1, 0, 0, 0, 200]), None);
    // Truncated field: SetDrawColor needs four color bytes.
    assert_eq!(decode_command_batch(&[1, 0, 0, 0, 1, 255, 0]), None);
    // Trailing bytes after a complete batch.
    assert_eq!(decode_command_batch(&[0, 0, 0, 0, 9]), None);
    // A presence byte other than 0 or 1 (CreateTexture's optional format).
    assert_eq!(decode_command_batch(&[1, 0, 0, 0, 21, 7]), None);
}

#[test]
fn event_batch_round_trips_every_variant() {
    let events = vec![
        Event::Quit,
        Event::AppTerminating,
        Event::AppLowMemory,
        Event::AppWillEnterBackground,
        Event::AppDidEnterBackground,
        Event::AppWillEnterForeground,
        Event::KeyUp { keycode: Some(27), scancode: None, modifiers: 3, repeat: false },
        Event::KeyDown { keycode: None, scancode: Some(41), modifiers: 0, repeat: true },
        Event::MouseMotion { which: 0, x: 10, y: -10, xrel: 1, yrel: -1, state: 4 },
        Event::MouseButtonUp { x: 5, y: 6, clicks: 1, which: 0, button: 1 },
        Event::MouseButtonDown { x: 5, y: 6, clicks: 2, which: 0, button: 3 },
        Event::MouseWheel { x: 0, y: 1, which: 0, direction: 0 },
        Event::Unknown,
    ];
    let bytes = encode_event_batch(&events);
    assert_eq!(decode_event_batch(&bytes), Some(events));
}

#[test]
fn event_batch_exact_bytes() {
    let events = vec![Event::Quit, Event::Unknown];
    assert_eq!(encode_event_batch(&events), vec![2, 0, 0, 0, 0, 12]);
}

#[test]
fn malformed_event_batches_are_rejected() {
    assert_eq!(decode_event_batch(&[1, 0, 0, 0, 99]), None);
    assert_eq!(decode_event_batch(&[1, 0, 0, 0]), None);
    assert_eq!(decode_event_batch(&[0, 0, 0, 0, 0]), None);
    // A key event whose repeat flag is not a boolean byte.
    assert_eq!(decode_event_batch(&[1, 0, 0, 0, 6, 0, 0, 0, 0, 2]), None);
}

fn sample_window_config() -> WindowConfig {
    WindowConfig {
        title: b"t".to_vec(),
        width: 100,
        height: 50,
        flags: None,
        position: None,
        centered: true,
        fullscreen: false,
        hidden: false,
        resizable: false,
        minimized: false,
        maximized: false,
    }
}

#[test]
fn window_config_round_trips() {
    let cfg = sample_window_config();
    let bytes = encode_window_config(&cfg);
    assert_eq!(decode_window_config(&bytes), Some(cfg));
}

#[test]
fn window_config_with_flags_and_position_round_trips() {
    let cfg = WindowConfig {
        title: b"main".to_vec(),
        width: 1,
        height: 2,
        flags: Some(0x20),
        position: Some(WindowPosition { x: -30, y: 40 }),
        centered: false,
        fullscreen: true,
        hidden: true,
        resizable: true,
        minimized: true,
        maximized: true,
    };
    let bytes = encode_window_config(&cfg);
    assert_eq!(decode_window_config(&bytes), Some(cfg));
}

#[test]
fn window_config_exact_bytes() {
    let cfg = sample_window_config();
    assert_eq!(
        encode_window_config(&cfg),
        vec![
            1, 0, 0, 0, 0x74, // title "t"
            100, 0, 0, 0, // width
            50, 0, 0, 0, // height
            0, // no flag mask
            0, // no position
            1, 0, 0, 0, 0, 0, // centered only
        ]
    );
}

#[test]
fn malformed_window_config_is_rejected() {
    assert_eq!(decode_window_config(&[]), None);
    // Trailing byte after a complete configuration.
    let mut bytes = encode_window_config(&sample_window_config());
    bytes.push(0);
    assert_eq!(decode_window_config(&bytes), None);
}

#[test]
fn canvas_config_round_trips() {
    for software in [false, true] {
        let cfg = CanvasConfig { software };
        let bytes = encode_canvas_config(&cfg);
        assert_eq!(bytes, vec![if software { 1 } else { 0 }]);
        assert_eq!(decode_canvas_config(&bytes), Some(cfg));
    }
}

#[test]
fn malformed_canvas_config_is_rejected() {
    assert_eq!(decode_canvas_config(&[]), None);
    assert_eq!(decode_canvas_config(&[2]), None);
    assert_eq!(decode_canvas_config(&[0, 0]), None);
}

#[test]
fn frames_carry_a_little_endian_length_prefix() {
    let payload = vec![0xAA, 0xBB, 0xCC];
    let framed = frame_message(&payload);
    assert_eq!(framed, vec![3, 0, 0, 0, 0xAA, 0xBB, 0xCC]);
    assert_eq!(frame_payload_len(&framed[0..4]), 3);
    assert_eq!(frame_payload_len(&[0, 1, 0, 0]), 256);
}

#[test]
fn extreme_values_round_trip() {
    let cmds = vec![
        Command::DrawPoint { point: CanvasPoint { x: i32::MIN, y: i32::MAX } },
        Command::DrawRect {
            rect: Rectangle { x: i32::MIN, y: i32::MAX, width: u32::MAX, height: 0 },
        },
        Command::SetBrightness { brightness_bits: u64::MAX },
        Command::SetTitle { title: vec![] },
        Command::CreateTexture {
            format: Some(u32::MAX),
            access: 0,
            width: 0,
            height: 0,
            index: u32::MAX,
        },
    ];
    let bytes = encode_command_batch(&cmds);
    assert_eq!(decode_command_batch(&bytes), Some(cmds));
}
