use canvas_link::command::{CanvasColor, CanvasPoint, Command, OptionRectangle, Rectangle};
use canvas_link::engine::{resolve_target, Engine, EngineState};
use canvas_link::table::{LookupError, ResourceKind};

#[test]
fn batch_executes_in_order_and_quit_skips_the_rest() {
    // [SetDrawColor(255,0,0,255), Clear, Present, Quit, DrawPoint(1,1)]:
    // the first four run in order, the engine closes, and the trailing
    // draw is observably skipped.
    let red = CanvasColor { r: 255, g: 0, b: 0, a: 255 };
    let batch = vec![
        Command::SetDrawColor { color: red },
        Command::Clear,
        Command::Present,
        Command::Quit,
        Command::DrawPoint { point: CanvasPoint { x: 1, y: 1 } },
    ];
    let mut engine = Engine::new();
    let mut performed: Vec<Command> = Vec::new();
    for cmd in batch {
        performed.extend(engine.step(cmd));
    }
    assert_eq!(
        performed,
        vec![
            Command::SetDrawColor { color: red },
            Command::Clear,
            Command::Present,
        ]
    );
    assert_eq!(engine.state, EngineState::Draining);
    let released = engine.end_batch();
    assert_eq!(engine.state, EngineState::Closed);
    assert_eq!(released.len(), 0);
    // A closed engine accepts no further commands, in this or any batch.
    assert_eq!(engine.step(Command::Present), vec![]);
}

#[test]
fn missing_surface_leaves_destination_unpopulated() {
    // CreateTextureFromSurface(surface_handle=7, dest=9) when handle 7 was
    // never stored: the command is a no-op and 9 stays absent.
    let mut engine = Engine::new();
    let fwd = engine.step(Command::CreateTextureSurface { surface: 7, index: 9 });
    assert_eq!(fwd, vec![]);
    assert_eq!(
        engine.table.get(9, ResourceKind::Texture),
        Err(LookupError::NotFound)
    );
}

#[test]
fn wrong_kind_source_also_skips_the_command() {
    let mut engine = Engine::new();
    // Handle 7 exists, but holds a texture, not a surface.
    engine.step(Command::CreateTexture { format: None, access: 0, width: 8, height: 8, index: 7 });
    engine.complete_creation(7, ResourceKind::Texture);
    let fwd = engine.step(Command::CreateTextureSurface { surface: 7, index: 9 });
    assert_eq!(fwd, vec![]);
    assert_eq!(
        engine.table.get(9, ResourceKind::Texture),
        Err(LookupError::NotFound)
    );
}

#[test]
fn present_surface_forwards_the_creation_and_success_stores_it() {
    let mut engine = Engine::new();
    let create = Command::CreateSurface { width: 8, height: 8, format: 1, index: 7 };
    assert_eq!(engine.step(create.clone()), vec![create]);
    engine.complete_creation(7, ResourceKind::Surface);
    assert!(engine.table.get(7, ResourceKind::Surface).is_ok());

    let derive_cmd = Command::CreateTextureSurface { surface: 7, index: 9 };
    assert_eq!(engine.step(derive_cmd.clone()), vec![derive_cmd]);
    engine.complete_creation(9, ResourceKind::Texture);
    assert!(engine.table.get(9, ResourceKind::Texture).is_ok());
}

#[test]
fn copy_rect_forwards_only_with_a_texture_at_the_handle() {
    let mut engine = Engine::new();
    let rect = Rectangle { x: 0, y: 0, width: 4, height: 4 };
    let copy = Command::CopyRect { texture: 5, src: rect, dst: rect };
    assert_eq!(engine.step(copy.clone()), vec![]);
    engine.step(Command::CreateTexture { format: None, access: 0, width: 4, height: 4, index: 5 });
    engine.complete_creation(5, ResourceKind::Texture);
    assert_eq!(engine.step(copy.clone()), vec![copy]);
}

#[test]
fn replacement_hands_back_the_displaced_resource_once() {
    let mut engine = Engine::new();
    engine.step(Command::CreateSurface { width: 8, height: 8, format: 1, index: 7 });
    assert_eq!(engine.complete_creation(7, ResourceKind::Surface), None);
    engine.step(Command::LoadSurface { path: b"other.png".to_vec(), index: 7 });
    let prev = engine.complete_creation(7, ResourceKind::Surface);
    assert!(prev.is_some());
    assert_eq!(prev.unwrap().serial, 0);
    // The displaced serial is gone; the live one is the second creation.
    let live = engine.table.get(7, ResourceKind::Surface).unwrap();
    assert_eq!(live.serial, 1);
}

#[test]
fn nop_and_icon_commands_are_accepted_and_ignored() {
    let mut engine = Engine::new();
    assert_eq!(engine.step(Command::Nop), vec![]);
    assert_eq!(engine.step(Command::SetIcon { icon: b"icon.png".to_vec() }), vec![]);
    assert_eq!(engine.state, EngineState::Running);
}

#[test]
fn render_font_target_defaults_to_the_natural_size() {
    // target {x:10, y:10, width: None, height: None}: both extents come
    // from the rasterized texture.
    let t = Some(OptionRectangle { x: 10, y: 10, width: None, height: None });
    assert_eq!(
        resolve_target(&t, 120, 40),
        Some(Rectangle { x: 10, y: 10, width: 120, height: 40 })
    );
    // width Some(50), height None: explicit width, natural height.
    let t = Some(OptionRectangle { x: 10, y: 10, width: Some(50), height: None });
    assert_eq!(
        resolve_target(&t, 120, 40),
        Some(Rectangle { x: 10, y: 10, width: 50, height: 40 })
    );
    // width None, height Some(30): natural width, explicit height.
    let t = Some(OptionRectangle { x: 10, y: 10, width: None, height: Some(30) });
    assert_eq!(
        resolve_target(&t, 120, 40),
        Some(Rectangle { x: 10, y: 10, width: 120, height: 30 })
    );
    // Both explicit.
    let t = Some(OptionRectangle { x: 10, y: 10, width: Some(50), height: Some(30) });
    assert_eq!(
        resolve_target(&t, 120, 40),
        Some(Rectangle { x: 10, y: 10, width: 50, height: 30 })
    );
    // No target at all: composite over the whole canvas.
    assert_eq!(resolve_target(&None, 120, 40), None);
}

#[test]
fn teardown_on_quit_releases_every_tracked_resource() {
    let mut engine = Engine::new();
    engine.step(Command::CreateSurface { width: 8, height: 8, format: 1, index: 1 });
    engine.complete_creation(1, ResourceKind::Surface);
    engine.step(Command::SetCursor { index: 2, path: b"c.png".to_vec() });
    engine.complete_creation(2, ResourceKind::Cursor);
    engine.step(Command::Quit);
    let mut released = engine.end_batch();
    released.sort_by_key(|e| e.0);
    let handles: Vec<u32> = released.iter().map(|e| e.0).collect();
    assert_eq!(handles, vec![1, 2]);
    assert_eq!(engine.state, EngineState::Closed);
}
