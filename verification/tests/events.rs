use gravity_sim::controller::{CameraController, KeyCode};
use gravity_sim::events::{
    after_render, handle_window_event, resize_target, surface_extent, AppAction, FrameAction, RenderOutcome,
    WindowEvent,
};

#[test]
fn close_and_escape_exit() {
    let mut c = CameraController::new();
    assert_eq!(handle_window_event(&mut c, WindowEvent::CloseRequested), AppAction::Exit);
    assert_eq!(
        handle_window_event(&mut c, WindowEvent::Keyboard { code: KeyCode::Escape, pressed: true }),
        AppAction::Exit
    );
    assert_eq!(
        handle_window_event(&mut c, WindowEvent::Keyboard { code: KeyCode::Escape, pressed: false }),
        AppAction::Nothing
    );
    assert_eq!(c.controls(), CameraController::new().controls());
}

#[test]
fn keys_reach_the_controller() {
    let mut c = CameraController::new();
    assert_eq!(
        handle_window_event(&mut c, WindowEvent::Keyboard { code: KeyCode::KeyW, pressed: true }),
        AppAction::Nothing
    );
    assert!(c.controls().up);
    assert_eq!(
        handle_window_event(&mut c, WindowEvent::Keyboard { code: KeyCode::ArrowUp, pressed: false }),
        AppAction::Nothing
    );
    assert!(!c.controls().up);
}

#[test]
fn resize_redraw_and_other_events() {
    let mut c = CameraController::new();
    assert_eq!(
        handle_window_event(&mut c, WindowEvent::Resized { width: 800, height: 600 }),
        AppAction::Resize { width: 800, height: 600 }
    );
    assert_eq!(handle_window_event(&mut c, WindowEvent::RedrawRequested), AppAction::Render);
    assert_eq!(handle_window_event(&mut c, WindowEvent::Other), AppAction::Nothing);
}

#[test]
fn zero_sized_resizes_are_ignored() {
    assert_eq!(resize_target(0, 600), None);
    assert_eq!(resize_target(800, 0), None);
    assert_eq!(resize_target(0, 0), None);
    assert_eq!(resize_target(800, 600), Some((800, 600)));
}

#[test]
fn surface_extent_is_at_least_one_pixel() {
    assert_eq!(surface_extent(0, 0), (1, 1));
    assert_eq!(surface_extent(0, 480), (1, 480));
    assert_eq!(surface_extent(640, 480), (640, 480));
}

#[test]
fn render_outcomes() {
    assert_eq!(after_render(RenderOutcome::Presented), FrameAction::Continue);
    assert_eq!(after_render(RenderOutcome::Timeout), FrameAction::Continue);
    assert_eq!(after_render(RenderOutcome::Outdated), FrameAction::Continue);
    assert_eq!(after_render(RenderOutcome::Lost), FrameAction::Reconfigure);
    assert_eq!(after_render(RenderOutcome::OutOfMemory), FrameAction::Exit);
}
