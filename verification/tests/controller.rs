use gravity_sim::controller::{Binding, CameraAction, CameraController, Controls, KeyCode, MouseButton};

fn released() -> Controls {
    Controls {
        up: false,
        down: false,
        left: false,
        right: false,
        shift: false,
        number1: false,
        number2: false,
        number3: false,
        number4: false,
        left_mouse: false,
    }
}

fn held(c: Controls, b: Binding) -> bool {
    match b {
        Binding::Up => c.up,
        Binding::Left => c.left,
        Binding::Down => c.down,
        Binding::Right => c.right,
        Binding::Shift => c.shift,
        Binding::Number1 => c.number1,
        Binding::Number2 => c.number2,
        Binding::Number3 => c.number3,
        Binding::Number4 => c.number4,
    }
}

#[test]
fn new_controller_holds_nothing() {
    let c = CameraController::new();
    assert_eq!(c.controls(), released());
    assert!(!c.is_left_mouse_pressed);
}

#[test]
fn every_bound_key_sets_its_command() {
    let table = [
        (KeyCode::KeyW, Binding::Up),
        (KeyCode::ArrowUp, Binding::Up),
        (KeyCode::KeyA, Binding::Left),
        (KeyCode::ArrowLeft, Binding::Left),
        (KeyCode::KeyS, Binding::Down),
        (KeyCode::ArrowDown, Binding::Down),
        (KeyCode::KeyD, Binding::Right),
        (KeyCode::ArrowRight, Binding::Right),
        (KeyCode::ShiftLeft, Binding::Shift),
        (KeyCode::ShiftRight, Binding::Shift),
        (KeyCode::Digit1, Binding::Number1),
        (KeyCode::Numpad1, Binding::Number1),
        (KeyCode::Digit2, Binding::Number2),
        (KeyCode::Numpad2, Binding::Number2),
        (KeyCode::Digit3, Binding::Number3),
        (KeyCode::Numpad3, Binding::Number3),
        (KeyCode::Digit4, Binding::Number4),
        (KeyCode::Numpad4, Binding::Number4),
    ];
    let all = [
        Binding::Up,
        Binding::Left,
        Binding::Down,
        Binding::Right,
        Binding::Shift,
        Binding::Number1,
        Binding::Number2,
        Binding::Number3,
        Binding::Number4,
    ];
    for (code, binding) in table {
        let mut c = CameraController::new();
        assert!(c.handle_key(code, true));
        let now = c.controls();
        for b in all {
            assert_eq!(held(now, b), b == binding, "{:?} {:?}", code, b);
        }
        assert!(!now.left_mouse);
        assert!(c.handle_key(code, false));
        assert_eq!(c.controls(), released());
    }
}

#[test]
fn unbound_keys_are_ignored() {
    let mut c = CameraController::new();
    c.handle_key(KeyCode::KeyW, true);
    let before = c.controls();
    assert!(!c.handle_key(KeyCode::Escape, true));
    assert!(!c.handle_key(KeyCode::Other, true));
    assert!(!c.handle_key(KeyCode::Other, false));
    assert_eq!(c.controls(), before);
}

#[test]
fn last_key_event_wins() {
    let mut c = CameraController::new();
    c.handle_key(KeyCode::KeyD, true);
    c.handle_key(KeyCode::ArrowRight, false);
    assert!(!c.controls().right);
    c.handle_key(KeyCode::ArrowRight, true);
    c.handle_key(KeyCode::KeyD, true);
    assert!(c.controls().right);
}

#[test]
fn only_the_left_mouse_button_counts() {
    let mut c = CameraController::new();
    assert!(!c.handle_mouse(MouseButton::Right, true));
    assert!(!c.handle_mouse(MouseButton::Middle, true));
    assert!(!c.handle_mouse(MouseButton::Other(4), true));
    assert_eq!(c.controls(), released());
    assert!(c.handle_mouse(MouseButton::Left, true));
    assert!(c.is_left_mouse_pressed);
    assert!(c.controls().left_mouse);
    assert!(c.handle_mouse(MouseButton::Left, false));
    assert!(!c.is_left_mouse_pressed);
}

#[test]
fn forward_needs_room() {
    let mut c = CameraController::new();
    c.handle_key(KeyCode::KeyW, true);
    assert_eq!(c.camera_actions(true), vec![CameraAction::DollyForward]);
    assert_eq!(c.camera_actions(false), vec![]);
    c.handle_key(KeyCode::ShiftLeft, true);
    assert_eq!(c.camera_actions(true), vec![CameraAction::PanUp]);
    assert_eq!(c.camera_actions(false), vec![]);
}

#[test]
fn shift_turns_moves_into_translations() {
    let mut c = CameraController::new();
    c.handle_key(KeyCode::KeyS, true);
    c.handle_key(KeyCode::KeyD, true);
    c.handle_key(KeyCode::KeyA, true);
    assert_eq!(
        c.camera_actions(true),
        vec![CameraAction::DollyBackward, CameraAction::OrbitRight, CameraAction::OrbitLeft]
    );
    c.handle_key(KeyCode::ShiftRight, true);
    assert_eq!(
        c.camera_actions(true),
        vec![CameraAction::PanDown, CameraAction::StrafeRight, CameraAction::StrafeLeft]
    );
}

#[test]
fn every_input_at_once_in_order() {
    let mut c = CameraController::new();
    for code in [
        KeyCode::ArrowUp,
        KeyCode::ArrowDown,
        KeyCode::ArrowLeft,
        KeyCode::ArrowRight,
        KeyCode::Digit1,
        KeyCode::Numpad2,
        KeyCode::Digit3,
        KeyCode::Digit4,
    ] {
        c.handle_key(code, true);
    }
    c.handle_mouse(MouseButton::Left, true);
    assert_eq!(
        c.camera_actions(true),
        vec![
            CameraAction::DollyForward,
            CameraAction::DollyBackward,
            CameraAction::OrbitRight,
            CameraAction::OrbitLeft,
            CameraAction::FocusBody(0),
            CameraAction::FocusBody(1),
            CameraAction::Drag,
        ]
    );
}

#[test]
fn body_keys_focus_and_drag_follows_mouse() {
    let mut c = CameraController::new();
    assert_eq!(c.camera_actions(true), vec![]);
    c.handle_key(KeyCode::Numpad1, true);
    assert_eq!(c.camera_actions(true), vec![CameraAction::FocusBody(0)]);
    c.handle_key(KeyCode::Numpad1, false);
    c.handle_key(KeyCode::Digit2, true);
    assert_eq!(c.camera_actions(false), vec![CameraAction::FocusBody(1)]);
    c.handle_key(KeyCode::Digit2, false);
    c.handle_key(KeyCode::Digit3, true);
    c.handle_key(KeyCode::Digit4, true);
    assert_eq!(c.camera_actions(true), vec![]);
    c.handle_mouse(MouseButton::Left, true);
    assert_eq!(c.camera_actions(true), vec![CameraAction::Drag]);
}
