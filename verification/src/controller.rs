use vstd::prelude::*;

verus! {

/// The physical keys the camera controller distinguishes. Every other key
/// of the keyboard is `Other`.
#[derive(Clone, Copy, Debug, PartialEq, Eq, Structural)]
pub enum KeyCode {
    KeyW,
    KeyA,
    KeyS,
    KeyD,
    ArrowUp,
    ArrowLeft,
    ArrowDown,
    ArrowRight,
    ShiftLeft,
    ShiftRight,
    Digit1,
    Digit2,
    Digit3,
    Digit4,
    Numpad1,
    Numpad2,
    Numpad3,
    Numpad4,
    Escape,
    Other,
}

/// Mouse buttons, as the windowing layer reports them.
#[derive(Clone, Copy, Debug, PartialEq, Eq, Structural)]
pub enum MouseButton {
    Left,
    Right,
    Middle,
    Back,
    Forward,
    Other(u16),
}

/// The camera command a bound key holds down.
#[derive(Clone, Copy, Debug, PartialEq, Eq, Structural)]
pub enum Binding {
    Up,
    Left,
    Down,
    Right,
    Shift,
    Number1,
    Number2,
    Number3,
    Number4,
}

/// Which camera inputs are currently held down.
#[derive(Clone, Copy, Debug, PartialEq, Eq, Structural)]
pub struct Controls {
    pub up: bool,
    pub down: bool,
    pub left: bool,
    pub right: bool,
    pub shift: bool,
    pub number1: bool,
    pub number2: bool,
    pub number3: bool,
    pub number4: bool,
    pub left_mouse: bool,
}

/// Nothing held down.
pub open spec fn released() -> Controls {
    Controls {
        up: false,
        down: false,
        left: false,
        right: false,
        shift: false,
        number1: false,
        number2: false,
        number3: false,
        number4: false,
        left_mouse: false,
    }
}

/// The key map: W and the up arrow move forward, A and the left arrow
/// turn left, S and the down arrow move back, D and the right arrow turn
/// right, either shift key switches to panning, and the digit keys of
/// the main row or of the keypad select a body.
pub open spec fn key_binding(code: KeyCode) -> Option<Binding> {
    match code {
        KeyCode::KeyW | KeyCode::ArrowUp => Some(Binding::Up),
        KeyCode::KeyA | KeyCode::ArrowLeft => Some(Binding::Left),
        KeyCode::KeyS | KeyCode::ArrowDown => Some(Binding::Down),
        KeyCode::KeyD | KeyCode::ArrowRight => Some(Binding::Right),
        KeyCode::ShiftLeft | KeyCode::ShiftRight => Some(Binding::Shift),
        KeyCode::Numpad1 | KeyCode::Digit1 => Some(Binding::Number1),
        KeyCode::Numpad2 | KeyCode::Digit2 => Some(Binding::Number2),
        KeyCode::Numpad3 | KeyCode::Digit3 => Some(Binding::Number3),
        KeyCode::Numpad4 | KeyCode::Digit4 => Some(Binding::Number4),
        KeyCode::Escape | KeyCode::Other => None,
    }
}

/// Whether `binding` is held down in `c`.
pub open spec fn is_held(c: Controls, binding: Binding) -> bool {
    match binding {
        Binding::Up => c.up,
        Binding::Left => c.left,
        Binding::Down => c.down,
        Binding::Right => c.right,
        Binding::Shift => c.shift,
        Binding::Number1 => c.number1,
        Binding::Number2 => c.number2,
        Binding::Number3 => c.number3,
        Binding::Number4 => c.number4,
    }
}

/// `c` with `binding` set to `pressed` and every other input as it was.
pub open spec fn set_binding(c: Controls, binding: Binding, pressed: bool) -> Controls {
    match binding {
        Binding::Up => Controls { up: pressed, ..c },
        Binding::Left => Controls { left: pressed, ..c },
        Binding::Down => Controls { down: pressed, ..c },
        Binding::Right => Controls { right: pressed, ..c },
        Binding::Shift => Controls { shift: pressed, ..c },
        Binding::Number1 => Controls { number1: pressed, ..c },
        Binding::Number2 => Controls { number2: pressed, ..c },
        Binding::Number3 => Controls { number3: pressed, ..c },
        Binding::Number4 => Controls { number4: pressed, ..c },
    }
}

/// The controls after a key event: a bound key sets its command to the
/// key's new state, any other key leaves the controls as they are.
pub open spec fn after_key(c: Controls, code: KeyCode, pressed: bool) -> Controls {
    match key_binding(code) {
        Some(binding) => set_binding(c, binding, pressed),
        None => c,
    }
}

/// The controls after a mouse button event: only the left button counts.
pub open spec fn after_mouse(c: Controls, button: MouseButton, pressed: bool) -> Controls {
    if button == MouseButton::Left {
        Controls { left_mouse: pressed, ..c }
    } else {
        c
    }
}

/// Keyboard and mouse state that steers the camera.
pub struct CameraController {
    is_up_pressed: bool,
    is_down_pressed: bool,
    is_left_pressed: bool,
    is_right_pressed: bool,
    is_shift_pressed: bool,
    is_number_pressed_1: bool,
    is_number_pressed_2: bool,
    is_number_pressed_3: bool,
    is_number_pressed_4: bool,
    pub is_left_mouse_pressed: bool,
}

impl View for CameraController {
    type V = Controls;

    closed spec fn view(&self) -> Controls {
        Controls {
            up: self.is_up_pressed,
            down: self.is_down_pressed,
            left: self.is_left_pressed,
            right: self.is_right_pressed,
            shift: self.is_shift_pressed,
            number1: self.is_number_pressed_1,
            number2: self.is_number_pressed_2,
            number3: self.is_number_pressed_3,
            number4: self.is_number_pressed_4,
            left_mouse: self.is_left_mouse_pressed,
        }
    }
}

impl CameraController {
    /// A controller with nothing held down.
    pub fn new() -> (r: Self)
        ensures
            r@ == released(),
    {
        CameraController {
            is_up_pressed: false,
            is_down_pressed: false,
            is_left_pressed: false,
            is_right_pressed: false,
            is_shift_pressed: false,
            is_number_pressed_1: false,
            is_number_pressed_2: false,
            is_number_pressed_3: false,
            is_number_pressed_4: false,
            is_left_mouse_pressed: false,
        }
    }

    /// The inputs currently held down.
    pub fn controls(&self) -> (r: Controls)
        ensures
            r == self@,
    {
        Controls {
            up: self.is_up_pressed,
            down: self.is_down_pressed,
            left: self.is_left_pressed,
            right: self.is_right_pressed,
            shift: self.is_shift_pressed,
            number1: self.is_number_pressed_1,
            number2: self.is_number_pressed_2,
            number3: self.is_number_pressed_3,
            number4: self.is_number_pressed_4,
            left_mouse: self.is_left_mouse_pressed,
        }
    }

    /// Records a mouse button event. Returns whether the button is the
    /// one the controller uses (the left one).
    pub fn handle_mouse(&mut self, mouse: MouseButton, is_pressed: bool) -> (handled: bool)
        ensures
            handled == (mouse == MouseButton::Left),
            final(self)@ == after_mouse(old(self)@, mouse, is_pressed),
    {
        match mouse {
            MouseButton::Left => {
                self.is_left_mouse_pressed = is_pressed;
                true
            },
            _ => false,
        }
    }

    /// Records a key event. Returns whether the key is bound to a camera
    /// command; an unbound key changes nothing.
    pub fn handle_key(&mut self, code: KeyCode, is_pressed: bool) -> (handled: bool)
        ensures
            handled == key_binding(code).is_some(),
            final(self)@ == after_key(old(self)@, code, is_pressed),
    {
        match code {
            KeyCode::KeyW | KeyCode::ArrowUp => {
                self.is_up_pressed = is_pressed;
                true
            },
            KeyCode::KeyA | KeyCode::ArrowLeft => {
                self.is_left_pressed = is_pressed;
                true
            },
            KeyCode::KeyS | KeyCode::ArrowDown => {
                self.is_down_pressed = is_pressed;
                true
            },
            KeyCode::KeyD | KeyCode::ArrowRight => {
                self.is_right_pressed = is_pressed;
                true
            },
            KeyCode::ShiftLeft | KeyCode::ShiftRight => {
                self.is_shift_pressed = is_pressed;
                true
            },
            KeyCode::Numpad1 | KeyCode::Digit1 => {
                self.is_number_pressed_1 = is_pressed;
                true
            },
            KeyCode::Numpad2 | KeyCode::Digit2 => {
                self.is_number_pressed_2 = is_pressed;
                true
            },
            KeyCode::Numpad3 | KeyCode::Digit3 => {
                self.is_number_pressed_3 = is_pressed;
                true
            },
            KeyCode::Numpad4 | KeyCode::Digit4 => {
                self.is_number_pressed_4 = is_pressed;
                true
            },
            _ => false,
        }
    }
}


/// One step of a camera update, in the order the update performs them.
/// `speed` is the controller's speed, `forward` is `target - eye` taken
/// before the update, `right` is `normalize(forward) x up`.
#[derive(Clone, Copy, Debug, PartialEq, Eq, Structural)]
pub enum CameraAction {
    /// `eye += normalize(forward) * speed`.
    DollyForward,
    /// `eye -= normalize(forward) * speed`.
    DollyBackward,
    /// `eye += up * speed` and `target += up * speed`.
    PanUp,
    /// `eye -= up * speed` and `target -= up * speed`.
    PanDown,
    /// `eye += right * speed` and `target += right * speed`.
    StrafeRight,
    /// `eye -= right * speed` and `target -= right * speed`.
    StrafeLeft,
    /// `eye = target - normalize(forward + right * speed) * |forward|`.
    OrbitRight,
    /// `eye = target - normalize(forward - right * speed) * |forward|`.
    OrbitLeft,
    /// `target` becomes the position of the body with this index.
    FocusBody(usize),
    /// The accumulated mouse motion is subtracted from the x and z
    /// coordinates of both eye and target.
    Drag,
}

/// `action` when `cond` holds, nothing otherwise.
pub open spec fn step_if(cond: bool, action: CameraAction) -> Seq<CameraAction> {
    if cond {
        seq![action]
    } else {
        Seq::empty()
    }
}

/// The steps of one camera update for the held inputs `c`. Forward motion
/// happens only when the eye is farther from the target than one step
/// (`far_enough`). Shift turns every movement into a translation of eye
/// and target together; without it, up and down move the eye along the
/// view direction and left and right orbit it around the target. Body
/// selection and mouse dragging come last.
pub open spec fn planned_actions(c: Controls, far_enough: bool) -> Seq<CameraAction> {
    step_if(
        c.up && far_enough,
        if c.shift {
            CameraAction::PanUp
        } else {
            CameraAction::DollyForward
        },
    ) + step_if(
        c.down,
        if c.shift {
            CameraAction::PanDown
        } else {
            CameraAction::DollyBackward
        },
    ) + step_if(
        c.right,
        if c.shift {
            CameraAction::StrafeRight
        } else {
            CameraAction::OrbitRight
        },
    ) + step_if(
        c.left,
        if c.shift {
            CameraAction::StrafeLeft
        } else {
            CameraAction::OrbitLeft
        },
    ) + step_if(c.number1, CameraAction::FocusBody(0)) + step_if(
        c.number2,
        CameraAction::FocusBody(1),
    ) + step_if(c.left_mouse, CameraAction::Drag)
}

/// Whether `action` changes where the camera looks from and at alike.
pub open spec fn moves_target(action: CameraAction) -> bool {
    match action {
        CameraAction::PanUp | CameraAction::PanDown | CameraAction::StrafeRight
        | CameraAction::StrafeLeft => true,
        _ => false,
    }
}

/// Whether `action` moves the eye alone, keeping the target.
pub open spec fn moves_eye_only(action: CameraAction) -> bool {
    match action {
        CameraAction::DollyForward | CameraAction::DollyBackward | CameraAction::OrbitRight
        | CameraAction::OrbitLeft => true,
        _ => false,
    }
}

fn push_if(actions: &mut Vec<CameraAction>, cond: bool, action: CameraAction)
    ensures
        final(actions)@ == old(actions)@ + step_if(cond, action),
{
    if cond {
        actions.push(action);
    }
    assert(final(actions)@ =~= old(actions)@ + step_if(cond, action));
}

impl CameraController {
    /// The steps of one camera update, in order. `far_enough` tells
    /// whether the eye is farther from the target than the step length.
    pub fn camera_actions(&self, far_enough: bool) -> (actions: Vec<CameraAction>)
        ensures
            actions@ == planned_actions(self@, far_enough),
    {
        let c = self.controls();
        let mut actions: Vec<CameraAction> = Vec::new();
        push_if(
            &mut actions,
            c.up && far_enough,
            if c.shift {
                CameraAction::PanUp
            } else {
                CameraAction::DollyForward
            },
        );
        push_if(
            &mut actions,
            c.down,
            if c.shift {
                CameraAction::PanDown
            } else {
                CameraAction::DollyBackward
            },
        );
        push_if(
            &mut actions,
            c.right,
            if c.shift {
                CameraAction::StrafeRight
            } else {
                CameraAction::OrbitRight
            },
        );
        push_if(
            &mut actions,
            c.left,
            if c.shift {
                CameraAction::StrafeLeft
            } else {
                CameraAction::OrbitLeft
            },
        );
        push_if(&mut actions, c.number1, CameraAction::FocusBody(0));
        push_if(&mut actions, c.number2, CameraAction::FocusBody(1));
        push_if(&mut actions, c.left_mouse, CameraAction::Drag);
        assert(actions@ =~= planned_actions(self@, far_enough));
        actions
    }
}

/// A key event sets the command of its key to the key's new state.
pub proof fn lemma_key_sets_its_binding(c: Controls, code: KeyCode, pressed: bool)
    requires
        key_binding(code).is_some(),
    ensures
        is_held(after_key(c, code, pressed), key_binding(code).unwrap()) == pressed,
{
}

/// A key event leaves every other command as it was, and an unbound key
/// leaves all of them.
pub proof fn lemma_key_event_is_local(c: Controls, code: KeyCode, pressed: bool, other: Binding)
    requires
        key_binding(code) != Some(other),
    ensures
        is_held(after_key(c, code, pressed), other) == is_held(c, other),
        after_key(c, code, pressed).left_mouse == c.left_mouse,
{
}

/// Of two events of the same key, the later one decides.
pub proof fn lemma_last_key_event_wins(c: Controls, code: KeyCode, first: bool, second: bool)
    ensures
        after_key(after_key(c, code, first), code, second) == after_key(c, code, second),
{
}

/// Pressing and then releasing a key that was up restores the controls.
pub proof fn lemma_press_release_restores(c: Controls, code: KeyCode)
    requires
        key_binding(code).is_some(),
        !is_held(c, key_binding(code).unwrap()),
    ensures
        after_key(after_key(c, code, true), code, false) == c,
{
}

/// Only the left mouse button changes the controls, and only the drag
/// input among them.
pub proof fn lemma_mouse_event_is_local(c: Controls, button: MouseButton, pressed: bool)
    ensures
        after_mouse(c, button, pressed).left_mouse == (if button == MouseButton::Left {
            pressed
        } else {
            c.left_mouse
        }),
        forall|b: Binding| is_held(#[trigger] after_mouse(c, button, pressed), b) == is_held(c, b),
{
}

/// Every step of `s` satisfies `p`.
pub open spec fn all_steps(s: Seq<CameraAction>, p: spec_fn(CameraAction) -> bool) -> bool {
    forall|i: int| 0 <= i < s.len() ==> p(#[trigger] s[i])
}

proof fn lemma_all_steps_concat(
    s1: Seq<CameraAction>,
    s2: Seq<CameraAction>,
    p: spec_fn(CameraAction) -> bool,
)
    requires
        all_steps(s1, p),
        all_steps(s2, p),
    ensures
        all_steps(s1 + s2, p),
{
    assert forall|i: int| 0 <= i < (s1 + s2).len() implies p(#[trigger] (s1 + s2)[i]) by {
        if i < s1.len() {
            assert((s1 + s2)[i] == s1[i]);
        } else {
            assert((s1 + s2)[i] == s2[i - s1.len()]);
        }
    }
}

proof fn lemma_all_steps_step_if(cond: bool, a: CameraAction, p: spec_fn(CameraAction) -> bool)
    requires
        cond ==> p(a),
    ensures
        all_steps(step_if(cond, a), p),
{
}

/// A property that holds of every step an update may take holds of the
/// steps it takes.
proof fn lemma_planned_all(c: Controls, far_enough: bool, p: spec_fn(CameraAction) -> bool)
    requires
        c.up && far_enough ==> p(
            if c.shift {
                CameraAction::PanUp
            } else {
                CameraAction::DollyForward
            },
        ),
        c.down ==> p(
            if c.shift {
                CameraAction::PanDown
            } else {
                CameraAction::DollyBackward
            },
        ),
        c.right ==> p(
            if c.shift {
                CameraAction::StrafeRight
            } else {
                CameraAction::OrbitRight
            },
        ),
        c.left ==> p(
            if c.shift {
                CameraAction::StrafeLeft
            } else {
                CameraAction::OrbitLeft
            },
        ),
        c.number1 ==> p(CameraAction::FocusBody(0)),
        c.number2 ==> p(CameraAction::FocusBody(1)),
        c.left_mouse ==> p(CameraAction::Drag),
    ensures
        all_steps(planned_actions(c, far_enough), p),
{
    let s1 = step_if(
        c.up && far_enough,
        if c.shift {
            CameraAction::PanUp
        } else {
            CameraAction::DollyForward
        },
    );
    let s2 = step_if(
        c.down,
        if c.shift {
            CameraAction::PanDown
        } else {
            CameraAction::DollyBackward
        },
    );
    let s3 = step_if(
        c.right,
        if c.shift {
            CameraAction::StrafeRight
        } else {
            CameraAction::OrbitRight
        },
    );
    let s4 = step_if(
        c.left,
        if c.shift {
            CameraAction::StrafeLeft
        } else {
            CameraAction::OrbitLeft
        },
    );
    let s5 = step_if(c.number1, CameraAction::FocusBody(0));
    let s6 = step_if(c.number2, CameraAction::FocusBody(1));
    let s7 = step_if(c.left_mouse, CameraAction::Drag);
    lemma_all_steps_step_if(
        c.up && far_enough,
        if c.shift {
            CameraAction::PanUp
        } else {
            CameraAction::DollyForward
        },
        p,
    );
    lemma_all_steps_step_if(
        c.down,
        if c.shift {
            CameraAction::PanDown
        } else {
            CameraAction::DollyBackward
        },
        p,
    );
    lemma_all_steps_step_if(
        c.right,
        if c.shift {
            CameraAction::StrafeRight
        } else {
            CameraAction::OrbitRight
        },
        p,
    );
    lemma_all_steps_step_if(
        c.left,
        if c.shift {
            CameraAction::StrafeLeft
        } else {
            CameraAction::OrbitLeft
        },
        p,
    );
    lemma_all_steps_step_if(c.number1, CameraAction::FocusBody(0), p);
    lemma_all_steps_step_if(c.number2, CameraAction::FocusBody(1), p);
    lemma_all_steps_step_if(c.left_mouse, CameraAction::Drag, p);
    lemma_all_steps_concat(s1, s2, p);
    lemma_all_steps_concat(s1 + s2, s3, p);
    lemma_all_steps_concat(s1 + s2 + s3, s4, p);
    lemma_all_steps_concat(s1 + s2 + s3 + s4, s5, p);
    lemma_all_steps_concat(s1 + s2 + s3 + s4 + s5, s6, p);
    lemma_all_steps_concat(s1 + s2 + s3 + s4 + s5 + s6, s7, p);
}

/// Every body an update focuses on exists, as long as the first body
/// exists when its key is held and the second when its key is.
pub proof fn lemma_focus_in_range(c: Controls, far_enough: bool, body_count: nat)
    requires
        c.number1 ==> body_count >= 1,
        c.number2 ==> body_count >= 2,
    ensures
        forall|i: int|
            0 <= i < planned_actions(c, far_enough).len() ==> (
            #[trigger] planned_actions(c, far_enough)[i] matches CameraAction::FocusBody(b)
                ==> b < body_count),
{
    let p = |a: CameraAction| a matches CameraAction::FocusBody(b) ==> b < body_count;
    lemma_planned_all(c, far_enough, p);
    assert forall|i: int| 0 <= i < planned_actions(c, far_enough).len() implies (
    #[trigger] planned_actions(c, far_enough)[i] matches CameraAction::FocusBody(b)
        ==> b < body_count) by {
        assert(p(planned_actions(c, far_enough)[i]));
    }
}

/// With shift held every movement carries the target along; without it
/// every movement keeps the target where it is.
pub proof fn lemma_shift_selects_translation(c: Controls, far_enough: bool)
    ensures
        forall|i: int|
            0 <= i < planned_actions(c, far_enough).len() ==> {
                let a = #[trigger] planned_actions(c, far_enough)[i];
                &&& c.shift ==> !moves_eye_only(a)
                &&& !c.shift ==> !moves_target(a)
            },
{
    let p = |a: CameraAction| (c.shift ==> !moves_eye_only(a)) && (!c.shift ==> !moves_target(a));
    lemma_planned_all(c, far_enough, p);
    assert forall|i: int| 0 <= i < planned_actions(c, far_enough).len() implies {
        let a = #[trigger] planned_actions(c, far_enough)[i];
        &&& c.shift ==> !moves_eye_only(a)
        &&& !c.shift ==> !moves_target(a)
    } by {
        assert(p(planned_actions(c, far_enough)[i]));
    }
}

/// An update drags the view exactly when the left mouse button is held,
/// and then as its last step.
pub proof fn lemma_drag_is_last(c: Controls, far_enough: bool)
    ensures
        c.left_mouse <==> planned_actions(c, far_enough).contains(CameraAction::Drag),
        c.left_mouse ==> planned_actions(c, far_enough).last() == CameraAction::Drag,
{
}

proof fn lemma_step_if_contains(cond: bool, a: CameraAction, x: CameraAction)
    ensures
        step_if(cond, a).contains(x) <==> (cond && a == x),
{
    if cond && a == x {
        assert(step_if(cond, a)[0] == x);
    }
}

proof fn lemma_concat_contains(s1: Seq<CameraAction>, s2: Seq<CameraAction>, x: CameraAction)
    ensures
        (s1 + s2).contains(x) <==> (s1.contains(x) || s2.contains(x)),
{
    let s = s1 + s2;
    if s.contains(x) {
        let i = choose|i: int| 0 <= i < s.len() && s[i] == x;
        if i < s1.len() {
            assert(s1[i] == x);
        } else {
            assert(s2[i - s1.len()] == x);
        }
    }
    if s1.contains(x) {
        let i = choose|i: int| 0 <= i < s1.len() && s1[i] == x;
        assert(s[i] == x);
    }
    if s2.contains(x) {
        let i = choose|i: int| 0 <= i < s2.len() && s2[i] == x;
        assert(s[s1.len() + i] == x);
    }
}

/// The step the up key asks for, the down key, the right key and the left
/// key, given whether shift is held.
spec fn key_step(binding: Binding, shift: bool) -> CameraAction {
    match binding {
        Binding::Up => if shift {
            CameraAction::PanUp
        } else {
            CameraAction::DollyForward
        },
        Binding::Down => if shift {
            CameraAction::PanDown
        } else {
            CameraAction::DollyBackward
        },
        Binding::Right => if shift {
            CameraAction::StrafeRight
        } else {
            CameraAction::OrbitRight
        },
        _ => if shift {
            CameraAction::StrafeLeft
        } else {
            CameraAction::OrbitLeft
        },
    }
}

proof fn lemma_planned_contains(c: Controls, far_enough: bool, x: CameraAction)
    ensures
        planned_actions(c, far_enough).contains(x) <==> {
            ||| c.up && far_enough && x == key_step(Binding::Up, c.shift)
            ||| c.down && x == key_step(Binding::Down, c.shift)
            ||| c.right && x == key_step(Binding::Right, c.shift)
            ||| c.left && x == key_step(Binding::Left, c.shift)
            ||| c.number1 && x == CameraAction::FocusBody(0)
            ||| c.number2 && x == CameraAction::FocusBody(1)
            ||| c.left_mouse && x == CameraAction::Drag
        },
{
    let s1 = step_if(c.up && far_enough, key_step(Binding::Up, c.shift));
    let s2 = step_if(c.down, key_step(Binding::Down, c.shift));
    let s3 = step_if(c.right, key_step(Binding::Right, c.shift));
    let s4 = step_if(c.left, key_step(Binding::Left, c.shift));
    let s5 = step_if(c.number1, CameraAction::FocusBody(0));
    let s6 = step_if(c.number2, CameraAction::FocusBody(1));
    let s7 = step_if(c.left_mouse, CameraAction::Drag);
    assert(planned_actions(c, far_enough) == s1 + s2 + s3 + s4 + s5 + s6 + s7);
    lemma_step_if_contains(c.up && far_enough, key_step(Binding::Up, c.shift), x);
    lemma_step_if_contains(c.down, key_step(Binding::Down, c.shift), x);
    lemma_step_if_contains(c.right, key_step(Binding::Right, c.shift), x);
    lemma_step_if_contains(c.left, key_step(Binding::Left, c.shift), x);
    lemma_step_if_contains(c.number1, CameraAction::FocusBody(0), x);
    lemma_step_if_contains(c.number2, CameraAction::FocusBody(1), x);
    lemma_step_if_contains(c.left_mouse, CameraAction::Drag, x);
    lemma_concat_contains(s1, s2, x);
    lemma_concat_contains(s1 + s2, s3, x);
    lemma_concat_contains(s1 + s2 + s3, s4, x);
    lemma_concat_contains(s1 + s2 + s3 + s4, s5, x);
    lemma_concat_contains(s1 + s2 + s3 + s4 + s5, s6, x);
    lemma_concat_contains(s1 + s2 + s3 + s4 + s5 + s6, s7, x);
}

/// Holding the down key always moves the camera back, however close the
/// eye is to the target: backwards along the view without shift, down
/// with it.
pub proof fn lemma_backing_away_is_never_blocked(c: Controls, far_enough: bool)
    requires
        c.down,
    ensures
        !c.shift ==> planned_actions(c, far_enough).contains(CameraAction::DollyBackward),
        c.shift ==> planned_actions(c, far_enough).contains(CameraAction::PanDown),
{
    lemma_planned_contains(c, far_enough, CameraAction::DollyBackward);
    lemma_planned_contains(c, far_enough, CameraAction::PanDown);
}

/// Holding the right or the left key always turns the camera that way,
/// however close the eye is to the target: it orbits the target without
/// shift and strafes with it.
pub proof fn lemma_turning_is_never_blocked(c: Controls, far_enough: bool)
    ensures
        c.right && !c.shift ==> planned_actions(c, far_enough).contains(CameraAction::OrbitRight),
        c.right && c.shift ==> planned_actions(c, far_enough).contains(CameraAction::StrafeRight),
        c.left && !c.shift ==> planned_actions(c, far_enough).contains(CameraAction::OrbitLeft),
        c.left && c.shift ==> planned_actions(c, far_enough).contains(CameraAction::StrafeLeft),
{
    lemma_planned_contains(c, far_enough, CameraAction::OrbitRight);
    lemma_planned_contains(c, far_enough, CameraAction::StrafeRight);
    lemma_planned_contains(c, far_enough, CameraAction::OrbitLeft);
    lemma_planned_contains(c, far_enough, CameraAction::StrafeLeft);
}

/// The distance to the target only decides whether the up key moves the
/// camera: with the up key released, an update plans the same steps near
/// and far; with it held, it moves forward exactly when the eye is far
/// enough.
pub proof fn lemma_distance_gates_only_forward(c: Controls)
    ensures
        !c.up ==> planned_actions(c, false) == planned_actions(c, true),
        c.up && !c.shift ==> (planned_actions(c, true).contains(CameraAction::DollyForward)
            && !planned_actions(c, false).contains(CameraAction::DollyForward)),
        c.up && c.shift ==> (planned_actions(c, true).contains(CameraAction::PanUp)
            && !planned_actions(c, false).contains(CameraAction::PanUp)),
{
    lemma_planned_contains(c, true, CameraAction::DollyForward);
    lemma_planned_contains(c, false, CameraAction::DollyForward);
    lemma_planned_contains(c, true, CameraAction::PanUp);
    lemma_planned_contains(c, false, CameraAction::PanUp);
}

} // verus!
