use vstd::prelude::*;
use crate::controller::{CameraController, KeyCode, after_key};

verus! {

/// The window events the viewer reacts to; every other one is `Other`.
#[derive(Clone, Copy, Debug, PartialEq, Eq, Structural)]
pub enum WindowEvent {
    CloseRequested,
    Resized { width: u32, height: u32 },
    Keyboard { code: KeyCode, pressed: bool },
    RedrawRequested,
    Other,
}

/// What the event loop does in answer to a window event.
#[derive(Clone, Copy, Debug, PartialEq, Eq, Structural)]
pub enum AppAction {
    /// Leave the event loop.
    Exit,
    /// Resize the drawing surface.
    Resize { width: u32, height: u32 },
    /// Draw a frame.
    Render,
    /// Nothing beyond what the controller recorded.
    Nothing,
}

/// How drawing a frame went, as the graphics layer reports it.
#[derive(Clone, Copy, Debug, PartialEq, Eq, Structural)]
pub enum RenderOutcome {
    Presented,
    Timeout,
    Outdated,
    Lost,
    OutOfMemory,
}

/// What the event loop does after drawing a frame.
#[derive(Clone, Copy, Debug, PartialEq, Eq, Structural)]
pub enum FrameAction {
    /// Go on.
    Continue,
    /// Configure the surface again at its current size.
    Reconfigure,
    /// Leave the event loop.
    Exit,
}

/// The answer to `event`: a close request or a press of escape ends the
/// program, a resize resizes, a redraw request draws, and any other key
/// event goes to the camera controller.
pub open spec fn event_action(event: WindowEvent) -> AppAction {
    match event {
        WindowEvent::CloseRequested => AppAction::Exit,
        WindowEvent::Resized { width, height } => AppAction::Resize { width, height },
        WindowEvent::Keyboard { code, pressed } => if code == KeyCode::Escape && pressed {
            AppAction::Exit
        } else {
            AppAction::Nothing
        },
        WindowEvent::RedrawRequested => AppAction::Render,
        WindowEvent::Other => AppAction::Nothing,
    }
}

/// Whether `event` is a key event that the camera controller records.
pub open spec fn goes_to_controller(event: WindowEvent) -> bool {
    event matches WindowEvent::Keyboard { code, pressed } && !(code == KeyCode::Escape && pressed)
}

/// Dispatches a window event: records key events other than a press of
/// escape in `controller`, and returns what the event loop does next.
pub fn handle_window_event(controller: &mut CameraController, event: WindowEvent) -> (action:
    AppAction)
    ensures
        action == event_action(event),
        final(controller)@ == (match event {
            WindowEvent::Keyboard { code, pressed } => if goes_to_controller(event) {
                after_key(old(controller)@, code, pressed)
            } else {
                old(controller)@
            },
            _ => old(controller)@,
        }),
{
    match event {
        WindowEvent::CloseRequested => AppAction::Exit,
        WindowEvent::Resized { width, height } => AppAction::Resize { width, height },
        WindowEvent::Keyboard { code, pressed } => {
            if code == KeyCode::Escape && pressed {
                AppAction::Exit
            } else {
                controller.handle_key(code, pressed);
                AppAction::Nothing
            }
        },
        WindowEvent::RedrawRequested => AppAction::Render,
        WindowEvent::Other => AppAction::Nothing,
    }
}

/// The new size of the drawing surface after a resize to
/// `width` x `height`: none when either side is zero, which leaves the
/// surface as it was.
pub fn resize_target(width: u32, height: u32) -> (target: Option<(u32, u32)>)
    ensures
        target == (if width == 0 || height == 0 {
            None
        } else {
            Some((width, height))
        }),
        target matches Some((w, h)) ==> w >= 1 && h >= 1,
{
    if width == 0 || height == 0 {
        None
    } else {
        Some((width, height))
    }
}

/// The size the surface is first configured with: the window's size,
/// each side raised to at least one pixel.
pub fn surface_extent(width: u32, height: u32) -> (extent: (u32, u32))
    ensures
        extent.0 == (if width == 0 {
            1
        } else {
            width
        }),
        extent.1 == (if height == 0 {
            1
        } else {
            height
        }),
        extent.0 >= 1 && extent.1 >= 1,
{
    (if width == 0 {
        1
    } else {
        width
    }, if height == 0 {
        1
    } else {
        height
    })
}

/// What to do after drawing a frame: a lost surface is configured again,
/// running out of memory ends the program, and anything else goes on.
pub fn after_render(outcome: RenderOutcome) -> (action: FrameAction)
    ensures
        action == (match outcome {
            RenderOutcome::Lost => FrameAction::Reconfigure,
            RenderOutcome::OutOfMemory => FrameAction::Exit,
            _ => FrameAction::Continue,
        }),
{
    match outcome {
        RenderOutcome::Lost => FrameAction::Reconfigure,
        RenderOutcome::OutOfMemory => FrameAction::Exit,
        _ => FrameAction::Continue,
    }
}

/// The program ends on exactly two events: a close request and a press
/// of escape. Every other key event, pressed or released, leaves the
/// event loop running with nothing more to do.
pub proof fn lemma_only_close_and_escape_exit(event: WindowEvent)
    ensures
        event_action(event) == AppAction::Exit <==> (event == WindowEvent::CloseRequested || event
            == (WindowEvent::Keyboard { code: KeyCode::Escape, pressed: true })),
        event matches WindowEvent::Keyboard { code, pressed } ==> (code != KeyCode::Escape
            || !pressed) ==> event_action(event) == AppAction::Nothing,
{
}

} // verus!
