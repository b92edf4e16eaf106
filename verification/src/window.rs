//! The compositor in a window of a running session.

use vstd::prelude::*;

use crate::backend::{Backend, OutputDescription, WinitBackend, DEFAULT_REFRESH};
use crate::geometry::{Mode, Point, Size};
use crate::globals::with_output;
use crate::slots::slots;
use crate::state::App;

verus! {

/// How the picture is turned before it is shown.
#[derive(Clone, Copy, PartialEq, Eq, Structural, Debug)]
pub enum Transform {
    Normal,
    Flipped180,
}

/// The window's output, as it is announced.
#[derive(Debug)]
pub struct WinitOutput {
    pub description: OutputDescription,
    pub mode: Mode,
    pub transform: Transform,
    pub location: Point,
}

/// Something that happened to the window.
#[derive(Clone, Copy, PartialEq, Eq, Structural, Debug)]
pub enum WinitEvent {
    Resized { size: Size },
    Focus,
    Input,
    CloseRequested,
    Redraw,
}

/// What it leads to.
#[derive(Clone, Copy, PartialEq, Eq, Structural, Debug)]
pub enum WinitAction {
    /// The output changes to the mode.
    ChangeMode { mode: Mode },
    Nothing,
    /// The input event is handled.
    HandleInput,
    /// The event loop stops.
    Stop,
    /// A request on the control socket is served, and new plugins are loaded.
    ServePlugins,
}

/// The time between two frames, in milliseconds.
pub const FRAME_INTERVAL: u64 = 16;

/// Sets up the window's output, which gets the number `output` and is mapped
/// into the space.
pub fn run_winit(app: &mut App<WinitBackend>, output: u64) -> (announced: WinitOutput)
    requires
        old(app).globals.wf(),
    ensures
        announced.description.name@ == "winit"@,
        announced.description.make@ == "mwm"@,
        announced.description.model@ == "Winit"@,
        announced.description.size == (Size { width: 0, height: 0 }),
        announced.mode == (Mode { size: old(app).backend.window_size, refresh: DEFAULT_REFRESH }),
        announced.transform == Transform::Flipped180,
        announced.location == (Point { x: 0, y: 0 }),
        final(app).globals.wf(),
        final(app).same_but_globals(*old(app)),
        final(app).globals.windows@ == old(app).globals.windows@,
        slots(final(app).globals.mapped_windows) == slots(old(app).globals.mapped_windows),
        final(app).globals.outputs@ == with_output(old(app).globals.outputs@, output),
{
    let description = app.backend.create_output();
    let mode = app.backend.mode();
    app.map_output(output);
    WinitOutput {
        description,
        mode,
        transform: Transform::Flipped180,
        location: Point { x: 0, y: 0 },
    }
}

/// What an event of the window leads to.
pub open spec fn action_of_window(event: WinitEvent) -> WinitAction {
    match event {
        WinitEvent::Resized { size } => WinitAction::ChangeMode {
            mode: Mode { size, refresh: DEFAULT_REFRESH },
        },
        WinitEvent::Focus => WinitAction::Nothing,
        WinitEvent::Input => WinitAction::HandleInput,
        WinitEvent::CloseRequested => WinitAction::Stop,
        WinitEvent::Redraw => WinitAction::ServePlugins,
    }
}

impl App<WinitBackend> {
    /// What an event of the window leads to. A new size of the window is a new
    /// mode of the output.
    pub fn on_winit_event(&mut self, event: WinitEvent) -> (action: WinitAction)
        ensures
            final(self).globals == old(self).globals,
            final(self).sleep == old(self).sleep,
            final(self).input_state == old(self).input_state,
            final(self).output_state == old(self).output_state,
            final(self).backend.window_size == (match event {
                WinitEvent::Resized { size } => size,
                _ => old(self).backend.window_size,
            }),
            action == action_of_window(event),
    {
        match event {
            WinitEvent::Resized { size } => {
                self.backend.window_size = size;
                WinitAction::ChangeMode { mode: self.backend.mode() }
            },
            WinitEvent::Focus => WinitAction::Nothing,
            WinitEvent::Input => WinitAction::HandleInput,
            WinitEvent::CloseRequested => WinitAction::Stop,
            WinitEvent::Redraw => WinitAction::ServePlugins,
        }
    }
}

} // verus!
