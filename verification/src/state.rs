//! The compositor's state, and what requests of clients do to it.

use vstd::prelude::*;

use crate::cursor::{xcursor_images, CursorImageStatus, ImageView, InputState};
use crate::geometry::{Point, Rectangle};
use crate::globals::{
    activated, new_record, window_index, window_with, with_output, CompositorGlobals, Window,
};
use crate::mapped::{AckOutcome, DecorationMode, MappedWindow, PendingEdit, ToplevelState};
use crate::output::{OutputEntry, OutputState};
use crate::slots::{no_windows, slots};
use crate::socket::{CompositorRequest, EngineError, Plugin, RequestStep, Response};

verus! {

/// The compositor, on a backend.
pub struct App<B> {
    pub backend: B,
    pub globals: CompositorGlobals,
    /// The session is paused; nothing is drawn.
    pub sleep: bool,
    pub input_state: InputState,
    pub output_state: OutputState,
}

/// A configure that a client acknowledges.
#[derive(Clone, Copy, PartialEq, Eq, Structural, Debug)]
pub enum Configure {
    Toplevel { serial: u32 },
    Popup { serial: u32 },
}

/// How a pointer grab began.
#[derive(Clone, Copy, PartialEq, Eq, Structural, Debug)]
pub struct GrabStart {
    /// Whether the surface that had the pointer then belongs to the client that
    /// asks now; `None` where no surface had it.
    pub focus_same_client: Option<bool>,
}

/// The pointer of a seat.
#[derive(Clone, Copy, PartialEq, Eq, Structural, Debug)]
pub struct PointerState {
    /// Whether the pointer is grabbed with the serial of the request.
    pub has_grab: bool,
    pub grab_start: Option<GrabStart>,
}

/// A client may start an interactive move or resize: the pointer is grabbed
/// with the request's serial, and the grab began on a surface of the client.
pub open spec fn grab_allowed(pointer: Option<PointerState>) -> bool {
    &&& pointer matches Some(pointer)
    &&& pointer.has_grab
    &&& pointer.grab_start matches Some(start)
    &&& start.focus_same_client == Some(true)
}

/// How the grab behind a request for an interactive move or resize began;
/// `None` where the request is to be ignored.
pub fn check_grab(pointer: Option<PointerState>) -> (start: Option<GrabStart>)
    ensures
        start is Some <==> grab_allowed(pointer),
        start is Some ==> start == pointer->0.grab_start,
{
    let pointer = match pointer {
        Some(pointer) => pointer,
        None => return None,
    };
    if !pointer.has_grab {
        return None;
    }
    let start = match pointer.grab_start {
        Some(start) => start,
        None => return None,
    };
    match start.focus_same_client {
        Some(true) => Some(start),
        _ => None,
    }
}

/// A popup whose surface was committed.
#[derive(Clone, Copy, PartialEq, Eq, Structural, Debug)]
pub enum PopupCommit {
    /// The surface is no popup's.
    NoPopup,
    Xdg { initial_configure_sent: bool },
    InputMethod,
}

/// What a commit leads to.
#[derive(Clone, Copy, PartialEq, Eq, Structural, Debug)]
pub struct CommitPlan {
    /// The window that the plugins are told of.
    pub window: Option<Window>,
    /// The window's toplevel gets its first configure.
    pub configure_toplevel: bool,
    /// The popup gets its first configure.
    pub configure_popup: bool,
}

/// What a commit of the surface leads to: the plugins hear of the window that
/// it belongs to, and a toplevel or popup that was never configured is
/// configured now.
pub open spec fn commit_plan(
    windows: Seq<Window>,
    surface: u64,
    initial_configure_sent: bool,
    popup: PopupCommit,
) -> CommitPlan {
    let window = window_with(windows, surface);
    CommitPlan {
        window,
        configure_toplevel: window is Some && !initial_configure_sent,
        configure_popup: popup == PopupCommit::Xdg { initial_configure_sent: false },
    }
}

/// What a commit of the surface leads to.
pub fn handle_commit(
    globals: &CompositorGlobals,
    surface: u64,
    initial_configure_sent: bool,
    popup: PopupCommit,
) -> (plan: CommitPlan)
    ensures
        plan == commit_plan(globals.windows@, surface, initial_configure_sent, popup),
        plan.window == window_with(globals.windows@, surface),
        plan.configure_toplevel == (plan.window is Some && !initial_configure_sent),
        plan.configure_popup == (popup == PopupCommit::Xdg { initial_configure_sent: false }),
{
    let window = globals.find_window(surface);
    let configure_popup = match popup {
        PopupCommit::Xdg { initial_configure_sent } => !initial_configure_sent,
        PopupCommit::NoPopup => false,
        PopupCommit::InputMethod => false,
    };
    CommitPlan {
        window,
        configure_toplevel: window.is_some() && !initial_configure_sent,
        configure_popup,
    }
}

/// The root of a surface's tree. `ancestors` are its parent, its parent's
/// parent, and so on.
pub open spec fn root_surface(surface: u64, ancestors: Seq<u64>) -> u64 {
    if ancestors.len() == 0 {
        surface
    } else {
        ancestors.last()
    }
}

/// A value brought into the range of `i32`.
pub open spec fn saturated(value: int) -> i32 {
    if value < i32::MIN {
        i32::MIN
    } else if value > i32::MAX {
        i32::MAX
    } else {
        value as i32
    }
}

fn saturating_difference(a: i32, b: i32) -> (difference: i32)
    ensures
        difference == saturated(a - b),
{
    let exact: i64 = a as i64 - b as i64;
    if exact < i32::MIN as i64 {
        i32::MIN
    } else if exact > i32::MAX as i64 {
        i32::MAX
    } else {
        exact as i32
    }
}

/// The area within which a popup is kept, relative to its parent: the output,
/// seen from the popup's place in its window.
pub open spec fn popup_area(output: Rectangle, popup_offset: Point, window: Point) -> Rectangle {
    Rectangle {
        loc: Point {
            x: saturated(saturated(output.loc.x - popup_offset.x) - window.x),
            y: saturated(saturated(output.loc.y - popup_offset.y) - window.y),
        },
        size: output.size,
    }
}

/// The area within which a popup is kept.
pub fn popup_target(output: Rectangle, popup_offset: Point, window: Point) -> (target: Rectangle)
    ensures
        target == popup_area(output, popup_offset, window),
{
    Rectangle {
        loc: Point {
            x: saturating_difference(saturating_difference(output.loc.x, popup_offset.x), window.x),
            y: saturating_difference(saturating_difference(output.loc.y, popup_offset.y), window.y),
        },
        size: output.size,
    }
}

/// The window that a popup belongs to, and the output that it is kept on.
#[derive(Clone, Copy, PartialEq, Eq, Structural, Debug)]
pub struct PopupParent {
    pub window: Window,
    pub output: u64,
}

/// Where a popup belongs: to the window with its topmost parent's surface, on
/// the first output.
pub open spec fn popup_parent(globals: CompositorGlobals, root: Option<u64>) -> Option<
    PopupParent,
> {
    match root {
        Some(root) => match window_with(globals.windows@, root) {
            Some(window) => Some(PopupParent { window, output: globals.outputs@[0] }),
            None => None,
        },
        None => None,
    }
}

/// The window that takes note of a commit.
pub open spec fn committed_window(
    windows: Seq<Window>,
    surface: u64,
    sync_subsurface: bool,
    ancestors: Seq<u64>,
) -> Option<Window> {
    if sync_subsurface {
        None
    } else {
        window_with(windows, root_surface(surface, ancestors))
    }
}

impl<B> App<B> {
    /// Only the globals differ between the two.
    pub open spec fn same_but_globals(self, other: Self) -> bool {
        &&& self.backend == other.backend
        &&& self.sleep == other.sleep
        &&& self.input_state == other.input_state
        &&& self.output_state == other.output_state
    }

    /// The space and the mapped windows.
    pub fn globals(&self) -> (globals: &CompositorGlobals)
        ensures
            *globals == self.globals,
    {
        &self.globals
    }

    /// The compositor at start: awake, with nothing mapped, and with the
    /// pointer showing the icon with the number, whose cursor file is
    /// `cursor_file`. `None` where that file cannot be read as a cursor file.
    pub fn init(backend: B, icon: u32, cursor_file: &Vec<u8>) -> (app: Option<Self>)
        ensures
            app is Some <==> xcursor_images(cursor_file@) is Some,
            app matches Some(app) ==> {
                &&& app.backend == backend
                &&& app.globals.wf()
                &&& app.globals.windows@ == Seq::<Window>::empty()
                &&& app.globals.outputs@ == Seq::<u64>::empty()
                &&& slots(app.globals.mapped_windows) == no_windows()
                &&& !app.sleep
                &&& app.output_state.outputs@ == Map::<u64, OutputEntry>::empty()
                &&& app.input_state.cursor.wf()
                &&& app.input_state.cursor.status == CursorImageStatus::Named(icon)
                &&& app.input_state.cursor.pictures() == Map::<u32, Seq<ImageView>>::empty().insert(
                    icon,
                    xcursor_images(cursor_file@)->0,
                )
            },
    {
        match InputState::new(icon, cursor_file) {
            Some(input_state) => Some(
                App {
                    backend,
                    globals: CompositorGlobals::new(),
                    sleep: false,
                    input_state,
                    output_state: OutputState::default(),
                },
            ),
            None => None,
        }
    }

    /// The answer to a request to exit, after which the compositor ends.
    pub fn exit() -> (response: Response)
        ensures
            response == Response::Exit,
    {
        Response::Exit
    }

    /// The answer to a ping.
    pub fn ping() -> (response: Response)
        ensures
            response == Response::Ping,
    {
        Response::Ping
    }

    /// The answer to a request for the plugins: all that the engine lists, in
    /// its order.
    pub fn get_plugin_list(plugins: Vec<Plugin>) -> (response: Response)
        ensures
            response == Response::PluginList(plugins),
    {
        Response::PluginList(plugins)
    }

    /// The answer to a request to restart a plugin. A refusal goes back to the
    /// client with the engine's message.
    pub fn restart_plugin(outcome: Result<(), EngineError>) -> (response: Response)
        ensures
            match outcome {
                Ok(_) => response == Response::RestartOk,
                Err(EngineError::PluginNotFound(message)) => response == Response::RestartError(
                    message,
                ),
            },
    {
        match outcome {
            Ok(_) => Response::RestartOk,
            Err(EngineError::PluginNotFound(message)) => Response::RestartError(message),
        }
    }

    /// What a request on the control socket leads to: an answer at once, or a
    /// question to the plugin engine.
    pub fn handle_socket(request: CompositorRequest) -> (step: RequestStep)
        ensures
            match request {
                CompositorRequest::Exit => step == RequestStep::Answer(Response::Exit),
                CompositorRequest::Ping => step == RequestStep::Answer(Response::Ping),
                CompositorRequest::GetPluginList => step == RequestStep::ListPlugins,
                CompositorRequest::RestartPlugin { plugin_id } => step
                    == RequestStep::RestartPlugin(plugin_id),
            },
    {
        match request {
            CompositorRequest::Exit => RequestStep::Answer(Self::exit()),
            CompositorRequest::Ping => RequestStep::Answer(Self::ping()),
            CompositorRequest::GetPluginList => RequestStep::ListPlugins,
            CompositorRequest::RestartPlugin { plugin_id } => RequestStep::RestartPlugin(plugin_id),
        }
    }

    /// Maps an output into the space.
    pub fn map_output(&mut self, output: u64)
        requires
            old(self).globals.wf(),
        ensures
            final(self).globals.wf(),
            final(self).same_but_globals(*old(self)),
            final(self).globals.windows@ == old(self).globals.windows@,
            slots(final(self).globals.mapped_windows) == slots(old(self).globals.mapped_windows),
            final(self).globals.outputs@ == with_output(old(self).globals.outputs@, output),
    {
        self.globals.map_output(output);
    }

    /// Where a popup belongs whose topmost parent has the surface `root`. `None`
    /// where it has no such parent, or the parent is not mapped: the popup is
    /// then left where the client wants it.
    pub fn unconstrain_popup(&self, root: Option<u64>) -> (parent: Option<PopupParent>)
        requires
            root is Some && window_index(self.globals.windows@, root->0) is Some
                ==> self.globals.outputs@.len() > 0,
        ensures
            parent == popup_parent(self.globals, root),
    {
        let root = match root {
            Some(root) => root,
            None => return None,
        };
        match self.globals.find_window(root) {
            Some(window) => Some(
                PopupParent { window, output: self.globals.first_output().unwrap() },
            ),
            None => None,
        }
    }

    /// The window that takes note of a commit: the one at the root of the
    /// surface's tree, unless the surface waits for its parent's commit.
    pub fn commit(&self, surface: u64, sync_subsurface: bool, ancestors: &Vec<u64>) -> (window:
        Option<Window>)
        ensures
            window == committed_window(
                self.globals.windows@,
                surface,
                sync_subsurface,
                ancestors@,
            ),
    {
        if sync_subsurface {
            return None;
        }
        let root = if ancestors.len() == 0 {
            surface
        } else {
            ancestors[ancestors.len() - 1]
        };
        self.globals.find_window(root)
    }

    /// A new toplevel: a window for it goes on top of the space, at its origin,
    /// and is active.
    /// The key comes back, by which the plugins are told of it.
    pub fn new_toplevel(&mut self, surface: u64) -> (key: u64)
        requires
            old(self).globals.wf(),
            old(self).globals.windows@.len() < u32::MAX - 1,
        ensures
            final(self).globals.wf(),
            final(self).same_but_globals(*old(self)),
            !slots(old(self).globals.mapped_windows).contains_key(key),
            final(self).globals.windows@ == old(self).globals.windows@.push(
                Window { surface, key, location: Point { x: 0, y: 0 } },
            ),
            final(self).globals.outputs@ == old(self).globals.outputs@,
            slots(final(self).globals.mapped_windows) == activated(
                slots(old(self).globals.mapped_windows).insert(key, new_record(surface)),
                Some(key),
            ),
    {
        self.globals.map_window(surface)
    }

    /// A toplevel is gone: so are its window and the window's record. The key
    /// comes back, by which the plugins are told of it.
    pub fn toplevel_destroyed(&mut self, surface: u64) -> (key: u64)
        requires
            old(self).globals.wf(),
            window_index(old(self).globals.windows@, surface) is Some,
        ensures
            final(self).globals.wf(),
            final(self).same_but_globals(*old(self)),
            key == window_with(old(self).globals.windows@, surface)->0.key,
            final(self).globals.windows@ == old(self).globals.windows@.remove(
                window_index(old(self).globals.windows@, surface)->0,
            ),
            final(self).globals.outputs@ == old(self).globals.outputs@,
            slots(final(self).globals.mapped_windows) == slots(
                old(self).globals.mapped_windows,
            ).remove(key),
    {
        self.globals.unmap_window(surface)
    }

    /// The window that a client starts to move, with the place that it starts
    /// from. `None` where the request is to
    /// be ignored.
    pub fn move_request(&self, surface: u64, pointer: Option<PointerState>) -> (window: Option<
        Window,
    >)
        requires
            grab_allowed(pointer) ==> window_index(self.globals.windows@, surface) is Some,
        ensures
            window == (if grab_allowed(pointer) {
                window_with(self.globals.windows@, surface)
            } else {
                None
            }),
    {
        match check_grab(pointer) {
            Some(_) => self.globals.find_window(surface),
            None => None,
        }
    }

    /// The window that a client starts to resize, with the pending state that
    /// is sent to it at once. `None` where the request is to be ignored.
    pub fn resize_request(&mut self, surface: u64, pointer: Option<PointerState>) -> (window:
        Option<(Window, ToplevelState)>)
        requires
            old(self).globals.wf(),
            grab_allowed(pointer) ==> window_index(old(self).globals.windows@, surface) is Some,
        ensures
            final(self).globals.wf(),
            final(self).same_but_globals(*old(self)),
            final(self).globals.windows@ == old(self).globals.windows@,
            final(self).globals.outputs@ == old(self).globals.outputs@,
            if grab_allowed(pointer) {
                let w = window_with(old(self).globals.windows@, surface)->0;
                let record = slots(old(self).globals.mapped_windows)[w.key];
                let pending = ToplevelState { resizing: true, ..record.pending };
                &&& window == Some((w, pending))
                &&& slots(final(self).globals.mapped_windows) == slots(
                    old(self).globals.mapped_windows,
                ).insert(w.key, MappedWindow { pending, ..record })
            } else {
                &&& window is None
                &&& slots(final(self).globals.mapped_windows) == slots(
                    old(self).globals.mapped_windows,
                )
            },
    {
        match check_grab(pointer) {
            Some(_) => {
                let window = self.globals.find_window(surface).unwrap();
                let pending = self.globals.edit_pending(surface, PendingEdit::Resizing(true)).unwrap();
                Some((window, pending))
            },
            None => None,
        }
    }

    /// An acknowledgement of a configure reaches the record of the toplevel's
    /// window. One for a popup, or for a toplevel that is not mapped, has no
    /// effect.
    pub fn ack_configure(&mut self, surface: u64, configure: Configure) -> (outcome: Option<
        AckOutcome,
    >)
        requires
            old(self).globals.wf(),
        ensures
            final(self).globals.wf(),
            final(self).same_but_globals(*old(self)),
            final(self).globals.windows@ == old(self).globals.windows@,
            final(self).globals.outputs@ == old(self).globals.outputs@,
            match (configure, window_with(old(self).globals.windows@, surface)) {
                (Configure::Toplevel { serial }, Some(w)) => {
                    let record = slots(old(self).globals.mapped_windows)[w.key];
                    &&& outcome == Some(record.ack_outcome(serial))
                    &&& slots(final(self).globals.mapped_windows) == slots(
                        old(self).globals.mapped_windows,
                    ).insert(w.key, record.acked(serial))
                },
                _ => {
                    &&& outcome is None
                    &&& slots(final(self).globals.mapped_windows) == slots(
                        old(self).globals.mapped_windows,
                    )
                },
            },
    {
        match configure {
            Configure::Toplevel { serial } => self.globals.ack_configure(surface, serial),
            Configure::Popup { .. } => None,
        }
    }

    /// The pending decoration mode of the window with the surface, if there is
    /// one, is the given mode.
    pub open spec fn decorated(self, before: Self, surface: u64, mode: Option<DecorationMode>) -> bool {
        &&& self.globals.wf()
        &&& self.same_but_globals(before)
        &&& self.globals.windows@ == before.globals.windows@
        &&& self.globals.outputs@ == before.globals.outputs@
        &&& slots(self.globals.mapped_windows) == match window_with(
            before.globals.windows@,
            surface,
        ) {
            Some(w) => {
                let record = slots(before.globals.mapped_windows)[w.key];
                slots(before.globals.mapped_windows).insert(
                    w.key,
                    MappedWindow {
                        pending: ToplevelState { decoration_mode: mode, ..record.pending },
                        ..record
                    },
                )
            },
            None => slots(before.globals.mapped_windows),
        }
    }

    /// A toplevel gets a decoration object: the client draws its own
    /// decorations. The mode comes back, which is sent at once.
    pub fn new_decoration(&mut self, surface: u64) -> (mode: Option<DecorationMode>)
        requires
            old(self).globals.wf(),
        ensures
            mode == Some(DecorationMode::ClientSide),
            final(self).decorated(*old(self), surface, mode),
    {
        let mode = Some(DecorationMode::ClientSide);
        let _pending = self.globals.edit_pending(surface, PendingEdit::Decoration(mode));
        mode
    }

    /// A client asks for a decoration mode. Whatever it asks for, it is told to
    /// draw its own decorations.
    pub fn request_mode(&mut self, surface: u64, _requested: DecorationMode) -> (mode: Option<
        DecorationMode,
    >)
        requires
            old(self).globals.wf(),
        ensures
            mode == Some(DecorationMode::ClientSide),
            final(self).decorated(*old(self), surface, mode),
    {
        let mode = Some(DecorationMode::ClientSide);
        let _pending = self.globals.edit_pending(surface, PendingEdit::Decoration(mode));
        mode
    }

    /// A client gives up its decoration mode: none is settled.
    pub fn unset_mode(&mut self, surface: u64) -> (mode: Option<DecorationMode>)
        requires
            old(self).globals.wf(),
        ensures
            mode is None,
            final(self).decorated(*old(self), surface, mode),
    {
        let mode: Option<DecorationMode> = None;
        let _pending = self.globals.edit_pending(surface, PendingEdit::Decoration(mode));
        mode
    }
}

} // verus!
