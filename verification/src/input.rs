//! What input events do.

use vstd::prelude::*;

use crate::globals::{activated, raises, window_keys, CompositorGlobals};
use crate::output::Output;
use crate::slots::slots;
use crate::state::App;

verus! {

#[derive(Clone, Copy, PartialEq, Eq, Structural, Debug)]
pub enum KeyState {
    Released,
    Pressed,
}

/// What becomes of a key before the focused client would get it.
#[derive(Clone, Copy, PartialEq, Eq, Structural, Debug)]
pub enum FilterResult {
    /// The client gets it.
    Forward,
    /// The client does not get it; the session switches to the virtual
    /// terminal.
    SwitchVt(i32),
}

/// Keys that a backend keeps for itself.
pub trait SpecialActions {
    spec fn tty_keys(&self, state: KeyState, keysym: u32) -> FilterResult;

    fn handle_tty_keys(&self, state: KeyState, keysym: u32) -> (result: FilterResult)
        ensures
            result == self.tty_keys(state, keysym),
    ;
}

/// Where a real number lies among the integers: the largest integer that is not
/// above it, and whether it lies above that one.
#[derive(Clone, Copy, PartialEq, Eq, Structural, Debug)]
pub struct Coordinate {
    pub floor: i64,
    pub fractional: bool,
}

impl Coordinate {
    /// The number's place on a scale on which the integer `n` stands at `2 * n`
    /// and everything between two integers stands between their places.
    pub open spec fn place(self) -> int {
        2 * self.floor + if self.fractional {
            1int
        } else {
            0
        }
    }
}

/// A pointer coordinate after clamping.
#[derive(Clone, Copy, PartialEq, Eq, Structural, Debug)]
pub enum AxisLocation {
    /// The coordinate stays as it is.
    Unchanged,
    /// The coordinate becomes the bound.
    Bound(i32),
}

impl AxisLocation {
    /// The place of the clamped coordinate.
    pub open spec fn place(self, raw: Coordinate) -> int {
        match self {
            AxisLocation::Unchanged => raw.place(),
            AxisLocation::Bound(bound) => 2 * bound,
        }
    }
}

/// A coordinate below `low` is moved up to it; what is then above `high` is
/// moved down to that. So where the bounds contradict each other, `high` wins.
pub open spec fn clamped_axis(raw: Coordinate, low: i32, high: i32) -> AxisLocation {
    let lifted = if raw.place() < 2 * low {
        AxisLocation::Bound(low)
    } else {
        AxisLocation::Unchanged
    };
    if lifted.place(raw) > 2 * high {
        AxisLocation::Bound(high)
    } else {
        lifted
    }
}

/// Clamps a pointer coordinate.
pub fn clamp_axis(raw: Coordinate, low: i32, high: i32) -> (location: AxisLocation)
    ensures
        location == clamped_axis(raw, low, high),
        location matches AxisLocation::Bound(bound) ==> bound == low || bound == high,
        location == AxisLocation::Unchanged <==> low <= raw.floor && (raw.floor < high || raw.floor
            == high && !raw.fractional),
{
    if raw.floor < low as i64 {
        if low > high {
            AxisLocation::Bound(high)
        } else {
            AxisLocation::Bound(low)
        }
    } else if raw.floor > high as i64 || (raw.floor == high as i64 && raw.fractional) {
        AxisLocation::Bound(high)
    } else {
        AxisLocation::Unchanged
    }
}

/// What a scroll amount is, as far as scrolling depends on it.
#[derive(Clone, Copy, PartialEq, Eq, Structural, Debug)]
pub enum Amount {
    Absent,
    Zero,
    NonZero,
}

/// The scroll amounts of one axis.
#[derive(Clone, Copy, PartialEq, Eq, Structural, Debug)]
pub struct AxisSample {
    /// The amount in pixels.
    pub amount: Amount,
    /// The amount in steps of a wheel, scaled to pixels.
    pub amount_v120: Amount,
}

/// Where the scrolled distance of an axis comes from.
#[derive(Clone, Copy, PartialEq, Eq, Structural, Debug)]
pub enum ScrollValue {
    /// The axis did not scroll.
    Nothing,
    /// The amount in pixels.
    Amount,
    /// The amount in steps of a wheel, scaled to pixels.
    Steps,
}

/// What is sent for one axis.
#[derive(Clone, Copy, PartialEq, Eq, Structural, Debug)]
pub struct AxisPlan {
    /// The distance, sent with the direction.
    pub value: ScrollValue,
    /// Whether the steps of the wheel are sent as well.
    pub v120: bool,
    /// Whether the end of scrolling is sent.
    pub stop: bool,
}

/// How many pixels one step of a wheel scrolls, and into how many parts a step
/// is divided.
pub const PIXELS_PER_STEP: i32 = 15;

pub const PARTS_PER_STEP: i32 = 120;

/// The distance is the amount in pixels, or, where there is none, the steps of
/// the wheel; a distance of zero is not sent. The steps go along with a
/// distance. A finger that rests, with an amount of zero pixels, ends the
/// scrolling.
pub open spec fn planned_axis(sample: AxisSample, finger: bool) -> AxisPlan {
    let value = match sample.amount {
        Amount::NonZero => ScrollValue::Amount,
        Amount::Zero => ScrollValue::Nothing,
        Amount::Absent => if sample.amount_v120 == Amount::NonZero {
            ScrollValue::Steps
        } else {
            ScrollValue::Nothing
        },
    };
    AxisPlan {
        value,
        v120: value != ScrollValue::Nothing && sample.amount_v120 != Amount::Absent,
        stop: finger && sample.amount == Amount::Zero,
    }
}

/// What is sent for one axis.
pub fn plan_axis(sample: AxisSample, finger: bool) -> (plan: AxisPlan)
    ensures
        plan == planned_axis(sample, finger),
        plan.value == ScrollValue::Amount <==> sample.amount == Amount::NonZero,
        plan.value == ScrollValue::Steps <==> sample.amount == Amount::Absent && sample.amount_v120
            == Amount::NonZero,
        plan.v120 <==> plan.value != ScrollValue::Nothing && sample.amount_v120 != Amount::Absent,
        plan.stop <==> finger && sample.amount == Amount::Zero,
{
    let value = match sample.amount {
        Amount::NonZero => ScrollValue::Amount,
        Amount::Zero => ScrollValue::Nothing,
        Amount::Absent => match sample.amount_v120 {
            Amount::NonZero => ScrollValue::Steps,
            _ => ScrollValue::Nothing,
        },
    };
    AxisPlan {
        value,
        v120: value != ScrollValue::Nothing && sample.amount_v120 != Amount::Absent,
        stop: finger && sample.amount == Amount::Zero,
    }
}

/// What the compositor itself does on a key.
#[derive(Clone, Copy, PartialEq, Eq, Structural, Debug)]
pub enum KeyAction {
    Nothing,
    /// The compositor ends.
    Exit,
    /// A terminal is started.
    SpawnTerminal,
}

/// The key code of the Escape key.
pub const KEY_EXIT: u32 = 9;

/// The key code of the digit 1.
pub const KEY_TERMINAL: u32 = 10;

/// Pressing or releasing the first key ends the compositor; releasing the
/// second one starts a terminal.
pub open spec fn action_of_key(keycode: u32, state: KeyState) -> KeyAction {
    if keycode == KEY_EXIT {
        KeyAction::Exit
    } else if keycode == KEY_TERMINAL && state == KeyState::Released {
        KeyAction::SpawnTerminal
    } else {
        KeyAction::Nothing
    }
}

/// What the compositor itself does on a key.
pub fn key_action(keycode: u32, state: KeyState) -> (action: KeyAction)
    ensures
        action == action_of_key(keycode, state),
{
    if keycode == KEY_EXIT {
        return KeyAction::Exit;
    }
    if keycode == KEY_TERMINAL && state == KeyState::Released {
        return KeyAction::SpawnTerminal;
    }
    KeyAction::Nothing
}

/// The window under the pointer, with the surface of it that is hit.
#[derive(Clone, Copy, PartialEq, Eq, Structural, Debug)]
pub struct WindowUnder {
    pub key: u64,
    pub surface: u64,
}

/// An input event.
#[derive(Clone, Copy, PartialEq, Eq, Structural, Debug)]
pub enum InputEvent {
    /// The pointer moved; the coordinates are those that it moved to.
    PointerMotion { x: Coordinate, y: Coordinate },
    /// The pointer is somewhere on the screen.
    PointerMotionAbsolute,
    /// A button changed, with what is under the pointer.
    PointerButton { state: KeyState, grabbed: bool, under: Option<WindowUnder> },
    /// Scrolling.
    PointerAxis { horizontal: AxisSample, vertical: AxisSample, finger: bool },
    Keyboard { keycode: u32, state: KeyState },
    /// Any other event.
    Other,
}

/// What a button does besides going to the client.
#[derive(Debug)]
pub enum ButtonAction {
    /// Nothing else happens.
    Nothing,
    /// The window, which is on top and active now, is configured, and the
    /// surface gets the keyboard focus.
    Focus { key: u64, surface: u64 },
    /// The windows, which are inactive now, are configured, and no surface has
    /// the keyboard focus.
    Unfocus { windows: Vec<u64> },
}

/// What an input event leads to.
#[derive(Debug)]
pub enum InputAction {
    /// The pointer goes to the location.
    Move { x: AxisLocation, y: AxisLocation },
    /// The pointer goes to its place on the output.
    MoveOnOutput { output: u64 },
    Button(ButtonAction),
    Axis { horizontal: AxisPlan, vertical: AxisPlan },
    Key(KeyAction),
    Ignore,
}

/// The pointer location clamped to an output: not left of or above its
/// location, and not beyond its size.
pub open spec fn clamped_to_output(x: Coordinate, y: Coordinate, output: Output) -> (
    AxisLocation,
    AxisLocation,
) {
    let size = output.mode->0.size;
    (
        clamped_axis(x, output.location.x, size.width),
        clamped_axis(y, output.location.y, size.height),
    )
}

/// A button press on its own, which no grab takes, moves the focus.
pub open spec fn moves_focus(state: KeyState, grabbed: bool) -> bool {
    state == KeyState::Pressed && !grabbed
}

/// What a button does: a press that no grab takes raises and activates the
/// window that it hits, or, where it hits none, deactivates all; any other
/// change of a button leaves the space alone.
pub open spec fn button_leads_to(
    before: CompositorGlobals,
    state: KeyState,
    grabbed: bool,
    under: Option<WindowUnder>,
    button: ButtonAction,
    after: CompositorGlobals,
) -> bool {
    &&& after.outputs == before.outputs
    &&& match under {
        Some(hit) if moves_focus(state, grabbed) => {
            &&& button == ButtonAction::Focus { key: hit.key, surface: hit.surface }
            &&& raises(before.windows@, after.windows@, hit.key)
            &&& slots(after.mapped_windows) == (if window_keys(before.windows@).contains(hit.key) {
                activated(slots(before.mapped_windows), Some(hit.key))
            } else {
                slots(before.mapped_windows)
            })
        },
        None if moves_focus(state, grabbed) => {
            &&& after.windows == before.windows
            &&& slots(after.mapped_windows) == activated(slots(before.mapped_windows), None)
            &&& button matches ButtonAction::Unfocus { windows }
            &&& windows@ == window_keys(before.windows@)
        },
        _ => {
            &&& after == before
            &&& button == ButtonAction::Nothing
        },
    }
}

impl<B> App<B> {
    /// There is an output, and every output has a mode.
    pub open spec fn outputs_have_modes(self) -> bool {
        &&& !self.output_state.outputs@.is_empty()
        &&& forall|id: u64| #[trigger]
            self.output_state.outputs@.contains_key(id) ==> self.output_state.outputs@[id].output.mode
                is Some
    }

    /// Keeps a pointer location on one of the outputs.
    pub fn clamp_pointer_location(&self, x: Coordinate, y: Coordinate) -> (location: (
        AxisLocation,
        AxisLocation,
    ))
        requires
            self.outputs_have_modes(),
        ensures
            exists|id: u64| #[trigger]
                self.output_state.outputs@.contains_key(id) && location == clamped_to_output(
                    x,
                    y,
                    self.output_state.outputs@[id].output,
                ),
    {
        let output = self.output_state.any_output().unwrap();
        let size = output.mode.unwrap().size;
        (
            clamp_axis(x, output.location.x, size.width),
            clamp_axis(y, output.location.y, size.height),
        )
    }

    /// What an input event leads to. Only a button press can change the state:
    /// it raises and activates the window that it hits, and one that hits no
    /// window deactivates all.
    pub fn handle_input_event(&mut self, event: InputEvent) -> (action: InputAction)
        requires
            old(self).globals.wf(),
            event is PointerMotion ==> old(self).outputs_have_modes(),
            event is PointerMotionAbsolute ==> old(self).globals.outputs@.len() > 0,
        ensures
            final(self).globals.wf(),
            final(self).backend == old(self).backend,
            final(self).sleep == old(self).sleep,
            final(self).input_state == old(self).input_state,
            final(self).output_state == old(self).output_state,
            event matches InputEvent::PointerButton { state, grabbed, under } ==> {
                &&& state == KeyState::Released || grabbed ==> action == InputAction::Button(
                    ButtonAction::Nothing,
                ) && final(self).globals == old(self).globals
                &&& state == KeyState::Pressed && !grabbed && under is Some ==> action
                    == InputAction::Button(
                    ButtonAction::Focus { key: under->0.key, surface: under->0.surface },
                )
                &&& state == KeyState::Pressed && !grabbed && under is None ==> {
                    &&& action matches InputAction::Button(button)
                    &&& button is Unfocus
                }
            },
            match event {
                InputEvent::PointerMotion { x, y } => {
                    &&& final(self).globals == old(self).globals
                    &&& exists|id: u64| #[trigger]
                        old(self).output_state.outputs@.contains_key(id) && {
                            let location = clamped_to_output(
                                x,
                                y,
                                old(self).output_state.outputs@[id].output,
                            );
                            action == InputAction::Move { x: location.0, y: location.1 }
                        }
                },
                InputEvent::PointerMotionAbsolute => {
                    &&& final(self).globals == old(self).globals
                    &&& action == InputAction::MoveOnOutput {
                        output: old(self).globals.outputs@[0],
                    }
                },
                InputEvent::PointerButton { state, grabbed, under } => {
                    &&& action matches InputAction::Button(button)
                    &&& button_leads_to(
                        old(self).globals,
                        state,
                        grabbed,
                        under,
                        button,
                        final(self).globals,
                    )
                },
                InputEvent::PointerAxis { horizontal, vertical, finger } => {
                    &&& final(self).globals == old(self).globals
                    &&& action == InputAction::Axis {
                        horizontal: planned_axis(horizontal, finger),
                        vertical: planned_axis(vertical, finger),
                    }
                },
                InputEvent::Keyboard { keycode, state } => {
                    &&& final(self).globals == old(self).globals
                    &&& action == InputAction::Key(action_of_key(keycode, state))
                },
                InputEvent::Other => {
                    &&& final(self).globals == old(self).globals
                    &&& action == InputAction::Ignore
                },
            },
    {
        match event {
            InputEvent::PointerMotion { x, y } => {
                let (x, y) = self.clamp_pointer_location(x, y);
                InputAction::Move { x, y }
            },
            InputEvent::PointerMotionAbsolute => {
                let output = self.globals.first_output().unwrap();
                InputAction::MoveOnOutput { output }
            },
            InputEvent::PointerButton { state, grabbed, under } => {
                if state == KeyState::Pressed && !grabbed {
                    match under {
                        Some(hit) => {
                            self.globals.raise_window(hit.key);
                            InputAction::Button(
                                ButtonAction::Focus { key: hit.key, surface: hit.surface },
                            )
                        },
                        None => {
                            let windows = self.globals.deactivate_windows();
                            InputAction::Button(ButtonAction::Unfocus { windows })
                        },
                    }
                } else {
                    InputAction::Button(ButtonAction::Nothing)
                }
            },
            InputEvent::PointerAxis { horizontal, vertical, finger } => InputAction::Axis {
                horizontal: plan_axis(horizontal, finger),
                vertical: plan_axis(vertical, finger),
            },
            InputEvent::Keyboard { keycode, state } => InputAction::Key(key_action(keycode, state)),
            InputEvent::Other => InputAction::Ignore,
        }
    }
}

} // verus!
