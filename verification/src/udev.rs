//! The compositor on the display hardware: devices, connectors and the render
//! cycle.

use std::collections::HashMap;

use vstd::prelude::*;

use crate::backend::{Device, UdevData};
use crate::connector::{
    announces, output_info, plan_connector, plans, Connector, ConnectorPlan, DisplayInfo,
    OutputInfo,
};
use crate::geometry::{Point, Rectangle, Size};
use crate::globals::with_output;
use crate::output::{Output, OutputEntry, RenderState, UdevOutputState};
use crate::laws::law_map_output_once;
use crate::slots::slots;
use crate::state::App;

verus! {

broadcast use vstd::std_specs::hash::group_hash_axioms;

/// A change of the login session.
#[derive(Clone, Copy, PartialEq, Eq, Structural, Debug)]
pub enum SessionEvent {
    PauseSession,
    ActivateSession,
}

/// A change among the display devices.
#[derive(Clone, Copy, PartialEq, Eq, Structural, Debug)]
pub enum UdevEvent {
    /// A device appeared. The node is `None` where it could not be looked up.
    Added { device_id: u64, node: Option<u64> },
    Changed { device_id: u64 },
    Removed { device_id: u64 },
}

/// What a change among the display devices calls for.
#[derive(Clone, Copy, PartialEq, Eq, Structural, Debug)]
pub enum DeviceAction {
    Ignore,
    /// The device is opened, and its connectors are scanned.
    Open,
    /// The connectors are scanned.
    Scan,
    /// The connectors are disconnected.
    Disconnect,
}

/// A change of a connector. The display controller is `None` where none could
/// be found for it.
#[derive(Clone, Copy, PartialEq, Eq, Structural, Debug)]
pub enum ScanEvent {
    Connected { crtc: Option<u32> },
    Disconnected { crtc: Option<u32> },
}

/// What a change of a connector calls for.
#[derive(Clone, Copy, PartialEq, Eq, Structural, Debug)]
pub enum ScanAction {
    Ignore,
    Connect { crtc: u32 },
    Disconnect { crtc: u32 },
}

/// A connector without a display controller is passed over.
pub open spec fn action_of_scan(event: ScanEvent) -> ScanAction {
    match event {
        ScanEvent::Connected { crtc: Some(crtc) } => ScanAction::Connect { crtc },
        ScanEvent::Disconnected { crtc: Some(crtc) } => ScanAction::Disconnect { crtc },
        _ => ScanAction::Ignore,
    }
}

/// What a change of a connector calls for.
pub fn scan_action(event: ScanEvent) -> (action: ScanAction)
    ensures
        action == action_of_scan(event),
{
    match event {
        ScanEvent::Connected { crtc: Some(crtc) } => ScanAction::Connect { crtc },
        ScanEvent::Disconnected { crtc: Some(crtc) } => ScanAction::Disconnect { crtc },
        _ => ScanAction::Ignore,
    }
}

/// The time stamp of a frame.
#[derive(Clone, Copy, PartialEq, Eq, Structural, Debug)]
pub enum DrmEventTime {
    /// Seconds and nanoseconds on the monotonic clock.
    Monotonic { secs: u64, nanos: u32 },
    /// A time on the wall clock.
    Realtime,
}

/// When a frame was shown, in seconds and nanoseconds. A time on the wall clock
/// cannot be reported and counts as zero.
pub open spec fn shown_at(time: DrmEventTime) -> (u64, u32) {
    match time {
        DrmEventTime::Monotonic { secs, nanos } => (secs, nanos),
        DrmEventTime::Realtime => (0u64, 0u32),
    }
}

/// When a frame was shown.
pub fn presentation_time(time: DrmEventTime) -> (shown: (u64, u32))
    ensures
        shown == shown_at(time),
{
    match time {
        DrmEventTime::Monotonic { secs, nanos } => (secs, nanos),
        DrmEventTime::Realtime => (0, 0),
    }
}

/// What came of drawing a frame.
#[derive(Clone, Copy, PartialEq, Eq, Structural, Debug)]
pub enum FrameResult {
    /// The frame was drawn; it is empty where nothing had changed.
    Rendered { is_empty: bool },
    Failed,
}

/// What follows the drawing of a frame.
#[derive(Clone, Copy, PartialEq, Eq, Structural, Debug)]
pub enum FrameStep {
    /// Nothing: the screen is up to date.
    Done,
    /// The frame is handed to the display controller.
    QueueFrame,
    /// The buffers are thrown away.
    ResetBuffers,
}

/// What follows the drawing of a frame.
pub open spec fn step_after_render(result: FrameResult) -> FrameStep {
    match result {
        FrameResult::Rendered { is_empty: true } => FrameStep::Done,
        FrameResult::Rendered { is_empty: false } => FrameStep::QueueFrame,
        FrameResult::Failed => FrameStep::ResetBuffers,
    }
}

/// What follows the drawing of a frame.
pub fn after_render(result: FrameResult) -> (step: FrameStep)
    ensures
        step == step_after_render(result),
{
    match result {
        FrameResult::Rendered { is_empty } => if is_empty {
            FrameStep::Done
        } else {
            FrameStep::QueueFrame
        },
        FrameResult::Failed => FrameStep::ResetBuffers,
    }
}

/// The elements of a frame, front to back: the marker at the pointer's
/// location, the first element of the pointer's picture, if there is one, and
/// then the space.
pub open spec fn frame_elements<E>(space: Seq<E>, cursor: Seq<E>, marker: E) -> Seq<E> {
    seq![marker] + cursor.take(
        if cursor.len() == 0 {
            0
        } else {
            1
        },
    ) + space
}

/// The elements of a frame, front to back.
pub fn compose_elements<E>(space: Vec<E>, cursor: Vec<E>, marker: E) -> (elements: Vec<E>)
    ensures
        elements@ == frame_elements(space@, cursor@, marker),
{
    let mut elements = space;
    let mut cursor = cursor;
    if cursor.len() > 0 {
        let picture = cursor.remove(0);
        elements.insert(0, picture);
    }
    elements.insert(0, marker);
    elements
}

/// The marker that is drawn at the pointer's location.
pub open spec fn marker_at(location: Point) -> Rectangle {
    Rectangle { loc: location, size: Size { width: 6, height: 16 } }
}

/// The marker that is drawn at the pointer's location.
pub fn marker_rect(location: Point) -> (rect: Rectangle)
    ensures
        rect == marker_at(location),
{
    Rectangle { loc: location, size: Size { width: 6, height: 16 } }
}

/// The first of the nodes that could be opened.
pub open spec fn is_first_node(nodes: Seq<Option<u64>>, index: int) -> bool {
    &&& 0 <= index < nodes.len()
    &&& nodes[index] is Some
    &&& forall|j: int| 0 <= j < index ==> (#[trigger] nodes[j]) is None
}

/// The first of the display controllers that drives a display.
pub open spec fn is_first_driven(
    crtcs: Seq<u32>,
    surfaces: Map<u32, OutputInfo>,
    index: int,
) -> bool {
    &&& 0 <= index < crtcs.len()
    &&& surfaces.contains_key(crtcs[index])
    &&& forall|j: int| 0 <= j < index ==> !surfaces.contains_key(#[trigger] crtcs[j])
}

impl UdevData {
    /// The backend at start. It draws on the node of the primary GPU, or, where
    /// there is none, on the first node of any GPU that could be opened; one of
    /// them has to be there.
    pub fn init(primary: Option<u64>, gpus: &Vec<Option<u64>>) -> (data: Self)
        requires
            primary is Some || exists|i: int| 0 <= i < gpus@.len() && (#[trigger] gpus@[i]) is Some,
        ensures
            data.device is None,
            match primary {
                Some(node) => data.primary_node == node,
                None => exists|i: int| #[trigger]
                    is_first_node(gpus@, i) && data.primary_node == gpus@[i]->0,
            },
    {
        if let Some(primary_node) = primary {
            return UdevData { primary_node, device: None };
        }
        let mut i: usize = 0;
        while i < gpus.len() && gpus[i].is_none()
            invariant
                i <= gpus@.len(),
                forall|j: int| 0 <= j < i ==> (#[trigger] gpus@[j]) is None,
            decreases gpus@.len() - i,
        {
            i = i + 1;
        }
        assert(is_first_node(gpus@, i as int));
        UdevData { primary_node: gpus[i].unwrap(), device: None }
    }

    /// The device with the number is the one that is driven.
    pub open spec fn drives_device(self, device_id: u64) -> bool {
        self.device matches Some(device) && device.id == device_id
    }

    /// The surfaces that are driven.
    pub open spec fn surfaces(self) -> Map<u32, OutputInfo> {
        self.device->0.surfaces@
    }

    fn is_driven(&self, device_id: u64) -> (driven: bool)
        ensures
            driven == self.drives_device(device_id),
    {
        match &self.device {
            Some(device) => device.id == device_id,
            None => false,
        }
    }
}

impl App<UdevData> {
    /// Every surface that is driven has an output; every output belongs to a
    /// display controller, has a mode and is mapped into the space.
    pub open spec fn wf(self) -> bool {
        &&& self.globals.wf()
        &&& forall|id: u64| #[trigger]
            self.output_state.outputs@.contains_key(id) ==> {
                &&& self.output_state.outputs@[id].output.udev is Some
                &&& self.output_state.outputs@[id].output.mode is Some
                &&& self.globals.outputs@.contains(id)
            }
        &&& self.backend.device matches Some(device) ==> forall|crtc: u32| #[trigger]
            device.surfaces@.contains_key(crtc) ==> self.has_output(crtc, device.id)
    }

    /// Some output is driven by the display controller.
    pub open spec fn has_output(self, crtc: u32, device_id: u64) -> bool {
        exists|id: u64| #[trigger] self.output_state.drives(crtc, device_id, id)
    }

    /// Only the outputs differ between the two.
    pub open spec fn same_but_outputs(self, other: Self) -> bool {
        &&& self.backend == other.backend
        &&& self.globals == other.globals
        &&& self.sleep == other.sleep
        &&& self.input_state == other.input_state
    }

    /// While the session is paused the compositor sleeps. The device has to be
    /// there.
    pub fn session_event(&mut self, event: SessionEvent)
        requires
            old(self).backend.device is Some,
        ensures
            *final(self) == (App { sleep: event == SessionEvent::PauseSession, ..*old(self) }),
    {
        match event {
            SessionEvent::PauseSession => {
                self.sleep = true;
            },
            SessionEvent::ActivateSession => {
                self.sleep = false;
            },
        }
    }

    /// What a change among the display devices calls for: only a device on the
    /// primary node is opened, and only the device that is driven is looked at
    /// afterwards.
    pub open spec fn action_of_device(self, event: UdevEvent) -> DeviceAction {
        match event {
            UdevEvent::Added { node, .. } => if node == Some(self.backend.primary_node) {
                DeviceAction::Open
            } else {
                DeviceAction::Ignore
            },
            UdevEvent::Changed { device_id } => if self.backend.drives_device(device_id) {
                DeviceAction::Scan
            } else {
                DeviceAction::Ignore
            },
            UdevEvent::Removed { device_id } => if self.backend.drives_device(device_id) {
                DeviceAction::Disconnect
            } else {
                DeviceAction::Ignore
            },
        }
    }

    /// What a change among the display devices calls for.
    pub fn on_udev_event(&self, event: UdevEvent) -> (action: DeviceAction)
        ensures
            action == self.action_of_device(event),
    {
        match event {
            UdevEvent::Added { node, .. } => match node {
                Some(node) => if node == self.backend.primary_node {
                    DeviceAction::Open
                } else {
                    DeviceAction::Ignore
                },
                None => DeviceAction::Ignore,
            },
            UdevEvent::Changed { device_id } => if self.backend.is_driven(device_id) {
                DeviceAction::Scan
            } else {
                DeviceAction::Ignore
            },
            UdevEvent::Removed { device_id } => if self.backend.is_driven(device_id) {
                DeviceAction::Disconnect
            } else {
                DeviceAction::Ignore
            },
        }
    }

    /// The device has been opened and is driven from now on. It has no surfaces
    /// yet.
    pub fn device_added(&mut self, device_id: u64)
        requires
            old(self).wf(),
        ensures
            final(self).wf(),
            final(self).backend.primary_node == old(self).backend.primary_node,
            final(self).backend.device matches Some(device) && device.id == device_id
                && device.surfaces@ == Map::<u32, OutputInfo>::empty(),
            final(self).globals == old(self).globals,
            final(self).sleep == old(self).sleep,
            final(self).input_state == old(self).input_state,
            final(self).output_state == old(self).output_state,
    {
        self.backend.device = Some(Device { id: device_id, surfaces: HashMap::new() });
    }

    /// A display is driven by the display controller: its output, with a number
    /// that no other output has, is mapped and has to be drawn. How it is
    /// driven comes back. The controller must not drive another display.
    pub fn connector_connected(
        &mut self,
        output: u64,
        crtc: u32,
        connector: &Connector,
        display: Option<DisplayInfo>,
    ) -> (plan: ConnectorPlan)
        requires
            connector.drivable(),
            old(self).wf(),
            old(self).backend.device is Some,
            !old(self).backend.surfaces().contains_key(crtc),
            !old(self).output_state.outputs@.contains_key(output),
        ensures
            final(self).wf(),
            final(self).backend.primary_node == old(self).backend.primary_node,
            final(self).backend.device is Some,
            final(self).backend.device->0.id == old(self).backend.device->0.id,
            final(self).backend.surfaces() == old(self).backend.surfaces().insert(
                crtc,
                final(self).backend.surfaces()[crtc],
            ),
            announces(
                final(self).backend.surfaces()[crtc],
                connector.interface,
                connector.interface_id,
                display,
            ),
            plans(plan, *connector, final(self).backend.surfaces()[crtc]),
            final(self).globals.windows@ == old(self).globals.windows@,
            slots(final(self).globals.mapped_windows) == slots(old(self).globals.mapped_windows),
            final(self).globals.outputs@ == with_output(old(self).globals.outputs@, output),
            final(self).sleep == old(self).sleep,
            final(self).input_state == old(self).input_state,
            final(self).output_state.outputs@ == old(self).output_state.outputs@.insert(
                output,
                OutputEntry {
                    output: Output {
                        udev: Some(
                            UdevOutputState { device_id: old(self).backend.device->0.id, crtc },
                        ),
                        location: plan.location,
                        mode: Some(plan.mode),
                    },
                    state: RenderState::Queued,
                },
            ),
    {
        let info = output_info(connector.interface, connector.interface_id, display);
        let plan = plan_connector(connector, &info);
        let device_id = match &mut self.backend.device {
            Some(device) => {
                device.surfaces.insert(crtc, info);
                device.id
            },
            None => 0,
        };
        self.globals.map_output(output);
        self.output_state.add_output(
            output,
            Output {
                udev: Some(UdevOutputState { device_id, crtc }),
                location: plan.location,
                mode: Some(plan.mode),
            },
        );
        proof {
            law_map_output_once(old(self).globals.outputs@, output);
            assert forall|c: u32| #[trigger]
                self.backend.device->0.surfaces@.contains_key(c) implies self.has_output(
                c,
                device_id,
            ) by {
                if c == crtc {
                    assert(self.output_state.drives(c, device_id, output));
                } else {
                    assert(old(self).backend.device->0.surfaces@.contains_key(c));
                    assert(old(self).has_output(c, device_id));
                    let id = choose|id: u64| #[trigger]
                        old(self).output_state.drives(c, device_id, id);
                    assert(self.output_state.drives(c, device_id, id));
                }
            }
        }
        plan
    }

    /// A display controller no longer drives a display. Whether it drove one
    /// comes back.
    pub fn connector_disconnected(&mut self, crtc: u32) -> (was_driven: bool)
        requires
            old(self).wf(),
            old(self).backend.device is Some,
        ensures
            final(self).wf(),
            was_driven == old(self).backend.surfaces().contains_key(crtc),
            final(self).backend.primary_node == old(self).backend.primary_node,
            final(self).backend.device is Some,
            final(self).backend.device->0.id == old(self).backend.device->0.id,
            final(self).backend.surfaces() == old(self).backend.surfaces().remove(crtc),
            final(self).globals == old(self).globals,
            final(self).sleep == old(self).sleep,
            final(self).input_state == old(self).input_state,
            final(self).output_state == old(self).output_state,
    {
        let was_driven = match &mut self.backend.device {
            Some(device) => device.surfaces.remove(&crtc).is_some(),
            None => false,
        };
        proof {
            let device_id = old(self).backend.device->0.id;
            assert forall|c: u32| #[trigger]
                self.backend.device->0.surfaces@.contains_key(c) implies self.has_output(
                c,
                device_id,
            ) by {
                assert(old(self).backend.device->0.surfaces@.contains_key(c));
                assert(old(self).has_output(c, device_id));
                let id = choose|id: u64| #[trigger]
                    old(self).output_state.drives(c, device_id, id);
                assert(self.output_state.drives(c, device_id, id));
            }
        }
        was_driven
    }

    /// A device is gone: if it is the one that is driven, the display
    /// controllers in `crtcs` no longer drive displays. An output cannot be
    /// given up, so it ends with the first controller that drove a display,
    /// which comes back.
    pub fn device_removed(&mut self, device_id: u64, crtcs: &Vec<u32>) -> (stopped_at: Option<u32>)
        requires
            old(self).wf(),
        ensures
            final(self).wf(),
            final(self).backend.primary_node == old(self).backend.primary_node,
            final(self).globals == old(self).globals,
            final(self).sleep == old(self).sleep,
            final(self).input_state == old(self).input_state,
            final(self).output_state == old(self).output_state,
            match stopped_at {
                Some(crtc) => {
                    &&& old(self).backend.drives_device(device_id)
                    &&& exists|i: int| #[trigger]
                        is_first_driven(crtcs@, old(self).backend.surfaces(), i) && crtcs@[i] == crtc
                    &&& final(self).backend.drives_device(device_id)
                    &&& final(self).backend.surfaces() == old(self).backend.surfaces().remove(crtc)
                },
                None => {
                    &&& old(self).backend.drives_device(device_id) ==> forall|i: int|
                        0 <= i < crtcs@.len() ==> !old(self).backend.surfaces().contains_key(
                            #[trigger] crtcs@[i],
                        )
                    &&& final(self).backend.device is Some <==> old(self).backend.device is Some
                    &&& old(self).backend.device is Some ==> {
                        &&& final(self).backend.device->0.id == old(self).backend.device->0.id
                        &&& final(self).backend.surfaces() == old(self).backend.surfaces()
                    }
                },
            },
    {
        if !self.backend.is_driven(device_id) {
            return None;
        }
        let mut i: usize = 0;
        while i < crtcs.len()
            invariant
                i <= crtcs@.len(),
                old(self).backend.drives_device(device_id),
                forall|j: int|
                    0 <= j < i ==> !old(self).backend.surfaces().contains_key(
                        #[trigger] crtcs@[j],
                    ),
                self.wf(),
                self.backend.drives_device(device_id),
                self.backend.surfaces() == old(self).backend.surfaces(),
                self.backend.primary_node == old(self).backend.primary_node,
                self.globals == old(self).globals,
                self.sleep == old(self).sleep,
                self.input_state == old(self).input_state,
                self.output_state == old(self).output_state,
            decreases crtcs@.len() - i,
        {
            if self.connector_disconnected(crtcs[i]) {
                assert(is_first_driven(crtcs@, old(self).backend.surfaces(), i as int));
                return Some(crtcs[i]);
            }
            assert(self.backend.surfaces() =~= old(self).backend.surfaces());
            i = i + 1;
        }
        None
    }

    /// A frame has reached the screen: the output of the display controller is
    /// to be drawn again. Its number comes back; `None` where the controller
    /// drives no display. The output must not be queued already.
    pub fn on_vblank(&mut self, crtc: u32) -> (output: Option<u64>)
        requires
            old(self).wf(),
            old(self).backend.device is Some,
            old(self).backend.surfaces().contains_key(crtc) ==> forall|id: u64| #[trigger]
                old(self).output_state.drives(crtc, old(self).backend.device->0.id, id) ==> old(
                    self,
                ).output_state.outputs@[id].state == RenderState::Idle,
        ensures
            final(self).wf(),
            final(self).same_but_outputs(*old(self)),
            match output {
                Some(id) => {
                    &&& old(self).backend.surfaces().contains_key(crtc)
                    &&& old(self).output_state.drives(crtc, old(self).backend.device->0.id, id)
                    &&& final(self).output_state.outputs@ == old(self).output_state.with_state(
                        id,
                        RenderState::Queued,
                    )
                },
                None => {
                    &&& !old(self).backend.surfaces().contains_key(crtc)
                    &&& final(self).output_state == old(self).output_state
                },
            },
    {
        let device_id = match &self.backend.device {
            Some(device) => {
                if !device.surfaces.contains_key(&crtc) {
                    return None;
                }
                device.id
            },
            None => return None,
        };
        assert(self.has_output(crtc, device_id));
        let output = self.output_state.udev_output(crtc, device_id).unwrap();
        self.output_state.queue_render(output);
        proof {
            lemma_state_changed(*old(self), *self, output);
        }
        Some(output)
    }

    /// The outputs that have to be drawn now: none while the compositor sleeps.
    pub fn render_all(&self) -> (outputs: Vec<u64>)
        ensures
            outputs@.no_duplicates(),
            forall|id: u64| #[trigger]
                outputs@.contains(id) <==> !self.sleep && self.output_state.is_queued(id),
    {
        if self.sleep {
            return Vec::new();
        }
        self.output_state.queued_outputs()
    }

    /// The display controller whose surface an output is drawn on.
    pub fn render_target(&self, output: u64) -> (crtc: u32)
        requires
            self.wf(),
            self.output_state.outputs@.contains_key(output),
        ensures
            self.output_state.outputs@[output].output.udev->0.crtc == crtc,
    {
        self.output_state.outputs.get(&output).unwrap().output.udev.unwrap().crtc
    }

    /// The frame of an output has been handed to the display controller, or
    /// could not be. In the first case the output rests until the frame has
    /// reached the screen; in the second it stays to be drawn.
    pub fn frame_queued(&mut self, output: u64, accepted: bool)
        requires
            old(self).wf(),
            old(self).output_state.outputs@.contains_key(output),
        ensures
            final(self).wf(),
            final(self).same_but_outputs(*old(self)),
            final(self).output_state.outputs@ == (if accepted {
                old(self).output_state.with_state(output, RenderState::Idle)
            } else {
                old(self).output_state.outputs@
            }),
            accepted ==> !final(self).output_state.is_queued(output),
            !accepted ==> final(self).output_state == old(self).output_state,
    {
        if accepted {
            self.output_state.wait_render_request(output);
            proof {
                lemma_state_changed(*old(self), *self, output);
            }
        }
    }
}

/// The render state of an output may change.
proof fn lemma_state_changed(before: App<UdevData>, after: App<UdevData>, output: u64)
    requires
        before.wf(),
        after.same_but_outputs(before),
        before.output_state.outputs@.contains_key(output),
        exists|state: RenderState|
            after.output_state.outputs@ == #[trigger] before.output_state.with_state(output, state),
    ensures
        after.wf(),
{
    if let Some(device) = after.backend.device {
        assert forall|crtc: u32| #[trigger]
            device.surfaces@.contains_key(crtc) implies after.has_output(crtc, device.id) by {
            assert(before.has_output(crtc, device.id));
            let id = choose|id: u64| #[trigger] before.output_state.drives(crtc, device.id, id);
            assert(after.output_state.drives(crtc, device.id, id));
        }
    }
}

} // verus!
