//! The outputs and where each stands in its render cycle.

use std::collections::HashMap;

use vstd::prelude::*;

use crate::geometry::{Mode, Point};

verus! {

broadcast use vstd::std_specs::hash::group_hash_axioms;

/// Where an output stands in its render cycle: idle while a frame is on its way
/// to the screen, queued while it has to be drawn.
#[derive(Clone, Copy, PartialEq, Eq, Structural, Debug)]
pub enum RenderState {
    Idle,
    Queued,
}

impl Default for RenderState {
    fn default() -> (state: Self)
        ensures
            state == RenderState::Idle,
    {
        RenderState::Idle
    }
}

impl RenderState {
    /// The state's name, for messages.
    pub fn name(&self) -> (name: &'static str)
        ensures
            name@ == (match *self {
                RenderState::Idle => "Idle"@,
                RenderState::Queued => "Queued"@,
            }),
    {
        match self {
            RenderState::Idle => "Idle",
            RenderState::Queued => "Queued",
        }
    }
}

/// The display controller that drives an output.
#[derive(Clone, Copy, PartialEq, Eq, Structural, Debug)]
pub struct UdevOutputState {
    pub device_id: u64,
    pub crtc: u32,
}

/// What the compositor reads off an output.
#[derive(Clone, Copy, PartialEq, Eq, Structural, Debug)]
pub struct Output {
    /// The display controller, for an output of the udev backend.
    pub udev: Option<UdevOutputState>,
    pub location: Point,
    pub mode: Option<Mode>,
}

/// An output with its place in the render cycle.
#[derive(Clone, Copy, PartialEq, Eq, Structural, Debug)]
pub struct OutputEntry {
    pub output: Output,
    pub state: RenderState,
}

/// The number stands among the first `n` of the keys.
spec fn among_first(keys: Seq<&u64>, n: int, number: u64) -> bool {
    exists|j: int| 0 <= j < n && *(#[trigger] keys[j]) == number
}

/// The outputs with one of them put into a state.
pub open spec fn put_state(
    outputs: Map<u64, OutputEntry>,
    output: u64,
    state: RenderState,
) -> Map<u64, OutputEntry> {
    outputs.insert(output, OutputEntry { output: outputs[output].output, state })
}

/// The outputs by number.
pub struct OutputState {
    pub outputs: HashMap<u64, OutputEntry>,
}

impl Default for OutputState {
    fn default() -> (state: Self)
        ensures
            state.outputs@ == Map::<u64, OutputEntry>::empty(),
    {
        OutputState { outputs: HashMap::new() }
    }
}

impl OutputState {
    /// The output with the number is driven by the display controller.
    pub open spec fn drives(self, crtc: u32, device_id: u64, output: u64) -> bool {
        &&& self.outputs@.contains_key(output)
        &&& self.outputs@[output].output.udev == Some(UdevOutputState { device_id, crtc })
    }

    /// The output with the number has to be drawn.
    pub open spec fn is_queued(self, output: u64) -> bool {
        &&& self.outputs@.contains_key(output)
        &&& self.outputs@[output].state == RenderState::Queued
    }

    /// The outputs with one of them put into a state.
    pub open spec fn with_state(self, output: u64, state: RenderState) -> Map<u64, OutputEntry> {
        put_state(self.outputs@, output, state)
    }

    /// A new output has to be drawn first.
    pub fn add_output(&mut self, output: u64, description: Output)
        ensures
            final(self).outputs@ == old(self).outputs@.insert(
                output,
                OutputEntry { output: description, state: RenderState::Queued },
            ),
    {
        self.outputs.insert(
            output,
            OutputEntry { output: description, state: RenderState::Queued },
        );
    }

    pub fn remove_output(&mut self, output: u64)
        requires
            old(self).outputs@.contains_key(output),
        ensures
            final(self).outputs@ == old(self).outputs@.remove(output),
    {
        self.outputs.remove(&output);
    }

    /// An output whose frame has reached the screen is to be drawn again. Only
    /// an idle output may be queued.
    pub fn queue_render(&mut self, output: u64)
        requires
            old(self).outputs@.contains_key(output),
            old(self).outputs@[output].state == RenderState::Idle,
        ensures
            final(self).outputs@ == old(self).with_state(output, RenderState::Queued),
    {
        let entry = *self.outputs.get(&output).unwrap();
        self.outputs.insert(
            output,
            OutputEntry { output: entry.output, state: RenderState::Queued },
        );
    }

    /// The frame of an output has been handed to the display controller; it
    /// rests until it is queued again.
    pub fn wait_render_request(&mut self, output: u64)
        requires
            old(self).outputs@.contains_key(output),
        ensures
            final(self).outputs@ == old(self).with_state(output, RenderState::Idle),
    {
        let entry = *self.outputs.get(&output).unwrap();
        self.outputs.insert(
            output,
            OutputEntry { output: entry.output, state: RenderState::Idle },
        );
    }

    /// An output that the display controller drives. Every output has to come
    /// from the udev backend.
    pub fn udev_output(&self, crtc: u32, device_id: u64) -> (output: Option<u64>)
        requires
            forall|id: u64| #[trigger]
                self.outputs@.contains_key(id) ==> self.outputs@[id].output.udev is Some,
        ensures
            match output {
                Some(id) => self.drives(crtc, device_id, id),
                None => forall|id: u64| !self.drives(crtc, device_id, id),
            },
    {
        for id in it: self.outputs.keys()
            invariant
                forall|j: int|
                    0 <= j < it.index() ==> !self.drives(crtc, device_id, *#[trigger] it.seq()[j]),
        {
            if let Some(entry) = self.outputs.get(id) {
                if let Some(udev) = entry.output.udev {
                    if udev.crtc == crtc && udev.device_id == device_id {
                        return Some(*id);
                    }
                }
            }
        }
        None
    }

    /// One of the outputs, if there is any.
    pub fn any_output(&self) -> (output: Option<Output>)
        ensures
            match output {
                Some(output) => exists|id: u64| #[trigger]
                    self.outputs@.contains_key(id) && self.outputs@[id].output == output,
                None => self.outputs@.is_empty(),
            },
    {
        for id in it: self.outputs.keys()
            invariant
                it.index() == 0,
        {
            return match self.outputs.get(id) {
                Some(entry) => Some(entry.output),
                None => None,
            };
        }
        None
    }

    /// The numbers of the outputs that have to be drawn, each once.
    pub fn queued_outputs(&self) -> (queued: Vec<u64>)
        ensures
            queued@.no_duplicates(),
            forall|id: u64| #[trigger]
                queued@.contains(id) <==> self.is_queued(id),
    {
        let mut queued: Vec<u64> = Vec::new();
        for id in it: self.outputs.keys()
            invariant
                it.seq().no_duplicates(),
                it.seq().unref().to_set() == self.outputs@.dom(),
                queued@.no_duplicates(),
                forall|k: int|
                    0 <= k < queued@.len() ==> among_first(
                        it.seq(),
                        it.index(),
                        #[trigger] queued@[k],
                    ),
                forall|k: int|
                    0 <= k < queued@.len() ==> self.is_queued(#[trigger] queued@[k]),
                forall|j: int|
                    0 <= j < it.index() && self.is_queued(*#[trigger] it.seq()[j])
                        ==> queued@.contains(*it.seq()[j]),
        {
            let ghost before = queued@;
            let ghost at = it.index();
            if let Some(entry) = self.outputs.get(id) {
                if entry.state == RenderState::Queued {
                    assert(!queued@.contains(*id)) by {
                        if queued@.contains(*id) {
                            let k = choose|k: int| 0 <= k < queued@.len() && queued@[k] == *id;
                            let j = choose|j: int|
                                0 <= j < at && *(#[trigger] it.seq()[j]) == queued@[k];
                            assert(it.seq()[j] == it.seq()[at]);
                        }
                    }
                    queued.push(*id);
                    assert forall|j: int|
                        0 <= j < at + 1 && self.is_queued(
                            *#[trigger] it.seq()[j],
                        ) implies queued@.contains(*it.seq()[j]) by {
                        if j < at {
                            let k = choose|k: int|
                                0 <= k < before.len() && before[k] == *it.seq()[j];
                            assert(queued@[k] == *it.seq()[j]);
                        } else {
                            assert(queued@[before.len() as int] == *id);
                        }
                    }
                }
            }
            assert forall|k: int| 0 <= k < queued@.len() implies among_first(
                it.seq(),
                at + 1,
                #[trigger] queued@[k],
            ) by {
                if k < before.len() {
                    assert(among_first(it.seq(), at, before[k]));
                } else {
                    assert(*it.seq()[at] == queued@[k]);
                }
            }
        }
        queued
    }
}

} // verus!
