//! The two backends: a window of a running session, and the display hardware
//! itself.

use std::collections::HashMap;

use vstd::prelude::*;

use crate::connector::OutputInfo;
use crate::geometry::{Mode, Size};
use crate::input::{FilterResult, KeyState, SpecialActions};

verus! {

/// How a backend announces its own output.
#[derive(Debug)]
pub struct OutputDescription {
    pub name: String,
    pub make: String,
    pub model: String,
    /// The physical size in millimetres.
    pub size: Size,
}

/// What the compositor draws on.
pub trait Backend {
    spec fn output_name(&self) -> Seq<char>;

    spec fn output_model(&self) -> Seq<char>;

    spec fn output_mode(&self) -> Mode;

    /// The backend's own output. Its physical size is not known.
    fn create_output(&self) -> (output: OutputDescription)
        ensures
            output.name@ == self.output_name(),
            output.make@ == "mwm"@,
            output.model@ == self.output_model(),
            output.size == (Size { width: 0, height: 0 }),
    ;

    /// The mode of the backend's own output.
    fn mode(&self) -> (mode: Mode)
        ensures
            mode == self.output_mode(),
    ;
}

/// The backend that draws into a window. The size is that of the window.
#[derive(Debug)]
pub struct WinitBackend {
    pub window_size: Size,
}

impl WinitBackend {
    pub fn new(window_size: Size) -> (backend: Self)
        ensures
            backend.window_size == window_size,
    {
        WinitBackend { window_size }
    }
}

/// The refresh rate that is announced for an output of unknown rate.
pub const DEFAULT_REFRESH: i32 = 60_000;

impl Backend for WinitBackend {
    open spec fn output_name(&self) -> Seq<char> {
        "winit"@
    }

    open spec fn output_model(&self) -> Seq<char> {
        "Winit"@
    }

    open spec fn output_mode(&self) -> Mode {
        Mode { size: self.window_size, refresh: DEFAULT_REFRESH }
    }

    fn create_output(&self) -> (output: OutputDescription) {
        OutputDescription {
            name: "winit".to_owned(),
            make: "mwm".to_owned(),
            model: "Winit".to_owned(),
            size: Size { width: 0, height: 0 },
        }
    }

    fn mode(&self) -> (mode: Mode) {
        Mode { size: self.window_size, refresh: DEFAULT_REFRESH }
    }
}

/// The display controller device, with the surfaces that are driven on it: the
/// announcement of each output by the number of its display controller.
#[derive(Debug)]
pub struct Device {
    pub id: u64,
    pub surfaces: HashMap<u32, OutputInfo>,
}

/// The backend that drives the display hardware.
#[derive(Debug)]
pub struct UdevData {
    /// The device node that the compositor draws on.
    pub primary_node: u64,
    pub device: Option<Device>,
}

impl Backend for UdevData {
    open spec fn output_name(&self) -> Seq<char> {
        "udev"@
    }

    open spec fn output_model(&self) -> Seq<char> {
        "udev"@
    }

    open spec fn output_mode(&self) -> Mode {
        Mode { size: Size { width: 1920, height: 1080 }, refresh: DEFAULT_REFRESH }
    }

    fn create_output(&self) -> (output: OutputDescription) {
        OutputDescription {
            name: "udev".to_owned(),
            make: "mwm".to_owned(),
            model: "udev".to_owned(),
            size: Size { width: 0, height: 0 },
        }
    }

    fn mode(&self) -> (mode: Mode) {
        Mode { size: Size { width: 1920, height: 1080 }, refresh: DEFAULT_REFRESH }
    }
}

impl SpecialActions for WinitBackend {
    open spec fn tty_keys(&self, state: KeyState, keysym: u32) -> FilterResult {
        FilterResult::Forward
    }

    fn handle_tty_keys(&self, state: KeyState, keysym: u32) -> (result: FilterResult) {
        FilterResult::Forward
    }
}

/// The keysym that asks for virtual terminal 1.
pub const XF86_SWITCH_VT_1: u32 = 0x1008_fe01;

/// The keysym that asks for virtual terminal 12.
pub const XF86_SWITCH_VT_12: u32 = 0x1008_fe0c;

impl SpecialActions for UdevData {
    /// Pressing the key for a virtual terminal switches to it.
    open spec fn tty_keys(&self, state: KeyState, keysym: u32) -> FilterResult {
        if state == KeyState::Pressed && XF86_SWITCH_VT_1 <= keysym <= XF86_SWITCH_VT_12 {
            FilterResult::SwitchVt((keysym - XF86_SWITCH_VT_1 + 1) as i32)
        } else {
            FilterResult::Forward
        }
    }

    fn handle_tty_keys(&self, state: KeyState, keysym: u32) -> (result: FilterResult) {
        if state != KeyState::Pressed {
            return FilterResult::Forward;
        }
        if keysym < XF86_SWITCH_VT_1 || keysym > XF86_SWITCH_VT_12 {
            return FilterResult::Forward;
        }
        FilterResult::SwitchVt((keysym - XF86_SWITCH_VT_1) as i32 + 1)
    }
}

} // verus!
