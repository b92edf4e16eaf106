//! What a display connector is called, and which of its modes it is driven in.

use drm::control::connector::Interface;
use drm::control::{ModeFlags, ModeTypeFlags};
use vstd::prelude::*;
use vstd::string::StringExecFns;

use crate::backend::OutputDescription;
use crate::geometry::{Mode, Point, Size};

verus! {

/// A mode that a connector offers, as the kernel describes it.
#[derive(Clone, Copy, PartialEq, Eq, Structural, Debug)]
pub struct ConnectorMode {
    pub width: u16,
    pub height: u16,
    /// The vertical refresh rate in hertz.
    pub vrefresh: u32,
    /// The kernel's `type` bits.
    pub mode_type: u32,
    /// The kernel's `flags` bits.
    pub flags: u32,
    /// The pixel clock in kilohertz.
    pub clock: u32,
    /// The pixels of a line and the lines of a frame, with those that are not
    /// shown.
    pub htotal: u16,
    pub vtotal: u16,
    /// How often each line is drawn, where that is more than once.
    pub vscan: u16,
}

/// The kernel's flag bit of an interlaced mode.
pub const FLAG_INTERLACE: u32 = 16;

/// The kernel's flag bit of a mode that draws each line twice.
pub const FLAG_DOUBLESCAN: u32 = 32;

impl ConnectorMode {
    /// The display asks for this mode.
    pub open spec fn preferred(self) -> bool {
        self.mode_type & 8 != 0
    }

    /// The mode is drawn in two half frames.
    pub open spec fn interlaced(self) -> bool {
        self.flags & FLAG_INTERLACE != 0
    }

    /// The mode draws each line twice.
    pub open spec fn doublescan(self) -> bool {
        self.flags & FLAG_DOUBLESCAN != 0
    }

    /// A frame of the mode takes some time.
    pub open spec fn timed(self) -> bool {
        self.htotal > 0 && self.vtotal > 0
    }

    /// The refresh rate in millihertz, from the pixel clock: frames per second,
    /// rounded to the nearest; half frames count for an interlaced mode, and a
    /// line that is drawn several times takes as many times as long.
    pub open spec fn refresh(self) -> int {
        let lines = self.clock * 1_000_000 / (self.htotal as int);
        let frames = (lines + self.vtotal as int / 2) / (self.vtotal as int);
        let halves = if self.interlaced() {
            frames * 2
        } else {
            frames
        };
        let doubled = if self.doublescan() {
            halves / 2
        } else {
            halves
        };
        if self.vscan > 1 {
            doubled / (self.vscan as int)
        } else {
            doubled
        }
    }

    /// The mode is of lower quality than `other`: by width, then by height,
    /// then by refresh rate.
    pub open spec fn below(self, other: Self) -> bool {
        ||| self.width < other.width
        ||| self.width == other.width && self.height < other.height
        ||| self.width == other.width && self.height == other.height && self.vrefresh
            < other.vrefresh
    }
}

/// `drm::control::ModeTypeFlags::contains` on the bits of a mode's type: whether
/// the bit of the preferred mode is among them.
#[verifier::external_body]
fn type_has_preferred(mode_type: u32) -> (found: bool)
    ensures
        found == (mode_type & 8 != 0),
{
    ModeTypeFlags::from_bits_truncate(mode_type).contains(ModeTypeFlags::PREFERRED)
}

/// `drm::control::ModeFlags::contains` on the bits of a mode's flags: whether
/// the bit of an interlaced mode, or that of a mode that draws each line twice,
/// is among them.
#[verifier::external_body]
fn flags_contain(flags: u32, bit: u32) -> (found: bool)
    requires
        bit == FLAG_INTERLACE || bit == FLAG_DOUBLESCAN,
    ensures
        found == (flags & bit != 0),
{
    ModeFlags::from_bits_truncate(flags).contains(ModeFlags::from_bits_truncate(bit))
}

/// The mode at `index` is the best of those marked in `allowed`: no other of
/// them is above it, and of equals it stands last.
pub open spec fn is_best_mode(
    modes: Seq<ConnectorMode>,
    allowed: spec_fn(ConnectorMode) -> bool,
    index: int,
) -> bool {
    &&& 0 <= index < modes.len()
    &&& allowed(modes[index])
    &&& forall|j: int|
        0 <= j < modes.len() && allowed(#[trigger] modes[j]) ==> {
            &&& !modes[index].below(modes[j])
            &&& j > index ==> modes[j].below(modes[index])
        }
}

/// Some mode is marked in `allowed`.
pub open spec fn some_mode(
    modes: Seq<ConnectorMode>,
    allowed: spec_fn(ConnectorMode) -> bool,
) -> bool {
    exists|i: int| 0 <= i < modes.len() && allowed(#[trigger] modes[i])
}

/// The modes among which the choice is made: those that the display prefers;
/// where it prefers none, those that are not interlaced; where there are none
/// of these either, all.
pub open spec fn mode_candidates(modes: Seq<ConnectorMode>) -> spec_fn(ConnectorMode) -> bool {
    let preferred = |m: ConnectorMode| m.preferred();
    let progressive = |m: ConnectorMode| !m.interlaced();
    if some_mode(modes, preferred) {
        preferred
    } else if some_mode(modes, progressive) {
        progressive
    } else {
        |m: ConnectorMode| true
    }
}

fn is_below(mode: &ConnectorMode, other: &ConnectorMode) -> (below: bool)
    ensures
        below == mode.below(*other),
{
    mode.width < other.width || (mode.width == other.width && (mode.height < other.height || (
    mode.height == other.height && mode.vrefresh < other.vrefresh)))
}

/// The best of the modes whose mark is set.
fn best_marked(modes: &Vec<ConnectorMode>, marks: &Vec<bool>, Ghost(allowed): Ghost<
    spec_fn(ConnectorMode) -> bool,
>) -> (best: Option<usize>)
    requires
        marks@.len() == modes@.len(),
        forall|i: int| 0 <= i < modes@.len() ==> marks@[i] == allowed(#[trigger] modes@[i]),
    ensures
        match best {
            Some(i) => is_best_mode(modes@, allowed, i as int),
            None => !some_mode(modes@, allowed),
        },
{
    let mut best: Option<usize> = None;
    let mut i: usize = 0;
    while i < modes.len()
        invariant
            i <= modes@.len(),
            marks@.len() == modes@.len(),
            forall|j: int| 0 <= j < modes@.len() ==> marks@[j] == allowed(#[trigger] modes@[j]),
            match best {
                Some(b) => is_best_mode(modes@.take(i as int), allowed, b as int),
                None => !some_mode(modes@.take(i as int), allowed),
            },
        decreases modes@.len() - i,
    {
        let ghost before = modes@.take(i as int);
        let ghost after = modes@.take(i + 1);
        assert(after =~= before.push(modes@[i as int]));
        if marks[i] {
            assert(allowed(modes@[i as int]));
            let better = match best {
                Some(b) => !is_below(&modes[i], &modes[b]),
                None => true,
            };
            if better {
                proof {
                    if let Some(b) = best {
                        assert forall|j: int|
                            0 <= j < after.len() && allowed(#[trigger] after[j]) implies
                            !modes@[i as int].below(after[j]) by {
                            if j < i {
                                assert(before[j] == after[j]);
                                assert(!before[b as int].below(before[j]));
                            }
                        }
                    } else {
                        assert forall|j: int|
                            0 <= j < after.len() && allowed(#[trigger] after[j]) implies j == i by {
                            if j < i {
                                assert(before[j] == after[j]);
                            }
                        }
                    }
                    assert(after[i as int] == modes@[i as int]);
                }
                best = Some(i);
            } else {
                proof {
                    let b = best->0 as int;
                    assert(after[b] == before[b]);
                    assert forall|j: int|
                        0 <= j < after.len() && allowed(#[trigger] after[j]) implies {
                        &&& !after[b].below(after[j])
                        &&& j > b ==> after[j].below(after[b])
                    } by {
                        if j < i {
                            assert(before[j] == after[j]);
                        }
                    }
                }
            }
        } else {
            proof {
                assert(!allowed(modes@[i as int]));
                assert forall|j: int|
                    0 <= j < after.len() && allowed(#[trigger] after[j]) implies j < i
                    && before[j] == after[j] by {}
                if let Some(b) = best {
                    assert(after[b as int] == before[b as int]);
                }
            }
        }
        i = i + 1;
    }
    assert(modes@.take(i as int) =~= modes@);
    best
}

/// The mode that a connector is driven in, by its place among the modes that
/// the connector offers. A connector without modes cannot be driven.
pub fn pick_mode(modes: &Vec<ConnectorMode>) -> (index: usize)
    requires
        modes@.len() > 0,
    ensures
        is_best_mode(modes@, mode_candidates(modes@), index as int),
{
    let mut preferred: Vec<bool> = Vec::new();
    let mut progressive: Vec<bool> = Vec::new();
    let mut all: Vec<bool> = Vec::new();
    let mut i: usize = 0;
    while i < modes.len()
        invariant
            i <= modes@.len(),
            preferred@.len() == i,
            progressive@.len() == i,
            all@.len() == i,
            forall|j: int| 0 <= j < i ==> preferred@[j] == (#[trigger] modes@[j]).preferred(),
            forall|j: int| 0 <= j < i ==> progressive@[j] == !(#[trigger] modes@[j]).interlaced(),
            forall|j: int| 0 <= j < i ==> #[trigger] all@[j],
        decreases modes@.len() - i,
    {
        preferred.push(type_has_preferred(modes[i].mode_type));
        progressive.push(!flags_contain(modes[i].flags, FLAG_INTERLACE));
        all.push(true);
        i = i + 1;
    }
    if let Some(index) = best_marked(modes, &preferred, Ghost(|m: ConnectorMode| m.preferred())) {
        proof {
            assert(some_mode(modes@, |m: ConnectorMode| m.preferred())) by {
                assert(modes@[index as int].preferred());
            }
        }
        return index;
    }
    if let Some(index) = best_marked(
        modes,
        &progressive,
        Ghost(|m: ConnectorMode| !m.interlaced()),
    ) {
        return index;
    }
    let any = best_marked(modes, &all, Ghost(|m: ConnectorMode| true));
    proof {
        let always = |m: ConnectorMode| true;
        assert(always(modes@[0]));
    }
    any.unwrap()
}

/// A decimal digit.
pub open spec fn digit(value: nat) -> Seq<char> {
    seq![('0' as int + value) as char]
}

/// A number in decimal, without leading zeros.
pub open spec fn decimal(value: nat) -> Seq<char>
    decreases value,
{
    if value < 10 {
        digit(value)
    } else {
        decimal(value / 10) + digit(value % 10)
    }
}

fn digit_str(value: u32) -> (text: &'static str)
    requires
        value < 10,
    ensures
        text@ == digit(value as nat),
{
    proof {
        reveal_strlit("0");
        reveal_strlit("1");
        reveal_strlit("2");
        reveal_strlit("3");
        reveal_strlit("4");
        reveal_strlit("5");
        reveal_strlit("6");
        reveal_strlit("7");
        reveal_strlit("8");
        reveal_strlit("9");
    }
    let text = match value {
        0 => "0",
        1 => "1",
        2 => "2",
        3 => "3",
        4 => "4",
        5 => "5",
        6 => "6",
        7 => "7",
        8 => "8",
        _ => "9",
    };
    assert(text@ =~= digit(value as nat));
    text
}

fn append_decimal(text: &mut String, value: u32)
    ensures
        final(text)@ == old(text)@ + decimal(value as nat),
    decreases value,
{
    if value >= 10 {
        append_decimal(text, value / 10);
    }
    text.append(digit_str(value % 10));
    assert(text@ =~= old(text)@ + decimal(value as nat));
}

/// The names of the connector types, by the kernel's numbers.
pub open spec fn interface_name(interface: u32) -> Seq<char> {
    match interface {
        1 => "VGA"@,
        2 => "DVI-I"@,
        3 => "DVI-D"@,
        4 => "DVI-A"@,
        5 => "Composite"@,
        6 => "SVIDEO"@,
        7 => "LVDS"@,
        8 => "Component"@,
        9 => "DIN"@,
        10 => "DP"@,
        11 => "HDMI-A"@,
        12 => "HDMI-B"@,
        13 => "TV"@,
        14 => "eDP"@,
        15 => "Virtual"@,
        16 => "DSI"@,
        17 => "DPI"@,
        18 => "Writeback"@,
        19 => "SPI"@,
        20 => "USB"@,
        _ => "Unknown"@,
    }
}

/// `drm::control::connector::Interface::as_str` of the connector type with the
/// kernel's number: the name of the type, "Unknown" for a number that is none.
#[verifier::external_body]
fn interface_as_str(interface: u32) -> (name: &'static str)
    ensures
        name@ == interface_name(interface),
{
    Interface::from(interface).as_str()
}

/// What the display behind a connector says of itself.
#[derive(Debug)]
pub struct DisplayInfo {
    pub make: Option<String>,
    pub model: Option<String>,
    pub serial: Option<String>,
}

/// How an output is announced to clients.
#[derive(Debug)]
pub struct OutputInfo {
    pub connector: String,
    pub make: String,
    pub model: String,
    pub serial: Option<String>,
}

/// What a display says, or "unknown" where it says nothing.
pub open spec fn or_unknown(text: Option<String>) -> Seq<char> {
    match text {
        Some(text) => text@,
        None => "unknown"@,
    }
}

fn unwrap_or_unknown(text: Option<String>) -> (known: String)
    ensures
        known@ == or_unknown(text),
{
    match text {
        Some(text) => text,
        None => "unknown".to_owned(),
    }
}

/// The announcement of a connector: its name, such as "HDMI-A-1", and what its
/// display says. Without a display description make and model are "unknown" and
/// there is no serial number.
pub open spec fn announces(
    info: OutputInfo,
    interface: u32,
    interface_id: u32,
    display: Option<DisplayInfo>,
) -> bool {
    &&& info.connector@ == interface_name(interface) + "-"@ + decimal(interface_id as nat)
    &&& match display {
        Some(display) => {
            &&& info.make@ == or_unknown(display.make)
            &&& info.model@ == or_unknown(display.model)
            &&& info.serial == display.serial
        },
        None => {
            &&& info.make@ == "unknown"@
            &&& info.model@ == "unknown"@
            &&& info.serial is None
        },
    }
}

/// The announcement of a connector.
pub fn output_info(interface: u32, interface_id: u32, display: Option<DisplayInfo>) -> (info:
    OutputInfo)
    ensures
        announces(info, interface, interface_id, display),
{
    let mut connector = interface_as_str(interface).to_owned();
    connector.append("-");
    append_decimal(&mut connector, interface_id);
    match display {
        Some(display) => OutputInfo {
            connector,
            make: unwrap_or_unknown(display.make),
            model: unwrap_or_unknown(display.model),
            serial: display.serial,
        },
        None => OutputInfo {
            connector,
            make: unwrap_or_unknown(None),
            model: unwrap_or_unknown(None),
            serial: None,
        },
    }
}

/// The physical size of a display in millimetres; a display of unknown size
/// counts as empty. Lengths above the range of `i32` wrap around.
pub open spec fn size_in_millimetres(size: Option<(u32, u32)>) -> Size {
    match size {
        Some((width, height)) => Size { width: width as i32, height: height as i32 },
        None => Size { width: 0, height: 0 },
    }
}

fn physical_size(size: Option<(u32, u32)>) -> (physical: Size)
    ensures
        physical == size_in_millimetres(size),
{
    match size {
        Some((width, height)) => Size { width: width as i32, height: height as i32 },
        None => Size { width: 0, height: 0 },
    }
}

/// A connector, as the kernel describes it.
#[derive(Debug)]
pub struct Connector {
    /// The number of the connector's type.
    pub interface: u32,
    /// The connector's number among those of its type.
    pub interface_id: u32,
    pub modes: Vec<ConnectorMode>,
    /// The size of the display in millimetres, where it is known.
    pub size: Option<(u32, u32)>,
}

impl Connector {
    /// The connector can be driven: there is a mode, and a frame of the one
    /// that is chosen takes some time.
    pub open spec fn drivable(self) -> bool {
        &&& self.modes@.len() > 0
        &&& forall|i: int| #[trigger]
            is_best_mode(self.modes@, mode_candidates(self.modes@), i) ==> self.modes@[i].timed()
    }

    /// Whether the connector can be driven.
    pub fn can_be_driven(&self) -> (drivable: bool)
        ensures
            drivable == self.drivable(),
    {
        if self.modes.len() == 0 {
            return false;
        }
        let index = pick_mode(&self.modes);
        proof {
            assert forall|i: int| #[trigger]
                is_best_mode(self.modes@, mode_candidates(self.modes@), i) implies i == index by {
                let allowed = mode_candidates(self.modes@);
                assert(allowed(self.modes@[i]) && allowed(self.modes@[index as int]));
            }
        }
        self.modes[index].htotal > 0 && self.modes[index].vtotal > 0
    }
}

/// How a connector is driven.
#[derive(Debug)]
pub struct ConnectorPlan {
    /// How its output is announced.
    pub description: OutputDescription,
    /// The place of its mode among those that it offers.
    pub mode_index: usize,
    /// That mode, as it is announced.
    pub mode: Mode,
    /// Where its output is mapped in the space.
    pub location: Point,
}

/// A connector's mode as it is announced: its size, and its refresh rate, which
/// wraps around above the range of `i32`.
pub open spec fn announced_mode(mode: ConnectorMode) -> Mode {
    Mode {
        size: Size { width: mode.width as i32, height: mode.height as i32 },
        refresh: mode.refresh() as i32,
    }
}

/// A connector's mode as it is announced.
pub fn announce_mode(mode: &ConnectorMode) -> (announced: Mode)
    requires
        mode.timed(),
    ensures
        announced == announced_mode(*mode),
{
    let lines: u64 = mode.clock as u64 * 1_000_000 / mode.htotal as u64;
    let mut refresh: u64 = (lines + mode.vtotal as u64 / 2) / mode.vtotal as u64;
    if flags_contain(mode.flags, FLAG_INTERLACE) {
        refresh = refresh * 2;
    }
    if flags_contain(mode.flags, FLAG_DOUBLESCAN) {
        refresh = refresh / 2;
    }
    if mode.vscan > 1 {
        refresh = refresh / mode.vscan as u64;
    }
    Mode {
        size: Size { width: mode.width as i32, height: mode.height as i32 },
        refresh: refresh as i32,
    }
}

/// What a connector is driven as: it is announced under its own name with the
/// physical size of its display, in the mode that is chosen for it, and its
/// output is mapped at the origin of the space.
pub open spec fn plans(plan: ConnectorPlan, connector: Connector, info: OutputInfo) -> bool {
    &&& plan.description.name@ == info.connector@
    &&& plan.description.make@ == info.make@
    &&& plan.description.model@ == info.model@
    &&& plan.description.size == size_in_millimetres(connector.size)
    &&& is_best_mode(connector.modes@, mode_candidates(connector.modes@), plan.mode_index as int)
    &&& plan.mode == announced_mode(connector.modes@[plan.mode_index as int])
    &&& plan.location == (Point { x: 0, y: 0 })
}

/// What a connector is driven as.
pub fn plan_connector(connector: &Connector, info: &OutputInfo) -> (plan: ConnectorPlan)
    requires
        connector.drivable(),
    ensures
        plans(plan, *connector, *info),
{
    let mode_index = pick_mode(&connector.modes);
    ConnectorPlan {
        description: OutputDescription {
            name: info.connector.clone(),
            make: info.make.clone(),
            model: info.model.clone(),
            size: physical_size(connector.size),
        },
        mode_index,
        mode: announce_mode(&connector.modes[mode_index]),
        location: Point { x: 0, y: 0 },
    }
}

} // verus!
