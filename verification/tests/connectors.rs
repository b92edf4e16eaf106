use fusion_compositor::connector::{
    announce_mode, output_info, pick_mode, plan_connector, Connector, ConnectorMode, DisplayInfo,
    FLAG_DOUBLESCAN, FLAG_INTERLACE,
};
use fusion_compositor::geometry::{Mode, Size};

const PREFERRED: u32 = 8;

fn mode(width: u16, height: u16, vrefresh: u32, mode_type: u32, flags: u32) -> ConnectorMode {
    ConnectorMode {
        width,
        height,
        vrefresh,
        mode_type,
        flags,
        clock: 148_500,
        htotal: 2200,
        vtotal: 1125,
        vscan: 0,
    }
}

#[test]
fn a_preferred_mode_comes_first() {
    let modes = vec![
        mode(3840, 2160, 60, 0, 0),
        mode(1920, 1080, 60, PREFERRED, FLAG_INTERLACE),
        mode(1280, 720, 60, PREFERRED, 0),
    ];
    assert_eq!(pick_mode(&modes), 1);
}

#[test]
fn an_interlaced_mode_comes_last() {
    let modes = vec![
        mode(1920, 1080, 60, 0, FLAG_INTERLACE),
        mode(1280, 720, 60, 0, 0),
        mode(1280, 720, 50, 0, 0),
    ];
    assert_eq!(pick_mode(&modes), 1);
}

#[test]
fn only_interlaced_modes() {
    let modes = vec![
        mode(1280, 720, 60, 0, FLAG_INTERLACE),
        mode(1920, 540, 60, 0, FLAG_INTERLACE),
        mode(1920, 1080, 25, 0, FLAG_INTERLACE),
        mode(1920, 1080, 24, 0, FLAG_INTERLACE),
    ];
    assert_eq!(pick_mode(&modes), 2);
}

#[test]
fn the_last_of_equal_modes_is_taken() {
    let modes = vec![
        mode(1920, 1080, 60, PREFERRED, 0),
        mode(1920, 1080, 60, PREFERRED, FLAG_DOUBLESCAN),
        mode(800, 600, 60, PREFERRED, 0),
    ];
    assert_eq!(pick_mode(&modes), 1);
}

#[test]
fn other_type_and_flag_bits_do_not_matter() {
    let modes = vec![
        mode(1920, 1080, 60, 0xffff_fff7, 0xffff_ffef),
        mode(1280, 720, 60, 0xffff_fff7, 0xffff_ffff),
    ];
    assert_eq!(pick_mode(&modes), 0);
    let modes = vec![mode(1920, 1080, 60, 0, 0), mode(1280, 720, 60, 0xffff_ffff, 0xffff_ffff)];
    assert_eq!(pick_mode(&modes), 1);
}

#[test]
fn width_counts_before_height_and_rate() {
    let modes = vec![
        mode(1000, 2000, 240, 0, 0),
        mode(1001, 10, 1, 0, 0),
        mode(1000, 2001, 30, 0, 0),
    ];
    assert_eq!(pick_mode(&modes), 1);
}

#[test]
fn refresh_rates() {
    let full_hd = mode(1920, 1080, 60, 0, 0);
    assert_eq!(
        announce_mode(&full_hd),
        Mode { size: Size { width: 1920, height: 1080 }, refresh: 60_000 }
    );
    let interlaced = ConnectorMode { flags: FLAG_INTERLACE, clock: 74_250, ..full_hd };
    assert_eq!(announce_mode(&interlaced).refresh, 60_000);
    let doubled = ConnectorMode { flags: FLAG_DOUBLESCAN, ..full_hd };
    assert_eq!(announce_mode(&doubled).refresh, 30_000);
    let tripled = ConnectorMode { vscan: 3, ..full_hd };
    assert_eq!(announce_mode(&tripled).refresh, 20_000);
    let once = ConnectorMode { vscan: 1, ..full_hd };
    assert_eq!(announce_mode(&once).refresh, 60_000);
    let ntsc = ConnectorMode { clock: 148_352, ..full_hd };
    assert_eq!(announce_mode(&ntsc).refresh, 59_940);
}

#[test]
fn connector_names() {
    let names = [
        (0, "Unknown-1"),
        (1, "VGA-1"),
        (2, "DVI-I-1"),
        (3, "DVI-D-1"),
        (4, "DVI-A-1"),
        (5, "Composite-1"),
        (6, "SVIDEO-1"),
        (7, "LVDS-1"),
        (8, "Component-1"),
        (9, "DIN-1"),
        (10, "DP-1"),
        (11, "HDMI-A-1"),
        (12, "HDMI-B-1"),
        (13, "TV-1"),
        (14, "eDP-1"),
        (15, "Virtual-1"),
        (16, "DSI-1"),
        (17, "DPI-1"),
        (18, "Writeback-1"),
        (19, "SPI-1"),
        (20, "USB-1"),
        (21, "Unknown-1"),
        (u32::MAX, "Unknown-1"),
    ];
    for (interface, name) in names {
        assert_eq!(output_info(interface, 1, None).connector, name);
    }
}

#[test]
fn connector_numbers() {
    assert_eq!(output_info(10, 0, None).connector, "DP-0");
    assert_eq!(output_info(10, 9, None).connector, "DP-9");
    assert_eq!(output_info(10, 10, None).connector, "DP-10");
    assert_eq!(output_info(10, 1234567890, None).connector, "DP-1234567890");
    assert_eq!(output_info(10, u32::MAX, None).connector, "DP-4294967295");
}

#[test]
fn what_the_display_says() {
    let info = output_info(11, 2, None);
    assert_eq!(info.make, "unknown");
    assert_eq!(info.model, "unknown");
    assert_eq!(info.serial, None);

    let display = DisplayInfo {
        make: Some("Acme".to_string()),
        model: None,
        serial: Some("42".to_string()),
    };
    let info = output_info(11, 2, Some(display));
    assert_eq!(info.make, "Acme");
    assert_eq!(info.model, "unknown");
    assert_eq!(info.serial, Some("42".to_string()));
}

#[test]
fn a_connector_is_planned() {
    let connector = Connector {
        interface: 11,
        interface_id: 2,
        modes: vec![mode(1280, 720, 60, 0, 0), mode(1920, 1080, 60, 0, 0)],
        size: Some((600, 340)),
    };
    assert!(connector.can_be_driven());
    let info = output_info(11, 2, None);
    let plan = plan_connector(&connector, &info);
    assert_eq!(plan.description.name, "HDMI-A-2");
    assert_eq!(plan.description.make, "unknown");
    assert_eq!(plan.description.model, "unknown");
    assert_eq!(plan.description.size, Size { width: 600, height: 340 });
    assert_eq!(plan.mode_index, 1);
    assert_eq!(plan.mode, Mode { size: Size { width: 1920, height: 1080 }, refresh: 60_000 });
}

#[test]
fn a_display_of_unknown_size() {
    let connector = Connector {
        interface: 11,
        interface_id: 2,
        modes: vec![mode(1280, 720, 60, 0, 0)],
        size: None,
    };
    let plan = plan_connector(&connector, &output_info(11, 2, None));
    assert_eq!(plan.description.size, Size { width: 0, height: 0 });
}

#[test]
fn connectors_that_cannot_be_driven() {
    let empty = Connector { interface: 1, interface_id: 1, modes: vec![], size: None };
    assert!(!empty.can_be_driven());
    let untimed = ConnectorMode { htotal: 0, ..mode(1920, 1080, 60, 0, 0) };
    let connector = Connector {
        interface: 1,
        interface_id: 1,
        modes: vec![untimed, mode(1280, 720, 60, 0, 0)],
        size: None,
    };
    assert!(!connector.can_be_driven());
    let connector = Connector {
        interface: 1,
        interface_id: 1,
        modes: vec![untimed, mode(1280, 720, 60, PREFERRED, 0)],
        size: None,
    };
    assert!(connector.can_be_driven());
}
