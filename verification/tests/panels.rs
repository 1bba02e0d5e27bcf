use xerotop::panels::{battery_arrow, clock_formats, panel_kind, PanelKind};

#[test]
fn panel_kinds() {
    assert!(matches!(panel_kind("header"), Some(PanelKind::Header)));
    assert!(matches!(panel_kind("clock"), Some(PanelKind::Clock)));
    assert!(matches!(panel_kind("cpu"), Some(PanelKind::Cpu)));
    assert!(matches!(panel_kind("mem"), Some(PanelKind::Mem)));
    assert!(matches!(panel_kind("temp"), Some(PanelKind::Temp)));
    assert!(matches!(panel_kind("gpu"), Some(PanelKind::Gpu)));
    assert!(matches!(panel_kind("disk"), Some(PanelKind::Disk)));
    assert!(matches!(panel_kind("net"), Some(PanelKind::Net)));
    assert!(matches!(panel_kind("bat"), Some(PanelKind::Battery)));
    assert!(matches!(panel_kind("battery"), Some(PanelKind::Battery)));
    assert!(matches!(panel_kind("vol"), Some(PanelKind::Volume)));
    assert!(matches!(panel_kind("volume"), Some(PanelKind::Volume)));
    assert!(matches!(panel_kind("bri"), Some(PanelKind::Brightness)));
    assert!(matches!(panel_kind("brightness"), Some(PanelKind::Brightness)));
    assert!(panel_kind("CPU").is_none());
    assert!(panel_kind("weather").is_none());
    assert!(panel_kind("").is_none());
}

#[test]
fn clock_format_defaults() {
    let (t, d) = clock_formats(&None, &None);
    assert_eq!(t, "%I:%M %p");
    assert_eq!(d, "%a %d %b");
    let (t, d) = clock_formats(&Some("%H:%M".to_string()), &None);
    assert_eq!(t, "%H:%M");
    assert_eq!(d, "%a %d %b");
}

#[test]
fn battery_arrows() {
    assert_eq!(battery_arrow("Charging"), " \u{2191}");
    assert_eq!(battery_arrow("Discharging"), " \u{2193}");
    assert_eq!(battery_arrow("Full"), "");
    assert_eq!(battery_arrow("charging"), "");
}
