use xerotop::theme_switch::{
    apply, desktop_style, session_bus_address, setting_changed, style_for_upper, sync_target,
    theme_name, BarState, Theme, ThemeSwitch,
};

fn switch() -> ThemeSwitch {
    ThemeSwitch { auto: true, dark: "nord".to_string(), light: "paper".to_string() }
}

#[test]
fn bus_address() {
    assert_eq!(session_bus_address(None), None);
    assert_eq!(session_bus_address(Some(String::new())), None);
    assert_eq!(
        session_bus_address(Some("unix:path=/run/user/1000/bus".to_string())),
        Some("unix:path=/run/user/1000/bus".to_string())
    );
}

#[test]
fn one_off_read() {
    assert_eq!(sync_target(true, Some(1)), Some(true));
    assert_eq!(sync_target(true, Some(2)), Some(false));
    assert_eq!(sync_target(true, Some(0)), Some(false));
    assert_eq!(sync_target(true, None), None);
    assert_eq!(sync_target(false, Some(1)), None);
}

#[test]
fn change_signal() {
    let ns = Some("org.freedesktop.appearance");
    let key = Some("color-scheme");
    assert_eq!(setting_changed(3, ns, key, true, Some(1)), Some(true));
    assert_eq!(setting_changed(3, ns, key, true, Some(2)), Some(false));
    assert_eq!(setting_changed(3, ns, key, true, None), Some(false));
    assert_eq!(setting_changed(2, ns, key, true, Some(1)), None);
    assert_eq!(setting_changed(3, ns, Some("accent-color"), true, Some(1)), None);
    assert_eq!(setting_changed(3, Some("org.gnome.desktop"), key, true, Some(1)), None);
    assert_eq!(setting_changed(3, None, key, true, Some(1)), None);
    assert_eq!(setting_changed(3, ns, key, false, Some(1)), None);
}

#[test]
fn signal_and_read_agree() {
    for v in 0..4u32 {
        assert_eq!(
            setting_changed(3, Some("org.freedesktop.appearance"), Some("color-scheme"), true, Some(v)),
            sync_target(true, Some(v))
        );
    }
}

#[test]
fn desktop_styles() {
    assert_eq!(desktop_style("KDE"), "kde");
    assert_eq!(desktop_style("kde"), "kde");
    assert_eq!(desktop_style("ubuntu:GNOME"), "gnome");
    assert_eq!(desktop_style(""), "gnome");
    // Only the uppercase text is searched by the inner function.
    assert_eq!(style_for_upper("kde"), "gnome");
}

#[test]
fn theme_names() {
    assert_eq!(theme_name(&switch(), true), "nord");
    assert_eq!(theme_name(&switch(), false), "paper");
}

#[test]
fn apply_switches_theme_and_overrides() {
    let mut st: BarState<u8, Vec<String>, String> = BarState {
        theme_name: "old".to_string(),
        sensors: vec!["k10temp".to_string()],
        header: "plain".to_string(),
        theme: Theme { style: 0, sensors: None, header: None },
    };
    let dark = Theme { style: 7u8, sensors: Some(vec!["coretemp".to_string()]), header: None };
    apply(&mut st, &switch(), true, dark);
    assert_eq!(st.theme_name, "nord");
    assert_eq!(st.sensors, vec!["coretemp".to_string()]);
    assert_eq!(st.header, "plain");
    assert_eq!(st.theme.style, 7);
    let light = Theme { style: 1u8, sensors: None, header: Some("fancy".to_string()) };
    apply(&mut st, &switch(), false, light);
    assert_eq!(st.theme_name, "paper");
    assert_eq!(st.sensors, vec!["coretemp".to_string()]);
    assert_eq!(st.header, "fancy");
}

#[test]
fn apply_twice_is_apply_once() {
    let mut st: BarState<u8, Vec<String>, String> = BarState {
        theme_name: "old".to_string(),
        sensors: vec!["k10temp".to_string()],
        header: "plain".to_string(),
        theme: Theme { style: 0, sensors: None, header: None },
    };
    let t = || Theme { style: 3u8, sensors: Some(vec!["coretemp".to_string()]), header: Some("h".to_string()) };
    apply(&mut st, &switch(), true, t());
    let once = (st.theme_name.clone(), st.sensors.clone(), st.header.clone(), st.theme.style);
    apply(&mut st, &switch(), true, t());
    assert_eq!((st.theme_name.clone(), st.sensors.clone(), st.header.clone(), st.theme.style), once);
}
