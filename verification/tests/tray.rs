use xerotop::tray::{
    best_pixmap, build_entries, menu_entries, snapshot, to_item, IconPixmap, ItemProps, MenuItem,
    MenuType, TrayEvent, TrayMenu, TrayRegistry,
};

fn pix(w: i32, h: i32, tag: u8) -> IconPixmap {
    IconPixmap { width: w, height: h, pixels: vec![tag] }
}

fn item(id: i32, label: Option<&str>, visible: bool, sep: bool, sub: Vec<MenuItem>) -> MenuItem {
    MenuItem {
        id,
        menu_type: if sep { MenuType::Separator } else { MenuType::Standard },
        label: label.map(|s| s.to_string()),
        enabled: id % 2 == 0,
        visible,
        submenu: sub,
    }
}

fn props(title: Option<&str>, icon: Option<&str>, menu: Option<&str>) -> ItemProps {
    ItemProps {
        title: title.map(|s| s.to_string()),
        icon_name: icon.map(|s| s.to_string()),
        icon_theme_path: None,
        icon_pixmap: None,
        menu: menu.map(|s| s.to_string()),
    }
}

fn ids(reg: &TrayRegistry) -> Vec<String> {
    snapshot(reg).iter().map(|t| t.id.clone()).collect()
}

#[test]
fn best_pixmap_takes_largest_last() {
    let v = vec![pix(16, 16, 1), pix(32, 32, 2), pix(16, 64, 3), pix(8, 8, 4)];
    assert_eq!(best_pixmap(Some(&v)), Some((16, 64, vec![3])));
    assert_eq!(best_pixmap(Some(&vec![])), None);
    assert_eq!(best_pixmap(None), None);
    let one = vec![pix(22, 22, 9)];
    assert_eq!(best_pixmap(Some(&one)), Some((22, 22, vec![9])));
}

#[test]
fn menu_keeps_visible_entries_in_order() {
    let items = vec![
        item(1, Some("Open"), true, false, vec![]),
        item(2, Some("Hidden"), false, false, vec![item(20, Some("x"), true, false, vec![])]),
        item(3, None, true, true, vec![]),
        item(4, Some("More"), true, false, vec![
            item(41, Some("A"), true, false, vec![]),
            item(42, Some("B"), false, false, vec![]),
        ]),
    ];
    let es = build_entries(&items);
    assert_eq!(es.len(), 3);
    assert_eq!((es[0].id, es[0].label.as_str(), es[0].separator), (1, "Open", false));
    assert_eq!((es[1].id, es[1].label.as_str(), es[1].separator), (3, "", true));
    assert_eq!(es[2].children.len(), 1);
    assert_eq!(es[2].children[0].label, "A");
    assert!(es[2].enabled);
    let m = TrayMenu { id: 0, submenus: items };
    assert_eq!(menu_entries(&m).len(), 3);
}

#[test]
fn to_item_drops_empty_icon_name() {
    let it = to_item(":1.42", &props(None, Some(""), Some("/Menu")));
    assert_eq!(it.id, ":1.42");
    assert_eq!(it.title, "");
    assert_eq!(it.icon_name, None);
    assert_eq!(it.menu_path, Some("/Menu".to_string()));
    assert!(it.menu.is_empty());
    let it = to_item(":1.7", &props(Some("Steam"), Some("steam"), None));
    assert_eq!(it.title, "Steam");
    assert_eq!(it.icon_name, Some("steam".to_string()));
}

#[test]
fn add_update_remove() {
    let mut reg = TrayRegistry::new();
    let step = reg.handle(TrayEvent::Add(":1.9".to_string(), props(Some("nm"), None, Some("/M"))));
    assert!(step.changed);
    assert_eq!(step.about_to_show, Some((":1.9".to_string(), "/M".to_string())));
    let step = reg.handle(TrayEvent::Add(":1.3".to_string(), props(Some("vol"), None, None)));
    assert!(step.changed);
    assert!(step.about_to_show.is_none());
    assert_eq!(ids(&reg), vec![":1.3", ":1.9"]);

    let step = reg.handle(TrayEvent::Title(":1.3".to_string(), Some("Volume".to_string())));
    assert!(step.changed);
    let step = reg.handle(TrayEvent::Icon(":1.9".to_string(), Some("net".to_string()), Some(vec![pix(4, 4, 5)])));
    assert!(step.changed);
    let step = reg.handle(TrayEvent::Menu(
        ":1.9".to_string(),
        TrayMenu { id: 0, submenus: vec![item(1, Some("Wi-Fi"), true, false, vec![])] },
    ));
    assert!(step.changed);
    let snap = snapshot(&reg);
    assert_eq!(snap[0].title, "Volume");
    assert_eq!(snap[1].icon_name, Some("net".to_string()));
    assert_eq!(snap[1].pixmap, Some((4, 4, vec![5])));
    assert_eq!(snap[1].menu[0].label, "Wi-Fi");

    // Updates for unknown items and other updates change nothing.
    assert!(!reg.handle(TrayEvent::Title(":9".to_string(), Some("x".to_string()))).changed);
    assert!(!reg.handle(TrayEvent::Other(":1.3".to_string())).changed);
    assert_eq!(reg.len(), 2);

    // Removing an unknown item changes nothing shown; removing a known one does.
    assert!(!reg.handle(TrayEvent::Remove(":9".to_string())).changed);
    assert_eq!(reg.len(), 2);
    assert!(reg.handle(TrayEvent::Remove(":1.3".to_string())).changed);
    assert_eq!(ids(&reg), vec![":1.9"]);
}

#[test]
fn add_then_remove_restores() {
    let mut reg = TrayRegistry::new();
    reg.handle(TrayEvent::Add("b".to_string(), props(Some("B"), None, None)));
    let before = snapshot(&reg);
    reg.handle(TrayEvent::Add("a".to_string(), props(Some("A"), None, None)));
    reg.handle(TrayEvent::Remove("a".to_string()));
    let after = snapshot(&reg);
    assert_eq!(before.len(), after.len());
    assert_eq!(before[0].id, after[0].id);
    assert_eq!(before[0].title, after[0].title);
}

#[test]
fn adding_same_address_replaces() {
    let mut reg = TrayRegistry::new();
    reg.handle(TrayEvent::Add("a".to_string(), props(Some("one"), None, None)));
    reg.handle(TrayEvent::Add("a".to_string(), props(Some("two"), None, None)));
    let snap = snapshot(&reg);
    assert_eq!(snap.len(), 1);
    assert_eq!(snap[0].title, "two");
}

#[test]
fn load_with_menu() {
    let mut reg = TrayRegistry::new();
    let m = TrayMenu { id: 0, submenus: vec![item(5, Some("Quit"), true, false, vec![])] };
    reg.load("z", &props(Some("Z"), None, Some("/m")), Some(&m));
    reg.load("y", &props(None, None, None), None);
    let snap = snapshot(&reg);
    assert_eq!(snap[0].id, "y");
    assert_eq!(snap[1].menu[0].label, "Quit");
}

#[test]
fn snapshots_of_same_registry_agree() {
    let mut reg = TrayRegistry::new();
    for a in ["c", "a", "b", "ab"] {
        reg.handle(TrayEvent::Add(a.to_string(), props(None, None, None)));
    }
    assert_eq!(ids(&reg), vec!["a", "ab", "b", "c"]);
    assert_eq!(ids(&reg), ids(&reg));
}

#[test]
fn menu_entries_compare_and_clone_by_content() {
    let items = vec![item(4, Some("More"), true, false, vec![item(41, Some("A"), true, false, vec![])])];
    let a = build_entries(&items);
    let b = build_entries(&items);
    assert!(a[0] == b[0]);
    let c = a[0].clone();
    assert!(c == a[0]);
    let other = build_entries(&vec![item(4, Some("More"), true, false, vec![item(41, Some("B"), true, false, vec![])])]);
    assert!(other[0] != a[0]);
}

#[test]
fn contains_reports_registered_addresses() {
    let mut reg = TrayRegistry::new();
    assert!(!reg.contains("a"));
    reg.handle(TrayEvent::Add("a".to_string(), props(None, None, None)));
    assert!(reg.contains("a"));
    assert!(!reg.contains("b"));
}

#[test]
fn icon_update_for_unknown_address_ignores_its_images() {
    let mut reg = TrayRegistry::new();
    let huge = vec![IconPixmap { width: 70000, height: 70000, pixels: vec![] }];
    let step = reg.handle(TrayEvent::Icon("gone".to_string(), None, Some(huge)));
    assert!(!step.changed);
    assert_eq!(reg.len(), 0);
}
