use xerotop::taskbar::{is_activated, Taskbar, Toplevel, ToplevelEvent};

fn titles(list: &[Toplevel]) -> Vec<String> {
    list.iter().map(|t| t.title.clone()).collect()
}

#[test]
fn state_words_in_both_byte_orders() {
    assert!(is_activated(&vec![2, 0, 0, 0], true));
    assert!(!is_activated(&vec![2, 0, 0, 0], false));
    assert!(is_activated(&vec![0, 0, 0, 2], false));
    assert!(is_activated(&vec![0, 0, 0, 0, 2, 0, 0, 0], true));
    assert!(!is_activated(&vec![0, 0, 0, 0, 1, 0, 0, 0], true));
    // A trailing partial word is ignored.
    assert!(!is_activated(&vec![0, 0, 0, 0, 2, 0], true));
    assert!(!is_activated(&vec![], true));
}

#[test]
fn snapshot_after_done_sorted_by_lowercase_title() {
    let mut tb = Taskbar::new(true);
    tb.announce(10);
    tb.announce(11);
    tb.announce(12);
    tb.event(10, ToplevelEvent::Title("firefox".to_string()));
    tb.event(11, ToplevelEvent::Title("Alacritty".to_string()));
    tb.event(12, ToplevelEvent::Title("Zathura".to_string()));
    tb.event(11, ToplevelEvent::AppId("Alacritty".to_string()));
    tb.event(12, ToplevelEvent::State(vec![2, 0, 0, 0]));
    assert!(tb.flush().is_none());
    tb.event(10, ToplevelEvent::Done);
    let list = tb.flush().unwrap();
    assert_eq!(titles(&list), vec!["Alacritty", "firefox", "Zathura"]);
    assert_eq!(list[0].app_id, "Alacritty");
    assert!(list[2].activated);
    assert!(!list[0].activated);
    // Nothing more is pending.
    assert!(tb.flush().is_none());
}

#[test]
fn closing_removes_and_flags() {
    let mut tb = Taskbar::new(true);
    tb.announce(1);
    tb.announce(2);
    tb.event(1, ToplevelEvent::Title("a".to_string()));
    tb.event(2, ToplevelEvent::Title("b".to_string()));
    tb.event(1, ToplevelEvent::Closed);
    let list = tb.flush().unwrap();
    assert_eq!(titles(&list), vec!["b"]);
}

#[test]
fn unknown_window_events_change_nothing() {
    let mut tb = Taskbar::new(true);
    tb.announce(1);
    tb.event(1, ToplevelEvent::Title("a".to_string()));
    tb.event(9, ToplevelEvent::Title("ghost".to_string()));
    tb.event(9, ToplevelEvent::State(vec![2, 0, 0, 0]));
    tb.event(9, ToplevelEvent::Other);
    tb.event(1, ToplevelEvent::Done);
    let list = tb.flush().unwrap();
    assert_eq!(titles(&list), vec!["a"]);
    assert!(!list[0].activated);
}

#[test]
fn reannounce_resets_window() {
    let mut tb = Taskbar::new(true);
    tb.announce(1);
    tb.event(1, ToplevelEvent::Title("a".to_string()));
    tb.announce(1);
    tb.event(1, ToplevelEvent::Done);
    let list = tb.flush().unwrap();
    assert_eq!(list.len(), 1);
    assert_eq!(list[0].title, "");
}

#[test]
fn default_toplevel() {
    let t = Toplevel::default();
    assert_eq!(t.title, "");
    assert!(!t.activated);
}
