use smol_dfr::workspace::{
    sort_by_idx, workspace_color, workspace_label, NiriEvent, NiriState, WindowInfo,
    WorkspaceColor, WorkspaceInfo,
};

fn ws(id: u64, idx: u8) -> WorkspaceInfo {
    WorkspaceInfo { id, idx, name: None, is_active: false, is_focused: false, is_urgent: false }
}

fn win(id: u64, title: &str, focused: bool) -> WindowInfo {
    WindowInfo { id, title: Some(title.to_string()), is_focused: focused }
}

#[test]
fn workspaces_are_sorted_stably_by_index() {
    let v = vec![ws(1, 3), ws(2, 1), ws(3, 3), ws(4, 0), ws(5, 1)];
    let ids: Vec<u64> = sort_by_idx(&v).iter().map(|w| w.id).collect();
    assert_eq!(ids, vec![4, 2, 5, 1, 3]);
}

#[test]
fn events_update_workspaces() {
    let mut s = NiriState::new();
    assert!(s.handle_event(NiriEvent::WorkspacesChanged { workspaces: vec![ws(10, 2), ws(11, 1)] }));
    assert_eq!(s.workspaces().iter().map(|w| w.id).collect::<Vec<_>>(), vec![11, 10]);
    assert!(s.take_changed());
    assert!(!s.take_changed());

    s.handle_event(NiriEvent::WorkspaceActivated { id: 10, focused: true });
    let w = s.workspaces();
    assert!(w[1].is_focused && w[1].is_active);
    assert!(!w[0].is_focused && !w[0].is_active);

    s.handle_event(NiriEvent::WorkspaceActivated { id: 11, focused: false });
    let w = s.workspaces();
    // Activation without focus keeps the focus and leaves the other active.
    assert!(w[0].is_active && !w[0].is_focused);
    assert!(w[1].is_active && w[1].is_focused);

    s.handle_event(NiriEvent::WorkspaceUrgencyChanged { id: 11, urgent: true });
    assert!(s.workspaces()[0].is_urgent);
    assert!(!s.handle_event(NiriEvent::Other));
}

#[test]
fn events_track_focused_window_title() {
    let mut s = NiriState::new();
    s.handle_event(NiriEvent::WindowsChanged { windows: vec![win(1, "a", false), win(2, "b", true)] });
    assert_eq!(s.focused_window_title(), Some("b".to_string()));
    s.handle_event(NiriEvent::WindowFocusChanged { id: Some(1) });
    assert_eq!(s.focused_window_title(), Some("a".to_string()));
    s.handle_event(NiriEvent::WindowOpenedOrChanged { window: win(1, "a2", false) });
    assert_eq!(s.focused_window_title(), Some("a2".to_string()));
    s.handle_event(NiriEvent::WindowClosed { id: 1 });
    assert_eq!(s.focused_window_title(), None);
    s.handle_event(NiriEvent::WindowOpenedOrChanged { window: win(3, "c", true) });
    assert_eq!(s.focused_window_title(), Some("c".to_string()));
    s.handle_event(NiriEvent::WindowFocusChanged { id: None });
    assert_eq!(s.focused_window_title(), None);
}

#[test]
fn disconnect_forgets_everything() {
    let mut s = NiriState::new();
    s.mark_connected();
    assert!(s.is_connected());
    s.handle_event(NiriEvent::WorkspacesChanged { workspaces: vec![ws(1, 1)] });
    s.handle_event(NiriEvent::WindowsChanged { windows: vec![win(1, "a", true)] });
    s.take_changed();
    s.mark_disconnected();
    assert!(!s.is_connected());
    assert!(s.workspaces().is_empty());
    assert_eq!(s.focused_window_title(), None);
    assert!(s.take_changed());
}

#[test]
fn workspace_buttons() {
    let mut w = ws(1, 4);
    assert_eq!(workspace_label(&w), "4");
    assert_eq!(workspace_color(&w), WorkspaceColor::Plain);
    w.is_focused = true;
    assert_eq!(workspace_color(&w), WorkspaceColor::Active);
    w.is_urgent = true;
    assert_eq!(workspace_color(&w), WorkspaceColor::Urgent);
    w.name = Some("web".to_string());
    assert_eq!(workspace_label(&w), "web");
}
