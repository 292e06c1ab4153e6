use marswm::atoms::X11Atom;
use marswm::bar::Bar;
use marswm::barstyle::BarConfiguration;
use marswm::events::SettingMode;
use marswm::geometry::Dimensions;
use marswm::relay::{query_exit_code, setting_request, Modifier, ModifierShim, SettingRequest, Status, Workspace};
use marswm::status::{
    active_window_from, active_workspace_from, bar_event_target, cycle_workspace, root_property_update,
    split_status, switch_workspace_relative, BarEventTarget, RootUpdate, StatusClick, StatusEventHandler,
    WorkspaceClick, WorkspaceEventHandler,
};
use marswm::widget::{Widget, WidgetEvent};

#[test]
fn split_status_blocks() {
    assert_eq!(split_status(""), vec![String::new()]);
    assert_eq!(split_status("cpu 5%"), vec!["cpu 5%".to_string()]);
    assert_eq!(split_status("a\u{1f}b\u{1f}c"), vec!["a".to_string(), "b".to_string(), "c".to_string()]);
    assert_eq!(split_status("a\u{1f}"), vec!["a".to_string(), String::new()]);
    assert_eq!(split_status("\u{1f}\u{1f}"), vec![String::new(), String::new(), String::new()]);
}

#[test]
fn split_then_join_gives_status_back() {
    for s in ["", "x", "a\u{1f}b", "\u{1f}b\u{1f}", "vol 40% \u{1f} 12:00"] {
        assert_eq!(split_status(s).join("\u{1f}"), s);
    }
}

#[test]
fn root_updates() {
    assert_eq!(root_property_update(Some(X11Atom::NetActiveWindow)), RootUpdate::ActiveWindow);
    assert_eq!(root_property_update(Some(X11Atom::NetCurrentDesktop)), RootUpdate::CurrentDesktop);
    assert_eq!(root_property_update(Some(X11Atom::NetDesktopNames)), RootUpdate::DesktopNames);
    assert_eq!(root_property_update(Some(X11Atom::MarsStatus)), RootUpdate::Status);
    assert_eq!(root_property_update(Some(X11Atom::WMName)), RootUpdate::Status);
    assert_eq!(root_property_update(Some(X11Atom::WMState)), RootUpdate::Nothing);
    assert_eq!(root_property_update(None), RootUpdate::Nothing);
}

#[test]
fn property_values() {
    assert_eq!(active_workspace_from(&vec![3, 9]), Ok(3));
    assert_eq!(active_workspace_from(&vec![]), Err("unable to convert desktop index to u32".to_string()));
    assert_eq!(active_window_from(None), None);
    assert_eq!(active_window_from(Some(&vec![])), None);
    assert_eq!(active_window_from(Some(&vec![0])), None);
    assert_eq!(active_window_from(Some(&vec![0x400007])), Some(0x400007));
}

#[test]
fn workspace_button_clicks() {
    let h = WorkspaceEventHandler::new(4);
    assert_eq!(h.click(1), WorkspaceClick::Switch(4));
    assert_eq!(h.click(3), WorkspaceClick::Switch(4));
    assert_eq!(h.click(2), WorkspaceClick::MoveClient(4));
    assert_eq!(h.click(4), WorkspaceClick::Cycle(-1));
    assert_eq!(h.click(5), WorkspaceClick::Cycle(1));
    assert_eq!(h.click(8), WorkspaceClick::Unhandled);
}

#[test]
fn workspace_cycling() {
    assert_eq!(cycle_workspace(0, 8, -1), 7);
    assert_eq!(cycle_workspace(7, 8, 1), 0);
    assert_eq!(cycle_workspace(3, 8, 1), 4);
    assert_eq!(switch_workspace_relative(0, 8, -1), 7);
    assert_eq!(switch_workspace_relative(7, 8, 1), 0);
    assert_eq!(switch_workspace_relative(2, 8, 3), 5);
}

#[test]
fn status_block_clicks() {
    let h = StatusEventHandler::new(2, "notify-send".to_string());
    assert_eq!(h.handle_action_event(WidgetEvent::ButtonPressed(3), true), StatusClick::AlreadyHandled);
    assert_eq!(
        h.handle_action_event(WidgetEvent::ButtonPressed(3), false),
        StatusClick::Run { block: "2".to_string(), button: "3".to_string() }
    );
    assert_eq!(h.handle_action_event(WidgetEvent::Redraw(), false), StatusClick::Ignored);
}

#[test]
fn bar_event_targets() {
    assert_eq!(bar_event_target(1, 1, 2, None, false, None, false, None), BarEventTarget::Root);
    assert_eq!(bar_event_target(2, 1, 2, None, false, None, false, None), BarEventTarget::Bar);
    assert_eq!(bar_event_target(5, 1, 2, Some(5), true, None, false, None), BarEventTarget::ActiveTitle);
    assert_eq!(bar_event_target(5, 1, 2, Some(5), false, None, false, None), BarEventTarget::Widgets);
    assert_eq!(bar_event_target(6, 1, 2, None, false, Some(6), true, None), BarEventTarget::TrayMessage);
    assert_eq!(bar_event_target(7, 1, 2, None, false, Some(6), false, Some(6)), BarEventTarget::TrayIconGone);
    assert_eq!(bar_event_target(7, 1, 2, None, false, None, false, None), BarEventTarget::Widgets);
}

#[test]
fn relay_arguments() {
    assert_eq!(setting_request(ModifierShim::from(Modifier::Enable)), SettingRequest::Change(SettingMode::Enable));
    assert_eq!(setting_request(ModifierShim::from(Modifier::Toggle)), SettingRequest::Change(SettingMode::Toggle));
    assert_eq!(setting_request(ModifierShim { modifier: None }), SettingRequest::Query);
    assert_eq!(SettingMode::from(Modifier::Disable), SettingMode::Disable);
    assert_eq!(query_exit_code(true), 0);
    assert_eq!(query_exit_code(false), 1);
    let s = Status { text: "hi".to_string() };
    assert_eq!(s.text, "hi");
    assert_eq!(Workspace { index: 3 }.index, 3);
}

fn bar() -> Bar {
    Bar::new(Dimensions::new(0, 0, 1920, 0), BarConfiguration::default(), 1, 2, 3, Some((0, 12)), Some(4))
}

#[test]
fn bar_new_layout() {
    let b = bar();
    assert_eq!(b.dimensions, Dimensions::new(0, 0, 1920, 31));
    assert_eq!(b.workspace_widget.count_children(), 0);
    assert_eq!(b.status_widget.count_children(), 0);
    assert_eq!(b.systray.as_ref().unwrap().size(), (23, 23));
    assert!(b.active_window.is_none());
    let no_tray = Bar::new(Dimensions::new(0, 0, 800, 0), BarConfiguration::default(), 1, 2, 3, None, None);
    assert!(no_tray.systray.is_none());
}

#[test]
fn bar_workspace_buttons() {
    let mut b = bar();
    let names = vec!["1".to_string(), "2".to_string()];
    let sizes = vec![Some((8, 12)), Some((8, 12))];
    b.arrange_workspaces(&names, &sizes, &vec![(10, Some((0, 12))), (11, Some((0, 12)))]);
    assert_eq!(b.workspace_widget.count_children(), 2);
    assert_eq!(b.workspace_widget.child(0).unwrap().label(), "");
    assert_eq!(b.workspace_widget.size(), (40, 20));
    assert_eq!(b.workspace_widget.pos(), (0, 5));
    b.arrange_workspaces(&names, &sizes, &vec![]);
    assert_eq!(b.workspace_widget.child(1).unwrap().label(), "2");
    assert_eq!(b.workspace_widget.size(), (56, 20));
    assert_eq!(b.workspace_widget.child(1).unwrap().pos(), (28, 0));
    b.set_active_workspace(1);
    assert_eq!(b.workspace_widget.child(1).unwrap().colors(), (0x5f87af, 0x262626));
    assert_eq!(b.workspace_widget.child(0).unwrap().colors(), (0x262626, 0x5f87af));
    b.arrange_workspaces(&vec!["1".to_string()], &vec![Some((8, 12))], &vec![]);
    assert_eq!(b.workspace_widget.count_children(), 1);
    assert_eq!(b.route_event(10), Some(10));
}

#[test]
fn bar_status_blocks() {
    let mut b = bar();
    let labels = vec!["a".to_string(), "bc".to_string()];
    let shown = b.arrange_status(&labels, &vec![Some((6, 12)), Some((12, 12))], &vec![(20, Some((0, 12))), (21, Some((0, 12)))]);
    assert_eq!(shown, Some(false));
    assert_eq!(b.status_widget.size(), (50, 20));
    assert_eq!(b.status_widget.pos(), (1865, 5));
    assert_eq!(b.status_widget.child(0).unwrap().pos(), (4, 4));
    assert_eq!(b.status_widget.child(1).unwrap().pos(), (24, 4));
    assert_eq!(b.status_widget.child(1).unwrap().label(), "bc");
    assert_eq!(b.route_event(21), Some(21));
}

#[test]
fn bar_title_tray_and_constraints() {
    let mut b = bar();
    b.arrange_title("Terminal".to_string(), Some((60, 12)));
    assert_eq!(b.title_widget.size(), (70, 12));
    assert_eq!(b.title_widget.pos(), (925, 9));
    b.arrange_tray();
    assert_eq!(b.systray.as_ref().unwrap().pos(), (1893, 4));
    assert_eq!(b.route_event(3), Some(3));
    assert_eq!(b.route_event(4), Some(4));
    assert_eq!(b.route_event(99), None);
    b.arrange_title("long".to_string(), Some((2000, 12)));
    b.update_constraints();
    assert_eq!(b.title_widget.size(), (1886, 12));
    assert_eq!(b.systray.as_ref().unwrap().size(), (10, 23));
    b.reconfigure(Dimensions::new(1920, 0, 1280, 1024));
    assert_eq!(b.dimensions, Dimensions::new(1920, 0, 1280, 31));
}

#[test]
fn bar_fit_checks() {
    let b = bar();
    let labels = vec!["a".to_string(), "bc".to_string()];
    let fresh = vec![(20, Some((0, 12))), (21, Some((0, 12)))];
    assert!(b.status_fits(&labels, &vec![Some((6, 12)), Some((12, 12))], &fresh));
    assert!(!b.status_fits(&labels, &vec![Some((6, 12))], &fresh));
    assert!(!b.status_fits(&labels, &vec![Some((6, 12)), Some((12, 12))], &vec![]));
    assert!(!b.status_fits(&labels, &vec![Some((6, 12)), Some((i32::MAX as u32, 12))], &fresh));
    assert!(b.workspaces_fit(&labels, &vec![Some((8, 12)), Some((8, 12))], &fresh));
    assert!(!b.workspaces_fit(&labels, &vec![Some((u32::MAX, 12)), Some((8, 12))], &fresh));
    assert!(b.title_fits("Terminal", Some((60, 12))));
    assert!(!b.title_fits("Terminal", Some((u32::MAX, 12))));
    assert!(b.tray_fits());
    assert!(b.constraints_check());
    let mut narrow = Bar::new(Dimensions::new(0, 0, 30, 0), BarConfiguration::default(), 1, 2, 3, None, None);
    let names = vec!["1".to_string(), "2".to_string(), "3".to_string()];
    let sizes = vec![Some((8, 12)), Some((8, 12)), Some((8, 12))];
    narrow.arrange_workspaces(&names, &sizes, &vec![(10, Some((0, 12))), (11, Some((0, 12))), (12, Some((0, 12)))]);
    assert!(!narrow.constraints_check());
}
