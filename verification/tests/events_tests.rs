use marswm::atoms::X11Atom;
use marswm::events::{
    apply_dock_insets, arrange_monitors, configure_plan, decode_client_message, desktop_request, unmap_action,
    window_kind, ClientMessageAction, ConfigureRequest, SettingMode, Stacking, UnmanagedClient, UnmanagedType,
    UnmapAction, WindowKind, CW_HEIGHT, CW_WIDTH, CW_X, CW_Y,
};
use marswm::events::{close_method, CloseMethod};
use marswm::geometry::{Dimensions, MonitorConfig};

#[test]
fn setting_mode_codes_roundtrip() {
    for m in [SettingMode::Enable, SettingMode::Disable, SettingMode::Toggle] {
        assert_eq!(SettingMode::from_code(m.code() as u64), Some(m));
    }
    assert_eq!(SettingMode::Enable.code(), 1);
    assert_eq!(SettingMode::Disable.code(), 0);
    assert_eq!(SettingMode::Toggle.code(), 2);
    assert_eq!(SettingMode::from_code(3), None);
}

#[test]
fn window_kinds() {
    assert_eq!(window_kind(&vec![]), WindowKind::Managed { is_dialog: false });
    assert_eq!(window_kind(&vec![X11Atom::NetWMWindowTypeDialog]), WindowKind::Managed { is_dialog: true });
    assert_eq!(window_kind(&vec![X11Atom::NetWMWindowTypeDock]), WindowKind::Dock);
    assert_eq!(
        window_kind(&vec![X11Atom::NetWMWindowTypeDialog, X11Atom::NetWMWindowTypeMenu]),
        WindowKind::Menu
    );
    assert_eq!(
        window_kind(&vec![X11Atom::NetWMWindowTypeDesktop, X11Atom::NetWMWindowTypeDock]),
        WindowKind::Desktop
    );
    assert_eq!(window_kind(&vec![X11Atom::WMName]), WindowKind::Managed { is_dialog: false });
}

#[test]
fn desktop_requests() {
    assert_eq!(desktop_request(None), None);
    assert_eq!(desktop_request(Some(&vec![3])), Some(3));
    assert_eq!(desktop_request(Some(&vec![u64::MAX])), None);
    assert_eq!(desktop_request(Some(&vec![0xffff_ffff])), None);
    assert_eq!(desktop_request(Some(&vec![0xffff_fffe])), Some(0xffff_fffe));
}

#[test]
fn configure_plans() {
    let inner = Dimensions::new(100, 100, 400, 300);
    let bw = (5, 2, 2, 2);
    let req = ConfigureRequest { value_mask: CW_X | CW_Y, x: 50, y: 60, width: 0, height: 0 };
    let p = configure_plan(req, inner, bw);
    assert_eq!(p.move_to, Some((48, 55)));
    assert_eq!(p.resize_to, None);
    let req = ConfigureRequest { value_mask: CW_WIDTH | CW_HEIGHT, x: 0, y: 0, width: 500, height: 400 };
    let p = configure_plan(req, inner, bw);
    assert_eq!(p.move_to, None);
    assert_eq!(p.resize_to, Some((504, 407)));
    let req = ConfigureRequest { value_mask: CW_X, x: 100, y: 0, width: 0, height: 0 };
    let p = configure_plan(req, inner, bw);
    assert_eq!(p.move_to, None);
    assert_eq!(p.resize_to, None);
}

#[test]
fn client_messages() {
    let data = vec![4i64, 0, 0, 0, 0];
    assert_eq!(decode_client_message(Some(X11Atom::NetActiveWindow), &data, 10, 11), ClientMessageAction::Activate);
    assert_eq!(decode_client_message(Some(X11Atom::NetCloseWindow), &data, 10, 11), ClientMessageAction::Close);
    assert_eq!(
        decode_client_message(Some(X11Atom::NetCurrentDesktop), &data, 10, 11),
        ClientMessageAction::SwitchWorkspace(4)
    );
    assert_eq!(
        decode_client_message(Some(X11Atom::NetCurrentDesktop), &vec![-3, 0, 0, 0, 0], 10, 11),
        ClientMessageAction::Ignore
    );
    assert_eq!(
        decode_client_message(Some(X11Atom::NetWMDesktop), &vec![-1, 0, 0, 0, 0], 10, 11),
        ClientMessageAction::SetDesktop { pinned: true, workspace: None }
    );
    assert_eq!(
        decode_client_message(Some(X11Atom::NetWMDesktop), &vec![2, 0, 0, 0, 0], 10, 11),
        ClientMessageAction::SetDesktop { pinned: false, workspace: Some(2) }
    );
    assert_eq!(
        decode_client_message(Some(X11Atom::NetWMState), &vec![1, 10, 0, 0, 0], 10, 11),
        ClientMessageAction::Fullscreen(SettingMode::Enable)
    );
    assert_eq!(
        decode_client_message(Some(X11Atom::NetWMState), &vec![2, 0, 11, 0, 0], 10, 11),
        ClientMessageAction::Tile(SettingMode::Toggle)
    );
    assert_eq!(
        decode_client_message(Some(X11Atom::NetWMState), &vec![7, 10, 0, 0, 0], 10, 11),
        ClientMessageAction::Ignore
    );
    assert_eq!(
        decode_client_message(Some(X11Atom::NetWMState), &vec![1, 3, 4, 0, 0], 10, 11),
        ClientMessageAction::Ignore
    );
    assert_eq!(decode_client_message(None, &data, 10, 11), ClientMessageAction::Ignore);
    assert_eq!(decode_client_message(Some(X11Atom::WMName), &data, 10, 11), ClientMessageAction::Ignore);
}

#[test]
fn unmap_actions() {
    assert_eq!(unmap_action(true, false, true), UnmapAction::EndReparenting);
    assert_eq!(unmap_action(false, true, false), UnmapAction::EndReparenting);
    assert_eq!(unmap_action(false, false, true), UnmapAction::Withdraw);
    assert_eq!(unmap_action(false, false, false), UnmapAction::Unmanage);
}

#[test]
fn unmanaged_clients() {
    let d = UnmanagedClient::new(5, UnmanagedType::Desktop);
    assert_eq!(d.window(), 5);
    assert_eq!(d.get_type(), UnmanagedType::Desktop);
    assert_eq!(d.stacking(), Stacking::Lower);
    assert_eq!(UnmanagedClient::new(6, UnmanagedType::Dock).stacking(), Stacking::Raise);
    assert_eq!(UnmanagedClient::new(7, UnmanagedType::Notification).stacking(), Stacking::Raise);
}

fn mon(name: &str, x: i32, y: i32, w: u32, h: u32) -> MonitorConfig {
    let d = Dimensions::new(x, y, w, h);
    MonitorConfig::new(name.to_string(), d, d)
}

#[test]
fn dock_insets() {
    let mut monitors = vec![mon("a", 0, 0, 1920, 1080), mon("b", 1920, 0, 1280, 1024)];
    monitors[0].add_inset_top(99);
    let docks = vec![Dimensions::new(0, 0, 1920, 20), Dimensions::new(1920, 1000, 1280, 24)];
    apply_dock_insets(&mut monitors, &docks);
    assert_eq!(monitors[0].window_area(), Dimensions::new(0, 20, 1920, 1060));
    assert_eq!(monitors[1].window_area(), Dimensions::new(1920, 0, 1280, 1000));
    let mut monitors = vec![mon("a", 0, 0, 1920, 1080)];
    apply_dock_insets(&mut monitors, &vec![Dimensions::new(5000, 0, 10, 10)]);
    assert_eq!(monitors[0].window_area(), Dimensions::new(0, 0, 1920, 1080));
}

#[test]
fn monitor_arrangement() {
    let found = vec![
        (mon("a", 0, 0, 1920, 1080), false),
        (mon("b", 1920, 0, 1280, 1024), true),
        (mon("c", 100, 100, 800, 600), false),
    ];
    let r = arrange_monitors(found.clone(), false);
    let names: Vec<&str> = r.iter().map(|m| m.name()).collect();
    assert_eq!(names, vec!["b", "a", "c"]);
    let r = arrange_monitors(found, true);
    let names: Vec<&str> = r.iter().map(|m| m.name()).collect();
    assert_eq!(names, vec!["b", "a"]);
    assert!(arrange_monitors(vec![], true).is_empty());
}

#[test]
fn close_politely_only_with_delete_protocol() {
    assert_eq!(close_method(&vec![X11Atom::WMState, X11Atom::WMDeleteWindow]), CloseMethod::DeleteMessage);
    assert_eq!(close_method(&vec![X11Atom::WMState]), CloseMethod::Kill);
    assert_eq!(close_method(&vec![]), CloseMethod::Kill);
}

#[test]
fn setting_mode_resolves_against_current_state() {
    for current in [false, true] {
        assert!(SettingMode::Enable.resolve(current));
        assert!(!SettingMode::Disable.resolve(current));
        assert_eq!(SettingMode::Toggle.resolve(current), !current);
    }
}
