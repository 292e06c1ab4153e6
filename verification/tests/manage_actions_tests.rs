use marswm::actions::{ActionEffect, WmAction};
use marswm::atoms::X11Atom;
use marswm::client::{Attributes, ClientFlags, X11Client};
use marswm::config::{Configuration, ThemingConfiguration};
use marswm::events::{
    configure_fits_check, configure_notify, configure_plan, window_kind, ConfigureRequest, WindowKind, CW_HEIGHT,
    CW_WIDTH, CW_X, CW_Y,
};
use marswm::geometry::{Dimensioned, Dimensions, MonitorConfig};
use marswm::layouts::LayoutType;
use marswm::rules::{Identifiers, Rule, WindowPlacement};
use marswm::status::StatusEventHandler;
use marswm::wmstate::{FocusChange, WmState};

fn mon(name: &str, x: i32, w: u32, h: u32) -> MonitorConfig {
    let d = Dimensions::new(x, 0, w, h);
    MonitorConfig::new(name.to_string(), d, d)
}

fn two_monitors() -> WmState {
    let mut s = WmState::new(Configuration::default());
    s.update_monitor_config(vec![mon("DP-1", 0, 1920, 1080), mon("DP-2", 1920, 1280, 1024)]);
    s
}

fn new_client(frame: u64) -> X11Client<Attributes> {
    X11Client::new(None, 1, frame + 1000, frame, Dimensions::new(100, 100, 200, 100), false, Attributes::default())
}

fn rule_for(app: &str) -> Rule<u32> {
    Rule {
        identifiers: Identifiers { application: Some(app.to_string()), title: None },
        actions: vec![],
        ignore_window: false,
        initial_placement: None,
        floating: None,
        workspace: None,
    }
}

#[test]
fn manage_client_without_rules_shows_and_focuses() {
    let mut s = two_monitors();
    let mut c = new_client(10);
    let rules: Vec<Rule<u32>> = vec![];
    let flags: Vec<ClientFlags> = vec![];
    let plan = s.manage_client(&mut c, &rules, "xterm", "shell", None, None, 0, (0, 0), &flags).unwrap();
    assert_eq!(plan.workspace, 0);
    assert_eq!(plan.monitor, 0);
    assert!(plan.show);
    assert_eq!(plan.focus, FocusChange::Focus { client: 10, previous: None });
    assert!(plan.actions.is_empty());
    assert!(plan.position.is_some());
    assert_eq!(s.clients(), &vec![10]);
    assert_eq!(s.get_workspace(10), Some((0, 0)));
    // the theming's border and frame widths
    let t = ThemingConfiguration::default();
    assert_eq!(c.inner_bw(), t.inner_border_width);
    assert_eq!(c.outer_bw(), t.outer_border_width);
    let f = t.frame_width;
    assert_eq!(c.frame_width(), (f, f, f, f));
    // centered on the monitor by default
    let d = c.dimensions();
    assert!(d.x >= 0 && d.y >= 0);
    assert!(d.x + d.w as i32 <= 1920 && d.y + d.h as i32 <= 1080);
}

#[test]
fn manage_client_ignored_by_rule() {
    let mut s = two_monitors();
    let mut c = new_client(10);
    let mut r = rule_for("panel");
    r.ignore_window = true;
    let rules = vec![r];
    let flags: Vec<ClientFlags> = vec![];
    let before = s.clients().clone();
    assert!(s.manage_client(&mut c, &rules, "panel", "", None, None, 0, (0, 0), &flags).is_none());
    assert_eq!(s.clients(), &before);
    assert!(c.is_visible());
}

#[test]
fn manage_client_on_hidden_workspace_with_rule_actions() {
    let mut s = two_monitors();
    let mut c = new_client(10);
    let mut r = rule_for("mail");
    r.workspace = Some(2);
    r.actions = vec![7, 8];
    r.initial_placement = Some(WindowPlacement::Pointer);
    let rules = vec![r];
    let flags: Vec<ClientFlags> = vec![];
    let plan = s.manage_client(&mut c, &rules, "mail", "inbox", None, None, 0, (0, 0), &flags).unwrap();
    assert_eq!(plan.workspace, 2);
    assert_eq!(plan.monitor, 0);
    assert!(!plan.show);
    assert_eq!(plan.focus, FocusChange::Unchanged);
    assert_eq!(plan.actions, vec![7, 8]);
    assert_eq!(s.get_workspace(10), Some((0, 2)));
    assert_eq!(s.active_client(), None);
}

#[test]
fn manage_client_without_decoration() {
    let mut s = two_monitors();
    let mut c = new_client(10);
    // Motif hints that ask for no decorations
    c.apply_motif_hints(Some(&vec![2, 0, 0, 0, 0]));
    assert!(c.dont_decorate());
    let rules: Vec<Rule<u32>> = vec![];
    let flags: Vec<ClientFlags> = vec![];
    assert!(s.manage_client(&mut c, &rules, "mpv", "", None, None, 0, (0, 0), &flags).is_some());
    assert_eq!(c.inner_bw(), 0);
    assert_eq!(c.outer_bw(), 0);
    assert_eq!(c.frame_width(), (0, 0, 0, 0));
}

#[test]
fn configuration_defaults_for_placement_and_no_decoration() {
    let c = Configuration::default();
    assert_eq!(c.initial_placement, WindowPlacement::Center);
    assert_eq!(c.theming.no_decoration.frame_width, 0);
    assert_eq!(c.theming.no_decoration.inner_border_width, 0);
    assert_eq!(c.theming.no_decoration.outer_border_width, 0);
}

#[test]
fn execute_layout_actions() {
    let mut s = two_monitors();
    let flags: Vec<ClientFlags> = vec![];
    assert_eq!(s.monitor(0).unwrap().current_workspace().current_layout(), LayoutType::Floating);
    assert!(matches!(s.execute(WmAction::CycleLayout, None, 0, &flags), ActionEffect::Relayout));
    assert_eq!(s.monitor(0).unwrap().current_workspace().current_layout(), LayoutType::Stack);
    assert!(matches!(s.execute(WmAction::SetLayout(LayoutType::Monocle), None, 0, &flags), ActionEffect::Relayout));
    assert_eq!(s.monitor(0).unwrap().current_workspace().current_layout(), LayoutType::Monocle);
}

#[test]
fn execute_commands_and_client_actions() {
    let mut s = two_monitors();
    let flags: Vec<ClientFlags> = vec![];
    match s.execute(WmAction::Execute("xterm".to_string()), None, 0, &flags) {
        ActionEffect::Spawn(cmd) => assert_eq!(cmd, "xterm"),
        _ => panic!("expected a command to run"),
    }
    assert!(matches!(s.execute(WmAction::Exit, None, 0, &flags), ActionEffect::Exit));
    assert!(matches!(s.execute(WmAction::Restart, None, 0, &flags), ActionEffect::Restart));
    assert!(matches!(s.execute(WmAction::CloseClient, None, 0, &flags), ActionEffect::Nothing));
    s.manage(10, 0, None, 0);
    assert!(matches!(s.execute(WmAction::CloseClient, Some(10), 0, &flags), ActionEffect::Close(10)));
    assert!(matches!(s.execute(WmAction::ToggleFloating, Some(10), 0, &flags), ActionEffect::ToggleFloating(10)));
}

#[test]
fn execute_workspace_actions() {
    let mut s = two_monitors();
    let flags: Vec<ClientFlags> = vec![];
    s.manage(10, 0, None, 0);
    assert!(matches!(s.execute(WmAction::SwitchWorkspace(3), None, 0, &flags), ActionEffect::MonitorSwitch(_)));
    assert_eq!(s.active_workspace(0), 3);
    assert!(matches!(s.execute(WmAction::PreviousWorkspace, None, 0, &flags), ActionEffect::MonitorSwitch(_)));
    assert_eq!(s.active_workspace(0), 0);
    assert!(matches!(s.execute(WmAction::CycleWorkspace(-1), None, 0, &flags), ActionEffect::Switch(_)));
    assert_eq!(s.active_workspace(0), 7);
    match s.execute(WmAction::MoveWorkspace(7), Some(10), 0, &flags) {
        ActionEffect::Moved { client, hide } => {
            assert_eq!(client, 10);
            assert!(!hide);
        },
        _ => panic!("expected the client to move"),
    }
    assert_eq!(s.get_workspace(10), Some((0, 7)));
}

#[test]
fn configure_notification_when_nothing_changed() {
    let inner = Dimensions::new(100, 100, 400, 300);
    let bw = (5, 2, 2, 2);
    let same = ConfigureRequest { value_mask: CW_X | CW_Y | CW_WIDTH | CW_HEIGHT, x: 100, y: 100, width: 400, height: 300 };
    assert!(configure_fits_check(same, inner, bw));
    let p = configure_plan(same, inner, bw);
    assert_eq!(p.move_to, None);
    assert_eq!(p.resize_to, None);
    assert!(configure_notify(&p, false));
    let bigger = ConfigureRequest { value_mask: CW_WIDTH, x: 0, y: 0, width: 500, height: 0 };
    let p = configure_plan(bigger, inner, bw);
    assert!(!configure_notify(&p, true));
    assert!(configure_notify(&p, false));
    let too_far = ConfigureRequest { value_mask: CW_X, x: i32::MIN, y: 0, width: 0, height: 0 };
    assert!(!configure_fits_check(too_far, inner, bw));
}

#[test]
fn notification_windows_are_not_managed() {
    assert_eq!(window_kind(&vec![X11Atom::NetWMWindowTypeNotification]), WindowKind::Notification);
    assert_eq!(X11Atom::NetWMWindowTypeNotification.name(), "_NET_WM_WINDOW_TYPE_NOTIFICATION");
}

#[test]
fn decorate_sets_borders_and_frame() {
    let mut c = new_client(10);
    assert!(c.can_decorate(2, 3, (1, 2, 3, 4)));
    c.decorate(2, 3, (1, 2, 3, 4));
    assert_eq!(c.inner_bw(), 2);
    assert_eq!(c.outer_bw(), 3);
    assert_eq!(c.frame_width(), (1, 2, 3, 4));
    assert!(!c.can_decorate(0, u32::MAX, (0, 0, 0, 0)));
}

#[test]
fn status_handlers_for_new_blocks() {
    let cmd = Some("status-action".to_string());
    let hs = StatusEventHandler::for_new_blocks(1, 3, &cmd);
    assert_eq!(hs, vec![
        StatusEventHandler::new(1, "status-action".to_string()),
        StatusEventHandler::new(2, "status-action".to_string()),
    ]);
    assert!(StatusEventHandler::for_new_blocks(3, 3, &cmd).is_empty());
    assert!(StatusEventHandler::for_new_blocks(4, 2, &cmd).is_empty());
    assert!(StatusEventHandler::for_new_blocks(0, 3, &None).is_empty());
}

#[test]
fn window_area_stays_inside_monitor() {
    let mut m = mon("DP-1", 0, 1920, 1080);
    m.add_inset_top(30);
    m.add_inset_bottom(20);
    let wa = m.window_area();
    let d = m.dimensions();
    assert_eq!(wa, Dimensions::new(0, 30, 1920, 1030));
    assert!(wa.x == d.x && wa.w == d.w && wa.y >= d.y && wa.y + wa.h as i32 <= d.y + d.h as i32);
    m.add_inset_bottom(5000);
    assert_eq!(m.window_area(), Dimensions::new(0, 30, 1920, 1030));
    m.remove_insets();
    assert_eq!(m.window_area(), d);
}

#[test]
fn manage_client_on_other_monitor_stays_hidden() {
    let mut s = two_monitors();
    let mut c = new_client(10);
    let rules: Vec<Rule<u32>> = vec![];
    let flags: Vec<ClientFlags> = vec![];
    // the application asks for the first workspace of the second monitor
    let plan = s.manage_client(&mut c, &rules, "chat", "", Some(8), None, 0, (0, 0), &flags).unwrap();
    assert_eq!(plan.workspace, 8);
    assert_eq!(plan.monitor, 1);
    assert!(!plan.show);
    assert_eq!(plan.focus, FocusChange::Unchanged);
    assert_eq!(s.get_workspace(10), Some((1, 0)));
}
