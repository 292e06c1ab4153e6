use marswm::client::{Attributes, ClientFlags, X11Client};
use marswm::config::Configuration;
use marswm::geometry::{Dimensioned, Dimensions, MonitorConfig};
use marswm::layouts::{LayoutConfiguration, LayoutType, StackMode, StackPosition};
use marswm::monitor::Monitor;
use marswm::seqs::position;
use marswm::workspace::Workspace;

fn flags(id: u64, floating: bool, fullscreen: bool, pinned: bool) -> ClientFlags {
    ClientFlags { id, is_floating: floating, is_dialog: false, is_fullscreen: fullscreen, is_pinned: pinned }
}

fn area() -> Dimensions {
    Dimensions::new(0, 0, 1000, 800)
}

fn workspace_with(ids: &[u64]) -> Workspace {
    let mut ws = Workspace::new("1".to_string(), 0, area(), LayoutConfiguration::default());
    for id in ids {
        ws.attach_client(*id);
    }
    ws
}

#[test]
fn workspace_attach_orders_newest_first() {
    let ws = workspace_with(&[1, 2, 3]);
    assert_eq!(ws.clients(), &vec![3, 2, 1]);
    assert_eq!(ws.clients_stack(), &vec![3, 2, 1]);
    assert!(ws.contains(2));
    assert!(!ws.contains(4));
    assert_eq!(ws.index_of(1), Some(2));
    assert_eq!(ws.index_of(4), None);
    assert!(ws.is_main(3));
    assert!(!ws.is_main(2));
    assert_eq!(ws.last_active_main(), Some(3));
    assert_eq!(ws.last_active_stack(), Some(2));
}

#[test]
fn workspace_raise_and_detach() {
    let mut ws = workspace_with(&[1, 2, 3]);
    ws.raise_client(1);
    assert_eq!(ws.clients_stack(), &vec![1, 3, 2]);
    assert_eq!(ws.last_active_stack(), Some(1));
    ws.raise_client(9);
    assert_eq!(ws.clients_stack(), &vec![1, 3, 2]);
    ws.detach_client(3);
    assert_eq!(ws.clients(), &vec![2, 1]);
    assert_eq!(ws.clients_stack(), &vec![1, 2]);
    ws.detach_client(3);
    assert_eq!(ws.clients(), &vec![2, 1]);
}

#[test]
fn workspace_attach_then_detach_restores() {
    let mut ws = workspace_with(&[1, 2]);
    let clients = ws.clients().clone();
    let stack = ws.clients_stack().clone();
    ws.attach_client(7);
    ws.detach_client(7);
    assert_eq!(ws.clients(), &clients);
    assert_eq!(ws.clients_stack(), &stack);
}

#[test]
fn workspace_move_main() {
    let mut ws = workspace_with(&[1, 2, 3]);
    ws.move_main(1);
    assert_eq!(ws.clients(), &vec![1, 3, 2]);
    ws.move_main(1);
    assert_eq!(ws.clients(), &vec![3, 1, 2]);
    ws.move_main(8);
    assert_eq!(ws.clients(), &vec![3, 1, 2]);
}

#[test]
fn workspace_stack_move_wraps() {
    let mut ws = workspace_with(&[1, 2, 3]);
    ws.stack_move(2, 1);
    assert_eq!(ws.clients(), &vec![3, 1, 2]);
    ws.stack_move(2, 1);
    assert_eq!(ws.clients(), &vec![2, 3, 1]);
    ws.stack_move(2, -1);
    assert_eq!(ws.clients(), &vec![3, 1, 2]);
    ws.stack_set_pos(2, 0);
    assert_eq!(ws.clients(), &vec![2, 3, 1]);
}

#[test]
fn workspace_pinned_clients() {
    let mut ws = workspace_with(&[1, 2, 3]);
    let table = vec![flags(2, false, false, true)];
    let pulled = ws.pull_pinned(&table);
    assert_eq!(pulled, vec![2]);
    assert_eq!(ws.clients(), &vec![3, 1]);
    assert_eq!(ws.clients_stack(), &vec![3, 1]);
    ws.push_pinned(vec![2]);
    assert_eq!(ws.clients(), &vec![3, 1, 2]);
    assert_eq!(ws.clients_stack(), &vec![3, 1, 2]);
}

#[test]
fn workspace_layout_settings() {
    let mut ws = workspace_with(&[]);
    assert_eq!(ws.current_layout(), LayoutType::Floating);
    ws.cycle_layout();
    assert_eq!(ws.current_layout(), LayoutType::Stack);
    ws.set_layout(LayoutType::Monocle);
    assert_eq!(ws.current_layout(), LayoutType::Monocle);
    ws.inc_nmain(1);
    assert_eq!(ws.layout_config().nmain, 2);
    ws.inc_gaps(1);
    assert_eq!(ws.layout_config().gap_width, 5);
    ws.inc_gaps(-10);
    assert_eq!(ws.layout_config().gap_width, 5);
    ws.inc_gaps(500);
    assert_eq!(ws.layout_config().gap_width, 5);
    ws.set_stack_mode(StackMode::Deck);
    ws.set_stack_position(StackPosition::Left);
    assert_eq!(ws.layout_config().stack_mode, StackMode::Deck);
    assert_eq!(ws.layout_config().stack_position, StackPosition::Left);
    ws.update_window_area(Dimensions::new(0, 20, 1000, 780));
    assert_eq!(ws.window_area(), Dimensions::new(0, 20, 1000, 780));
    assert_eq!(ws.name(), "1");
    assert_eq!(ws.global_index(), 0);
}

#[test]
fn workspace_inc_nmain_wraps_like_u32() {
    let mut ws = workspace_with(&[]);
    ws.inc_nmain(-2);
    assert_eq!(ws.layout_config().nmain, u32::MAX);
}

#[test]
fn workspace_filters_and_layout() {
    let mut ws = workspace_with(&[1, 2, 3]);
    ws.set_layout(LayoutType::Stack);
    let table = vec![flags(2, true, false, false), flags(1, false, true, false)];
    assert_eq!(ws.tiled_clients(&table), vec![3, 1]);
    assert_eq!(ws.drop_fullscreen(&table), vec![1]);
    assert!(ws.layout_fits_now(&table, 600, 400));
    assert!(!ws.layout_fits_now(&table, 999, 400));
    let placements = ws.apply_layout(&table, 600, 400);
    assert_eq!(placements, vec![(3, Some(Dimensions::new(4, 4, 592, 792))), (1, None)]);
}

#[test]
fn workspace_restack_plan() {
    let mut ws = workspace_with(&[1, 2, 3, 4]);
    ws.set_layout(LayoutType::Stack);
    let table = vec![
        flags(1, true, false, false),
        flags(3, true, false, false),
        flags(2, false, true, false),
        flags(4, false, true, false),
    ];
    let plan = ws.restack(&table);
    assert_eq!(plan.unset_fullscreen, vec![2]);
    assert_eq!(plan.raise, vec![1, 3, 4]);
    ws.set_layout(LayoutType::Floating);
    let plan = ws.restack(&table);
    assert_eq!(plan.raise, vec![4]);
}

#[test]
fn workspace_set_floating_and_pinned() {
    let ws = workspace_with(&[0x200001]);
    let mut c = X11Client::new(None, 1, 5, 0x200001, Dimensions::new(0, 0, 200, 100), false, Attributes::default());
    assert!(ws.set_floating(&mut c, true));
    assert!(c.attributes().is_floating);
    assert_eq!(c.pos(), (400, 350));
    assert!(!ws.set_floating(&mut c, true));
    c.move_resize(10, 10, 300, 300);
    assert!(ws.set_floating(&mut c, false));
    assert_eq!(c.attributes().floating_dimensions, Some(Dimensions::new(10, 10, 300, 300)));
    c.move_resize(0, 0, 50, 50);
    assert!(ws.set_floating(&mut c, true));
    assert_eq!(c.dimensions(), Dimensions::new(10, 10, 300, 300));
    assert_eq!(ws.set_pinned(&mut c, true), 0xffff_ffff);
    assert!(c.attributes().is_pinned);
    assert_eq!(ws.set_pinned(&mut c, false), 0);
    let other = workspace_with(&[]);
    assert!(!other.set_floating(&mut c, false));
}

fn monitor(primary: bool, offset: u32) -> Monitor {
    let dims = Dimensions::new(0, 0, 1920, 1080);
    Monitor::new(MonitorConfig::new("DP-1".to_string(), dims, dims), &Configuration::default(), primary, offset)
}

#[test]
fn monitor_workspace_names() {
    let m = monitor(true, 0);
    assert_eq!(m.workspace_count(), 8);
    assert_eq!(m.workspace(0).unwrap().name(), "1");
    assert_eq!(m.workspace(7).unwrap().name(), "8");
    assert!(m.workspace(8).is_none());
    let s = monitor(false, 8);
    assert_eq!(s.workspace_count(), 2);
    assert_eq!(s.workspace(1).unwrap().name(), "DP-1:2");
    assert_eq!(s.workspace(1).unwrap().global_index(), 9);
    assert_eq!(s.workspace_offset(), 8);
}

#[test]
fn monitor_switch_moves_pinned_clients() {
    let mut m = monitor(true, 0);
    m.attach_client(1);
    m.attach_client(2);
    let table = vec![flags(2, false, false, true)];
    assert!(m.switch_workspace(0, &table).is_none());
    assert!(m.switch_workspace(8, &table).is_none());
    let sw = m.switch_workspace(3, &table).unwrap();
    assert_eq!(sw.pinned, vec![2]);
    assert_eq!(sw.hide, vec![1]);
    assert_eq!(sw.show, vec![2]);
    assert_eq!(sw.global_index, 3);
    assert_eq!(m.current_workspace_index(), 3);
    assert_eq!(m.prev_workspace_index(), 0);
    assert!(m.contains(1) && m.contains(2));
    let back = m.switch_prev_workspace(&table).unwrap();
    assert_eq!(back.global_index, 0);
    assert_eq!(m.current_workspace_index(), 0);
}

#[test]
fn monitor_move_and_detach() {
    let mut m = monitor(true, 0);
    assert_eq!(m.attach_client(1), 0);
    assert_eq!(m.move_to_workspace(1, 2), Some(true));
    assert_eq!(m.workspace_index_of(1), Some(2));
    assert_eq!(m.move_to_workspace(1, 0), Some(false));
    assert_eq!(m.move_to_workspace(1, 9), None);
    assert_eq!(m.clients(), vec![1]);
    m.detach_client(1);
    assert!(!m.contains(1));
    assert_eq!(m.workspace_index_of(1), None);
}

#[test]
fn monitor_update_config() {
    let mut m = monitor(false, 8);
    let dims = Dimensions::new(1920, 0, 1280, 1024);
    m.update_config(MonitorConfig::new("HDMI-1".to_string(), dims, Dimensions::new(1920, 20, 1280, 1004)));
    assert_eq!(m.dimensions(), dims);
    assert_eq!(m.window_area(), Dimensions::new(1920, 20, 1280, 1004));
    assert_eq!(m.workspace(1).unwrap().window_area(), Dimensions::new(1920, 20, 1280, 1004));
    assert_eq!(m.config().name(), "HDMI-1");
}

#[test]
fn position_finds_first_occurrence() {
    assert_eq!(position(&vec![4, 5, 6], 5), Some(1));
    assert_eq!(position(&vec![4, 5, 6], 7), None);
    assert_eq!(position(&vec![], 7), None);
}

#[test]
fn monitor_switch_and_back_without_pinned() {
    let mut m = monitor(true, 0);
    m.attach_client(1);
    m.attach_client(2);
    m.move_to_workspace(3, 2);
    let table = vec![];
    let before: Vec<Vec<u64>> = (0..m.workspace_count()).map(|i| m.workspace(i).unwrap().clients().clone()).collect();
    m.switch_workspace(2, &table).unwrap();
    m.switch_workspace(0, &table).unwrap();
    let after: Vec<Vec<u64>> = (0..m.workspace_count()).map(|i| m.workspace(i).unwrap().clients().clone()).collect();
    assert_eq!(after, before);
    assert_eq!(m.current_workspace_index(), 0);
    assert_eq!(m.prev_workspace_index(), 2);
}

#[test]
fn monitor_raise_on_shown_workspace() {
    let mut m = monitor(true, 0);
    m.attach_client(1);
    m.attach_client(2);
    m.raise_current(1);
    assert_eq!(m.current_workspace().clients_stack(), &vec![1, 2]);
    assert_eq!(m.current_workspace().clients(), &vec![2, 1]);
    m.raise_current(9);
    assert_eq!(m.current_workspace().clients_stack(), &vec![1, 2]);
}
