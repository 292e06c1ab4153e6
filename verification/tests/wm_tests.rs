use marswm::client::{Attributes, ClientFlags, X11Client};
use marswm::geometry::Dimensioned;
use marswm::layouts::LayoutType;
use marswm::config::Configuration;
use marswm::geometry::{Dimensions, MonitorConfig};
use marswm::wm::{
    current_monitor_index, cycle_client_index, cycle_monitor_index, cycle_workspace_index, dragged_position,
    dragged_size, drop_target, fix_client_to_area, monitor_switch, point_to_monitor, relative_workspace_idx,
    resized_centered, workspace_offset, AreaFix,
};
use marswm::wm::{existing_windows_order, workarea_values, ExistingWindow};
use marswm::wmstate::{FocusChange, WmState};

fn mon(name: &str, x: i32, w: u32, h: u32) -> MonitorConfig {
    let d = Dimensions::new(x, 0, w, h);
    MonitorConfig::new(name.to_string(), d, d)
}

fn two_monitors() -> WmState {
    let mut s = WmState::new(Configuration::default());
    s.update_monitor_config(vec![mon("DP-1", 0, 1920, 1080), mon("DP-2", 1920, 1280, 1024)]);
    s
}

fn no_flags() -> Vec<ClientFlags> {
    Vec::new()
}

#[test]
fn relative_workspace_indices() {
    let c = Configuration::default();
    assert_eq!(relative_workspace_idx(&c, 0), (0, 0));
    assert_eq!(relative_workspace_idx(&c, 7), (0, 7));
    assert_eq!(relative_workspace_idx(&c, 8), (1, 0));
    assert_eq!(relative_workspace_idx(&c, 9), (1, 1));
    assert_eq!(relative_workspace_idx(&c, 12), (3, 0));
    assert_eq!(workspace_offset(&c, 0), 0);
    assert_eq!(workspace_offset(&c, 1), 8);
    assert_eq!(workspace_offset(&c, 3), 12);
}

#[test]
fn relative_workspace_roundtrip_on_values() {
    let c = Configuration::default();
    for mon in 0..4usize {
        let count = if mon == 0 { c.primary_workspaces } else { c.secondary_workspaces };
        for rel in 0..count {
            let global = workspace_offset(&c, mon) + rel;
            assert_eq!(relative_workspace_idx(&c, global), (mon, rel));
        }
    }
}

#[test]
fn fix_to_area_cases() {
    let area = Dimensions::new(0, 0, 1000, 800);
    assert_eq!(fix_client_to_area(Dimensions::new(10, 10, 100, 100), area), AreaFix::Keep);
    assert_eq!(
        fix_client_to_area(Dimensions::new(920, -20, 100, 100), area),
        AreaFix::Move(Dimensions::new(900, 0, 100, 100))
    );
    assert_eq!(fix_client_to_area(Dimensions::new(990, 10, 100, 100), area), AreaFix::Center);
    assert_eq!(
        fix_client_to_area(Dimensions::new(-30, 650, 100, 200), area),
        AreaFix::Move(Dimensions::new(0, 600, 100, 200))
    );
}

#[test]
fn monitor_lookup_by_point() {
    let monitors = vec![Dimensions::new(0, 0, 1920, 1080), Dimensions::new(1920, 0, 1280, 1024)];
    assert_eq!(point_to_monitor(&monitors, (100, 100)), Some(0));
    assert_eq!(point_to_monitor(&monitors, (1920, 1000)), Some(1));
    assert_eq!(point_to_monitor(&monitors, (1920, 1050)), None);
    assert_eq!(current_monitor_index(&monitors, (2000, 10)), 1);
    assert_eq!(current_monitor_index(&monitors, (-5, 10)), 0);
    assert_eq!(monitor_switch(Some(0), Some(1)), Some(1));
    assert_eq!(monitor_switch(Some(1), Some(1)), None);
    assert_eq!(monitor_switch(None, Some(1)), None);
}

#[test]
fn cycling_indices_wrap() {
    assert_eq!(cycle_client_index(0, 3, -1), 2);
    assert_eq!(cycle_client_index(2, 3, 1), 0);
    assert_eq!(cycle_monitor_index(1, 2, 1), 0);
    assert_eq!(cycle_monitor_index(0, 3, 1), 1);
    assert_eq!(cycle_workspace_index(8, 1, 2, 1), 8);
    assert_eq!(cycle_workspace_index(0, 3, 8, 2), 5);
}

#[test]
fn dragging_and_resizing() {
    assert_eq!(dragged_position((100, 100), (-30, 50)), (70, 150));
    assert_eq!(dragged_size((200, 100), (10, -80)), (210, 40));
    assert_eq!(resized_centered((100, 100), (200, 100), (10, 5)), (90, 95, 220, 110));
    assert_eq!(resized_centered((100, 100), (200, 100), (-100, 0)).2, 40);
}

#[test]
fn drop_target_skips_dragged_client() {
    let tiled = vec![(1, Dimensions::new(0, 0, 500, 800)), (2, Dimensions::new(500, 0, 500, 800))];
    assert_eq!(drop_target(&tiled, 1, (100, 100)), None);
    assert_eq!(drop_target(&tiled, 1, (600, 100)), Some(1));
    assert_eq!(drop_target(&tiled, 2, (100, 100)), Some(0));
    assert_eq!(drop_target(&tiled, 2, (2000, 100)), None);
}

#[test]
fn wm_monitors_from_config() {
    let s = two_monitors();
    assert_eq!(s.monitor_count(), 2);
    assert_eq!(s.monitor(0).unwrap().workspace_count(), 8);
    assert_eq!(s.monitor(1).unwrap().workspace_count(), 2);
    assert_eq!(s.monitor(1).unwrap().workspace_offset(), 8);
    assert!(s.monitor(2).is_none());
    let info = s.workspace_info();
    assert_eq!(info.len(), 10);
    assert_eq!(info[0].0, "1");
    assert_eq!(info[8].0, "DP-2:1");
    assert_eq!(info[9].1, Dimensions::new(1920, 0, 1280, 1024));
}

#[test]
fn wm_manage_places_clients() {
    let mut s = two_monitors();
    assert_eq!(s.manage(10, 0, None, 0), 0);
    assert_eq!(s.manage(11, 9, None, 0), 1);
    assert_eq!(s.manage(12, 20, Some(1), 0), 1);
    assert_eq!(s.manage(13, 20, Some(5), 0), 0);
    assert_eq!(s.clients(), &vec![10, 11, 12, 13]);
    assert_eq!(s.get_monitor(11), Some(1));
    assert_eq!(s.get_workspace(11), Some((1, 1)));
    assert_eq!(s.get_workspace(12), Some((1, 0)));
    assert_eq!(s.get_workspace(99), None);
    assert_eq!(s.clients_stacked(), vec![13, 10, 12, 11]);
}

#[test]
fn wm_manage_then_unmanage_restores() {
    let mut s = two_monitors();
    s.manage(10, 0, None, 0);
    let before_clients = s.clients().clone();
    let before_stacked = s.clients_stacked();
    let before_info = s.workspace_info();
    s.manage(11, 9, None, 0);
    assert!(!s.unmanage(11));
    assert_eq!(s.clients(), &before_clients);
    assert_eq!(s.clients_stacked(), before_stacked);
    assert_eq!(s.workspace_info(), before_info);
    assert_eq!(s.get_monitor(11), None);
}

#[test]
fn wm_focus_changes() {
    let mut s = two_monitors();
    s.manage(10, 0, None, 0);
    assert_eq!(s.focus_client(Some(10)), FocusChange::Focus { client: 10, previous: None });
    assert_eq!(s.focus_client(Some(10)), FocusChange::Unchanged);
    assert_eq!(s.active_client(), Some(10));
    assert!(s.unmanage(10));
    assert_eq!(s.active_client(), None);
    assert_eq!(s.focus_client(None), FocusChange::Unchanged);
    s.manage(11, 0, None, 0);
    s.focus_client(Some(11));
    assert_eq!(s.focus_client(None), FocusChange::Clear);
}

#[test]
fn wm_switch_and_move_workspaces() {
    let mut s = two_monitors();
    s.manage(10, 0, None, 0);
    assert_eq!(s.move_to_workspace(10, 3), Some(true));
    assert_eq!(s.get_workspace(10), Some((0, 3)));
    assert_eq!(s.move_to_workspace(99, 3), None);
    assert_eq!(s.move_to_workspace(10, 30), None);
    let flags = no_flags();
    assert!(s.switch_workspace(0, 0, &flags).is_none());
    let sw = s.switch_workspace(3, 0, &flags).unwrap();
    assert_eq!(sw.monitor, 0);
    assert!(!sw.warp);
    assert!(sw.switch.is_some());
    assert_eq!(sw.shown, vec![10]);
    assert_eq!(sw.focus, FocusChange::Focus { client: 10, previous: None });
    assert_eq!(s.active_workspace(0), 3);
    let sw = s.switch_workspace(8, 0, &flags).unwrap();
    assert_eq!(sw.monitor, 1);
    assert!(sw.warp);
    assert!(sw.switch.is_none());
    assert!(sw.shown.is_empty());
    assert_eq!(sw.focus, FocusChange::Clear);
}

#[test]
fn wm_client_moves_between_monitors() {
    let mut s = two_monitors();
    s.manage(10, 0, None, 0);
    assert_eq!(s.move_client_to_monitor(10, 1), Some(1));
    assert_eq!(s.get_monitor(10), Some(1));
    assert_eq!(s.move_client_to_monitor(10, 1), Some(0));
    assert_eq!(s.move_client_to_monitor(99, 1), None);
    s.client_switches_monitor(10, 1);
    assert_eq!(s.get_workspace(10), Some((1, 0)));
}

#[test]
fn wm_tiling_queries() {
    let mut s = two_monitors();
    s.manage(10, 0, None, 0);
    s.manage(11, 0, None, 0);
    let table = vec![ClientFlags { id: 11, is_floating: true, is_dialog: false, is_fullscreen: false, is_pinned: false }];
    assert!(s.is_tiled(10, &table));
    assert!(!s.is_tiled(11, &table));
    assert!(!s.is_tiled(12, &table));
    assert_eq!(s.main_switch_target(0, &table), None);
    s.focus_client(Some(11));
    assert_eq!(s.main_switch_target(0, &table), Some(10));
    s.focus_client(Some(10));
    assert_eq!(s.main_switch_target(0, &table), Some(11));
}

#[test]
fn wm_fewer_monitors_keep_clients() {
    let mut s = two_monitors();
    s.manage(10, 0, None, 0);
    s.manage(11, 9, None, 0);
    s.update_monitor_config(vec![mon("DP-1", 0, 1920, 1080)]);
    assert_eq!(s.monitor_count(), 1);
    assert_eq!(s.get_monitor(11), Some(0));
    assert_eq!(s.get_monitor(10), Some(0));
    assert_eq!(s.clients(), &vec![10, 11]);
    assert_eq!(s.get_workspace(11), Some((0, 0)));
    assert_eq!(s.get_workspace(10), Some((0, 0)));
    s.update_monitor_config(vec![]);
    assert_eq!(s.monitor_count(), 1);
}

#[test]
fn wm_fewer_monitors_move_clients_to_shown_workspace() {
    let mut s = two_monitors();
    s.manage(10, 3, None, 0);
    s.manage(11, 9, None, 0);
    s.switch_workspace(2, 0, &no_flags());
    s.update_monitor_config(vec![mon("DP-1", 0, 1920, 1080)]);
    assert_eq!(s.get_workspace(10), Some((0, 3)));
    assert_eq!(s.get_workspace(11), Some((0, 2)));
}

fn frame_client(frame: u64, x: i32, y: i32, w: u32, h: u32, dialog: bool) -> X11Client<Attributes> {
    X11Client::new(None, 1, frame + 1000, frame, Dimensions::new(x, y, w, h), dialog, Attributes::default())
}

#[test]
fn wm_requests_of_floating_clients() {
    let mut s = two_monitors();
    s.manage(10, 0, None, 0);
    let mut c = frame_client(10, 100, 100, 200, 100, false);
    // the default layout floats
    assert!(s.is_floating(&c));
    assert!(s.move_request(&mut c, 5, 6));
    assert_eq!(c.pos(), (5, 6));
    assert!(s.resize_request(&mut c, 300, 30));
    assert_eq!(c.dimensions(), Dimensions::new(5, 6, 300, 40));
    assert!(s.center_client(&mut c));
    assert_eq!(c.pos(), (810, 520));
    assert_eq!(s.client_area(10), Some(Dimensions::new(0, 0, 1920, 1080)));
    assert_eq!(s.client_area(99), None);
}

#[test]
fn wm_requests_of_tiled_clients() {
    let mut s = two_monitors();
    s.manage(10, 0, None, 0);
    s.monitor_mut(0).current_workspace_mut().set_layout(LayoutType::Stack);
    let mut c = frame_client(10, 100, 100, 200, 100, false);
    assert!(!s.is_floating(&c));
    assert!(!s.move_request(&mut c, 5, 6));
    assert_eq!(c.pos(), (100, 100));
    assert!(!s.resize_request(&mut c, 300, 300));
    assert!(!s.center_client(&mut c));
    assert_eq!(s.tile_client(&mut c, false), Some(true));
    assert!(c.attributes().is_floating);
    assert_eq!(s.tile_client(&mut c, false), Some(false));
    assert_eq!(s.tile_client(&mut c, true), Some(true));
    assert!(!c.attributes().is_floating);
    let mut stranger = frame_client(77, 0, 0, 100, 100, false);
    assert_eq!(s.tile_client(&mut stranger, false), None);
}

#[test]
fn wm_dialog_resize_recenters() {
    let mut s = two_monitors();
    s.manage(10, 0, None, 0);
    s.monitor_mut(0).current_workspace_mut().set_layout(LayoutType::Stack);
    let mut d = frame_client(10, 860, 490, 200, 100, true);
    assert!(s.resize_request(&mut d, 400, 200));
    assert_eq!(d.dimensions(), Dimensions::new(760, 440, 400, 200));
}

#[test]
fn wm_fullscreen_client_uses_its_monitor() {
    let mut s = two_monitors();
    s.manage(11, 9, None, 0);
    let mut c = frame_client(11, 2000, 100, 300, 200, false);
    assert!(s.fullscreen_client(&mut c, true));
    assert_eq!(c.dimensions(), Dimensions::new(1920, 0, 1280, 1024));
    assert!(s.fullscreen_client(&mut c, false));
    assert_eq!(c.dimensions(), Dimensions::new(2000, 100, 300, 200));
    let mut stranger = frame_client(77, 0, 0, 100, 100, false);
    assert!(!s.fullscreen_client(&mut stranger, true));
    assert!(!stranger.is_fullscreen());
}

#[test]
fn wm_cycle_and_switch_to_main() {
    let mut s = two_monitors();
    s.manage(10, 0, None, 0);
    s.manage(11, 0, None, 0);
    s.manage(12, 0, None, 0);
    let table = no_flags();
    assert_eq!(s.cycle_client(0, &table, 1), None);
    s.focus_client(Some(12));
    assert_eq!(s.cycle_client(0, &table, 1), Some(11));
    assert_eq!(s.monitor(0).unwrap().current_workspace().clients_stack()[0], 11);
    assert_eq!(s.cycle_client(0, &table, -1), Some(10));
    assert_eq!(s.monitor(0).unwrap().current_workspace().clients_stack(), &vec![10, 11, 12]);
    s.monitor_mut(0).current_workspace_mut().raise_client(11);
    assert_eq!(s.switch_to_main(0, &table), Some(11));
    assert_eq!(s.monitor(0).unwrap().current_workspace().clients_stack(), &vec![11, 10, 12]);
    let floating = vec![ClientFlags { id: 12, is_floating: true, is_dialog: false, is_fullscreen: false, is_pinned: false }];
    assert_eq!(s.cycle_client(0, &floating, 1), None);
}

#[test]
fn existing_windows_non_transient_first() {
    let w = |window: u64, viewable: bool, transient: bool| ExistingWindow { window, viewable, transient };
    let found = vec![w(1, true, true), w(2, true, false), w(3, false, false), w(4, true, false), w(5, false, true), w(6, true, true)];
    assert_eq!(existing_windows_order(&found), vec![2, 4, 1, 6]);
    assert_eq!(existing_windows_order(&vec![]), Vec::<u64>::new());
    assert_eq!(existing_windows_order(&vec![w(7, false, false)]), Vec::<u64>::new());
}

#[test]
fn workarea_values_four_per_workspace() {
    let areas = vec![Dimensions::new(0, 20, 1920, 1060), Dimensions::new(-5, 0, 800, 600)];
    assert_eq!(workarea_values(&areas), vec![0, 20, 1920, 1060, (-5i32) as u32, 0, 800, 600]);
    assert!(workarea_values(&vec![]).is_empty());
}

#[test]
fn cycle_client_forward_then_back() {
    for n in 1..5usize {
        for i in 0..n {
            let fwd = cycle_client_index(i, n, 1);
            assert!(fwd < n);
            assert_eq!(cycle_client_index(fwd, n, -1), i);
        }
    }
    assert_eq!(cycle_client_index(2, 3, 1), 0);
}

#[test]
fn wm_range_checks() {
    let mut s = two_monitors();
    s.manage(10, 0, None, 0);
    let c = frame_client(10, 100, 100, 200, 100, false);
    assert!(s.fits_on_monitors(200, 100));
    assert!(s.fits_on_workspaces(200, 100));
    assert!(s.resize_fits(&c, 300, 300));
    let mut far = WmState::new(Configuration::default());
    let edge = Dimensions::new(i32::MAX - 10, 0, 40, 40);
    far.update_monitor_config(vec![MonitorConfig::new("far".to_string(), edge, edge)]);
    assert!(!far.fits_on_monitors(200, 100));
    assert!(!far.fits_on_workspaces(200, 100));
    assert!(!far.resize_fits(&c, 300, 300));
}
