use marswm::barstyle::{BarConfiguration, BarStyle, ContainerWidgetStyle, TextWidgetStyle};
use marswm::tray::{SystemTrayWidget, SYSTEM_TRAY_REQUEST_DOCK};
use marswm::widget::{
    clamp_u32, distribute_widget_event, row_size, text_fits_check, text_size_for, widget_event, FlowLayoutWidget, TextWidget, Widget, WidgetEvent,
    XEventKind,
};

fn text(window: u64, label: &str, size: Option<(u32, u32)>) -> TextWidget {
    TextWidget::new(window, 0, 0, 5, 2, label.to_string(), 0xffffff, 0x000000, size)
}

#[test]
fn widget_events() {
    assert_eq!(widget_event(XEventKind::ButtonPress(3)), Some(WidgetEvent::ButtonPressed(3)));
    assert_eq!(widget_event(XEventKind::Expose), None);
    assert_eq!(widget_event(XEventKind::Other), None);
}

#[test]
fn clamp_values() {
    assert_eq!(clamp_u32(5, 10, 20), 10);
    assert_eq!(clamp_u32(15, 10, 20), 15);
    assert_eq!(clamp_u32(25, 10, 20), 20);
    assert_eq!(clamp_u32(5, 30, 20), 20);
}

#[test]
fn text_widget_sizes() {
    let t = text(1, "abc", Some((30, 12)));
    assert_eq!(t.size(), (40, 16));
    assert_eq!(t.label(), "abc");
    assert_eq!(t.colors(), (0xffffff, 0));
    assert_eq!(t.content_size(), (30, 12));
    assert_eq!(t.text_position(), (5, 2, 12));
    let unmeasured = text(2, "x", None);
    assert_eq!(unmeasured.size(), (10, 10));
    assert_eq!(unmeasured.content_size(), (10, 10));
    assert_eq!(unmeasured.text_position(), (5, 2, 6));
    let tiny = text(3, "", Some((0, 0)));
    assert_eq!(tiny.size(), (10, 10));
}

#[test]
fn text_widget_changes() {
    let mut t = text(1, "abc", Some((30, 12)));
    t.set_label("a longer label".to_string(), Some((100, 12)));
    assert_eq!(t.size(), (110, 16));
    assert_eq!(t.label(), "a longer label");
    t.set_min_size((50, 20));
    assert_eq!(t.size(), (110, 20));
    t.set_max_size((60, 100));
    assert_eq!(t.size(), (60, 20));
    assert_eq!(t.text_position(), (0, 2, 16));
    t.set_foreground(1);
    t.set_background(2);
    assert_eq!(t.colors(), (1, 2));
    t.move_to(7, 8);
    assert_eq!(t.pos(), (7, 8));
    assert_eq!(t.size(), (60, 20));
    assert_eq!(t.wid(), 1);
}

#[test]
fn text_widget_routes_its_window() {
    let t = text(1, "a", None);
    assert_eq!(t.handle_xevent(1), Some(1));
    assert_eq!(t.handle_xevent(2), None);
    let widgets = vec![text(1, "a", None), text(2, "b", None)];
    assert_eq!(distribute_widget_event(&widgets, 2), Some(2));
    assert_eq!(distribute_widget_event(&widgets, 3), None);
}

#[test]
fn flow_layout_arranges_row() {
    let children = vec![text(1, "a", Some((30, 12))), text(2, "b", Some((10, 8)))];
    let f = FlowLayoutWidget::new(100, 0, 0, 4, 2, 3, children);
    assert_eq!(f.count_children(), 2);
    assert_eq!(f.size(), (71, 20));
    assert_eq!(f.child(0).unwrap().pos(), (4, 2));
    assert_eq!(f.child(1).unwrap().pos(), (47, 4));
    assert!(f.child(2).is_none());
    assert_eq!(f.handle_xevent(2), Some(2));
    assert_eq!(f.handle_xevent(100), Some(100));
    assert_eq!(f.handle_xevent(7), None);
}

#[test]
fn flow_layout_changes() {
    let mut f = FlowLayoutWidget::new(100, 0, 0, 4, 2, 3, vec![text(1, "a", Some((30, 12)))]);
    assert_eq!(f.size(), (48, 20));
    f.push(text(2, "b", Some((10, 8))));
    assert_eq!(f.size(), (71, 20));
    assert_eq!(f.children()[1].pos(), (47, 4));
    f.child_mut(0).set_label("ab".to_string(), Some((50, 12)));
    f.rearrange();
    assert_eq!(f.size(), (91, 20));
    assert_eq!(f.children()[1].pos(), (67, 4));
    f.remove(0);
    f.rearrange();
    assert_eq!(f.size(), (28, 16));
    f.append_child(text(3, "c", Some((10, 8))));
    f.append_child(text(4, "d", Some((10, 8))));
    assert_eq!(f.count_children(), 3);
    f.truncate_children(1);
    assert_eq!(f.count_children(), 1);
    f.truncate_children(5);
    assert_eq!(f.count_children(), 1);
}

#[test]
fn empty_flow_layout_has_smallest_size() {
    let f: FlowLayoutWidget<TextWidget> = FlowLayoutWidget::new(1, 0, 0, 0, 0, 0, vec![]);
    assert_eq!(f.size(), (10, 10));
}

#[test]
fn tray_rejects_padding_larger_than_height() {
    match SystemTrayWidget::new(1, 0, 0, 10, 2, 2, 6, 0) {
        Err(msg) => assert_eq!(msg, "Padding bigger than height (h: 10, vpad: 6)"),
        Ok(_) => panic!("tray accepted a padding larger than its height"),
    }
}

#[test]
fn tray_docks_and_removes_icons() {
    let mut t = SystemTrayWidget::new(9, 0, 0, 24, 4, 4, 2, 0).unwrap();
    assert!(t.is_empty());
    assert_eq!(t.handle_systray_event(8, SYSTEM_TRAY_REQUEST_DOCK, 50), None);
    assert_eq!(t.handle_systray_event(9, 1, 50), None);
    assert_eq!(t.handle_systray_event(9, SYSTEM_TRAY_REQUEST_DOCK, 50), Some((50, 4, 2)));
    assert_eq!(t.handle_systray_event(9, SYSTEM_TRAY_REQUEST_DOCK, 51), Some((51, 28, 2)));
    assert_eq!(t.icons(), &vec![50, 51]);
    assert_eq!(t.size(), (52, 24));
    assert!(t.handle_icon_destroyed(8, 50).is_empty());
    let moves = t.handle_icon_destroyed(9, 50);
    assert_eq!(moves, vec![(51, 4, 2)]);
    assert_eq!(t.icons(), &vec![51]);
    assert_eq!(t.size(), (28, 24));
    assert_eq!(t.handle_xevent(9), Some(9));
}

#[test]
fn style_defaults() {
    let s = BarStyle::default();
    assert_eq!(s.height, 31);
    assert_eq!(s.font, "serif");
    assert_eq!(s.workspaces, ContainerWidgetStyle::default_workspaces());
    assert_eq!(s.status, ContainerWidgetStyle::default_status());
    assert_eq!(ContainerWidgetStyle::default_status().spacing, 4);
    assert_eq!(ContainerWidgetStyle::default_workspaces().text_padding_horz, 10);
    let c = BarConfiguration::default();
    assert!(c.status_cmd.is_none() && c.action_cmd.is_none());
    assert_eq!(TextWidgetStyle::default().foreground, 0xbcbcbc);
}

#[test]
fn style_creates_widgets() {
    let style = ContainerWidgetStyle::default_status();
    let t = style.create_text_widget(5, Some((20, 10)));
    assert_eq!(t.size(), (30, 10));
    assert_eq!(t.colors(), (style.foreground, style.inner_background));
    let f: FlowLayoutWidget<TextWidget> = style.create_flow_layout_widget(6);
    assert_eq!(f.count_children(), 0);
    let tray = style.create_systray_widget(7, 31).unwrap();
    assert_eq!(tray.size(), (23, 23));
    assert!(ContainerWidgetStyle::default_status().create_systray_widget(7, 15).is_err());
    let title = TextWidgetStyle::default().create_text_widget(8, None);
    assert_eq!(title.label(), "");
}

#[test]
fn tray_dock_then_icon_gone_restores_icons() {
    let mut t = SystemTrayWidget::new(9, 0, 0, 24, 4, 4, 2, 0).unwrap();
    t.handle_systray_event(9, SYSTEM_TRAY_REQUEST_DOCK, 60);
    let before = t.icons().clone();
    t.handle_systray_event(9, SYSTEM_TRAY_REQUEST_DOCK, 61);
    t.handle_icon_destroyed(9, 61);
    assert_eq!(t.icons(), &before);
}

#[test]
fn widget_size_checks() {
    assert!(text_fits_check(Some((10, 10)), 5, 2));
    assert!(text_fits_check(None, u32::MAX, u32::MAX));
    assert!(!text_fits_check(Some((u32::MAX, 10)), 1, 0));
    assert!(!text_fits_check(Some((10, i32::MAX as u32)), 0, 1));
    assert_eq!(text_size_for(Some((20, 10)), 5, 2, (10, 10), (100, 100), (1, 1)), (30, 14));
    assert_eq!(text_size_for(Some((200, 10)), 5, 2, (10, 10), (100, 100), (1, 1)), (100, 14));
    assert_eq!(text_size_for(None, 5, 2, (10, 10), (100, 100), (7, 8)), (7, 8));
    assert_eq!(row_size(&vec![(10, 5), (20, 8)], 4, 2, 3, (0, 0), (1000, 1000)), Some((41, 12)));
    assert_eq!(row_size(&vec![], 4, 2, 3, (10, 10), (1000, 1000)), Some((10, 10)));
    assert_eq!(row_size(&vec![(i32::MAX as u32, 5)], 1, 2, 0, (0, 0), (u32::MAX, u32::MAX)), None);
    assert_eq!(row_size(&vec![(1, i32::MAX as u32)], 1, 1, 0, (0, 0), (u32::MAX, u32::MAX)), None);
    let t = text(1, "a", Some((20, 10)));
    assert_eq!(t.layout_params(), (5, 2, (10, 10), (u32::MAX, u32::MAX), (30, 14)));
    assert!(t.text_position_fits());
    let row = FlowLayoutWidget::new(9, 0, 0, 4, 2, 3, vec![text(1, "a", Some((20, 10))), text(2, "b", Some((6, 12)))]);
    assert_eq!(row.child_size_list(), vec![(30, 14), (16, 16)]);
    assert_eq!(row.layout_params(), (4, 2, 3, (10, 10), (u32::MAX, u32::MAX)));
}

#[test]
fn tray_size_checks() {
    let tray = SystemTrayWidget::new(5, 0, 0, 20, 2, 3, 1, 0).unwrap();
    assert!(tray.can_dock());
    assert_eq!(tray.size_with_max((100, 100)), (10, 20));
    assert_eq!(tray.size_with_max((5, 10)), (5, 10));
    let wide = SystemTrayWidget::new(5, 0, 0, 20, 0, 0x3fff_ffff, 1, 0).unwrap();
    assert!(!wide.can_dock());
}
