use marswm::config::{Configuration, ThemingConfiguration};
use marswm::error::{MarsError, MarsErrorKind};
use marswm::geometry::{Dimensioned, Dimensions, MonitorConfig};
use marswm::numbers::{decimal_string, hex_string};

#[test]
fn dimensions_edges_and_center() {
    let d = Dimensions::new(10, 20, 100, 50);
    assert_eq!(d.as_tuple(), (10, 20, 100, 50));
    assert_eq!(d.right(), 110);
    assert_eq!(d.bottom(), 70);
    assert_eq!(d.center(), (60, 45));
    assert_eq!(d.pos(), (10, 20));
    assert_eq!(d.size(), (100, 50));
}

#[test]
fn dimensions_center_rounds_towards_origin() {
    let d = Dimensions::new(0, 0, 5, 3);
    assert_eq!(d.center(), (2, 1));
}

#[test]
fn dimensions_contains_point_edges() {
    let d = Dimensions::new(10, 20, 100, 50);
    assert!(d.contains_point((10, 20)));
    assert!(d.contains_point((109, 69)));
    assert!(!d.contains_point((110, 20)));
    assert!(!d.contains_point((10, 70)));
    assert!(!d.contains_point((9, 30)));
}

#[test]
fn dimensions_setters() {
    let mut d = Dimensions::new(0, 0, 1, 1);
    d.set_pos((-5, 7));
    d.set_size((30, 40));
    assert_eq!(d, Dimensions::new(-5, 7, 30, 40));
    d.set_x(1);
    d.set_y(2);
    d.set_w(3);
    d.set_h(4);
    assert_eq!(d.dimensions(), Dimensions::new(1, 2, 3, 4));
}

#[test]
fn monitor_config_insets_and_removal() {
    let dims = Dimensions::new(0, 0, 1920, 1080);
    let mut m = MonitorConfig::new("eDP-1".to_string(), dims, dims);
    m.add_inset_top(30);
    assert_eq!(m.window_area(), Dimensions::new(0, 30, 1920, 1050));
    m.add_inset_bottom(20);
    assert_eq!(m.window_area(), Dimensions::new(0, 30, 1920, 1030));
    assert_eq!(m.dimensions(), dims);
    assert_eq!(m.name(), "eDP-1");
    m.remove_insets();
    assert_eq!(m.window_area(), dims);
}

#[test]
fn monitor_config_inset_larger_than_area_keeps_height() {
    let dims = Dimensions::new(0, 0, 100, 10);
    let mut m = MonitorConfig::new("x".to_string(), dims, dims);
    m.add_inset_bottom(20);
    assert_eq!(m.window_area().h, 10);
}

#[test]
fn monitor_config_contains_point() {
    let m = MonitorConfig::new("HDMI".to_string(), Dimensions::new(1920, 0, 1280, 1024), Dimensions::new(1920, 0, 1280, 1024));
    assert!(m.contains_point((1920, 0)));
    assert!(!m.contains_point((1919, 0)));
}

#[test]
fn hex_string_values() {
    assert_eq!(hex_string(0), "0");
    assert_eq!(hex_string(255), "ff");
    assert_eq!(hex_string(0xae0c0c), "ae0c0c");
    assert_eq!(hex_string(u64::MAX), "ffffffffffffffff");
}

#[test]
fn decimal_string_values() {
    assert_eq!(decimal_string(0), "0");
    assert_eq!(decimal_string(7), "7");
    assert_eq!(decimal_string(1234567890), "1234567890");
    assert_eq!(decimal_string(u64::MAX), "18446744073709551615");
}

#[test]
fn error_kind_texts() {
    assert_eq!(MarsErrorKind::ConnectionFailed.to_string(), "Connection failed");
    assert_eq!(MarsErrorKind::WMAlreadyRunning.to_string(), "Another WM is already running");
    assert_eq!(MarsErrorKind::PropertyUnavailable.to_string(), "Property not available");
}

#[test]
fn error_constructors_and_messages() {
    let e = MarsError::failed_request("XGetWindowProperty");
    assert_eq!(e.kind, MarsErrorKind::FailedRequest);
    assert_eq!(e.to_string(), "Failed request (XGetWindowProperty failed)");
    let e = MarsError::wm_already_running();
    assert_eq!(e.kind, MarsErrorKind::WMAlreadyRunning);
    assert!(e.info.is_none());
    assert_eq!(e.to_string(), "Another WM is already running");
    let e = MarsError::failed_conversion("-1", "i64", "u32");
    assert_eq!(e.kind, MarsErrorKind::IllegalValue);
    let e = MarsError::unknown("boom");
    assert_eq!(e.kind, MarsErrorKind::Unknown);
    let e = MarsError::invalid_input("bad");
    assert_eq!(e.kind, MarsErrorKind::InvalidInput);
    let e = MarsError::property_unavailable("WM_NAME");
    assert_eq!(e.kind, MarsErrorKind::PropertyUnavailable);
    let e = MarsError::x11_open_display();
    assert_eq!(e.kind, MarsErrorKind::ConnectionFailed);
    assert_eq!(e.to_string(), "Connection failed (XOpenDisplay)");
    let e = MarsError::failed_conversion("-1", "i64", "u32");
    assert_eq!(e.info.unwrap(), "unable to convert -1 from i64 to u32");
    let e = MarsError::invalid_response("GetGeometry");
    assert_eq!(e.info.unwrap(), "invalid response value to request 'GetGeometry'");
}

#[test]
fn default_configuration() {
    let c = Configuration::default();
    assert_eq!(c.primary_workspaces, 8);
    assert_eq!(c.secondary_workspaces, 2);
    assert_eq!(c.layout.gap_width, 4);
    assert_eq!(c.layout.nmain, 1);
    let t = ThemingConfiguration::default();
    assert_eq!(t.primary_color, 0xae0c0c);
    assert_eq!(t.frame_width, 4);
    assert_eq!(c.theming, t);
}
