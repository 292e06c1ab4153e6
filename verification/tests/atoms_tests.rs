use marswm::atoms::{str_eq, X11Atom, ATOM_COUNT};
use marswm::error::{MarsError, MarsErrorKind};

#[test]
fn atom_names() {
    assert_eq!(X11Atom::UTF8String.name(), "UTF8_STRING");
    assert_eq!(X11Atom::NetWMStateFullscreen.name(), "_NET_WM_STATE_FULLSCREEN");
    assert_eq!(X11Atom::MarsStatus.to_string(), "_MARS_STATUS");
    assert_eq!(X11Atom::NetSupportingWMCheck.name(), "_NET_SUPPORTING_WM_CHECK");
}

#[test]
fn atom_values_are_distinct_and_complete() {
    let values = X11Atom::values();
    assert_eq!(values.len(), ATOM_COUNT);
    assert_eq!(ATOM_COUNT, 38);
    for (i, a) in values.iter().enumerate() {
        for (j, b) in values.iter().enumerate() {
            if i != j {
                assert_ne!(a.name(), b.name());
            }
        }
        assert_eq!(X11Atom::at(i), Some(*a));
    }
    assert_eq!(X11Atom::at(values.len()), None);
}

#[test]
fn atom_from_name_roundtrip() {
    for a in X11Atom::values() {
        assert_eq!(X11Atom::from_name(a.name()), Some(a));
    }
}

#[test]
fn atom_from_unknown_name() {
    assert_eq!(X11Atom::from_name("_NET_NOT_AN_ATOM"), None);
    assert_eq!(X11Atom::from_name(""), None);
    assert_eq!(X11Atom::from_name("wm_name"), None);
}

#[test]
fn str_eq_compares_text() {
    assert!(str_eq("WM_NAME", "WM_NAME"));
    assert!(!str_eq("WM_NAME", "WM_NAMES"));
    assert!(!str_eq("", "a"));
}

#[test]
fn unsupported_atom_error() {
    let e = MarsError::x11_unsupported_atom(X11Atom::NetWMWindowTypeDock);
    assert_eq!(e.kind, MarsErrorKind::UnsupportedProtocol);
    assert_eq!(e.info.unwrap(), "_NET_WM_WINDOW_TYPE_DOCK");
}
