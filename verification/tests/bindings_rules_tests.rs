use marswm::bindings::{
    handle_button, handle_key,
    fold_modifiers, sanitize_modifiers, ButtonBinding, ButtonTarget, KeyBinding, Modifier, CONTROL_MASK, LOCK_MASK,
    MOD1_MASK, MOD2_MASK, MOD4_MASK, SHIFT_MASK,
};
use marswm::rules::{apply_window_rules, Identifiers, Rule, WindowPlacement};
use marswm::geometry::Dimensions;

#[test]
fn modifier_masks() {
    assert_eq!(Modifier::Mod1.mask(), MOD1_MASK);
    assert_eq!(Modifier::Mod4.mask(), MOD4_MASK);
    assert_eq!(Modifier::Shift.mask(), SHIFT_MASK);
    assert_eq!(Modifier::Control.mask(), CONTROL_MASK);
    assert_eq!(fold_modifiers(&vec![]), 0);
    assert_eq!(fold_modifiers(&vec![Modifier::Mod4, Modifier::Shift]), 65);
    assert_eq!(fold_modifiers(&vec![Modifier::Mod4, Modifier::Mod4]), 64);
}

#[test]
fn sanitize_drops_lock() {
    assert_eq!(sanitize_modifiers(MOD4_MASK | LOCK_MASK), MOD4_MASK);
    assert_eq!(sanitize_modifiers(MOD4_MASK | MOD2_MASK), MOD4_MASK | MOD2_MASK);
    assert_eq!(sanitize_modifiers(0x1ff), 0xfd);
    assert_eq!(sanitize_modifiers(LOCK_MASK), 0);
}

#[test]
fn key_binding_matches() {
    let b = KeyBinding::new(vec![Modifier::Mod4, Modifier::Shift], "Return", 0xff0d, 7u32);
    assert_eq!(b.modifiers(), MOD4_MASK | SHIFT_MASK);
    assert_eq!(b.key(), 0xff0d);
    assert_eq!(b.key_name(), "Return");
    assert_eq!(b.action(), 7);
    assert!(b.matches(MOD4_MASK | SHIFT_MASK, 0xff0d));
    assert!(!b.matches(MOD4_MASK, 0xff0d));
    assert!(!b.matches(MOD4_MASK | SHIFT_MASK, 0xff0e));
}

#[test]
fn button_binding_matches() {
    let b = ButtonBinding::new(vec![Modifier::Mod4], 1, vec![ButtonTarget::Window, ButtonTarget::Frame], "move");
    assert_eq!(b.button(), 1);
    assert_eq!(b.modifiers(), MOD4_MASK);
    assert_eq!(b.targets(), &vec![ButtonTarget::Window, ButtonTarget::Frame]);
    assert_eq!(b.action(), "move");
    assert!(b.matches(MOD4_MASK, 1, ButtonTarget::Frame));
    assert!(!b.matches(MOD4_MASK, 1, ButtonTarget::Root));
    assert!(!b.matches(0, 1, ButtonTarget::Window));
    assert!(!b.matches(MOD4_MASK, 3, ButtonTarget::Window));
}

fn rule(app: Option<&str>, title: Option<&str>) -> Rule<u32> {
    Rule {
        identifiers: Identifiers { application: app.map(|s| s.to_string()), title: title.map(|s| s.to_string()) },
        actions: vec![],
        ignore_window: false,
        initial_placement: None,
        floating: None,
        workspace: None,
    }
}

#[test]
fn identifiers_match_exactly() {
    let i = Identifiers { application: Some("firefox".to_string()), title: None };
    assert!(i.matches("firefox", "anything"));
    assert!(!i.matches("Firefox", "anything"));
    let r = rule(None, Some("Picture-in-Picture"));
    assert!(r.matches("firefox", "Picture-in-Picture"));
    assert!(!r.matches("firefox", "Picture"));
    assert!(rule(None, None).matches("", ""));
}

#[test]
fn rules_without_match_keep_defaults() {
    let rules = vec![rule(Some("gimp"), None)];
    let o = apply_window_rules(&rules, "st", "term", 2, 8, 0, None).unwrap();
    assert_eq!(o.workspace, 2);
    assert!(o.actions.is_empty());
    assert_eq!(o.placement, None);
    assert_eq!(o.floating, None);
    let o = apply_window_rules(&rules, "st", "term", 2, 8, 0, Some(5)).unwrap();
    assert_eq!(o.workspace, 5);
}

#[test]
fn rules_fold_in_order() {
    let mut a = rule(Some("mpv"), None);
    a.floating = Some(true);
    a.initial_placement = Some(WindowPlacement::Center);
    a.actions = vec![1];
    a.workspace = Some(1);
    let mut b = rule(None, Some("video"));
    b.initial_placement = Some(WindowPlacement::Pointer);
    b.actions = vec![2, 3];
    let rules = vec![a, b];
    let o = apply_window_rules(&rules, "mpv", "video", 0, 2, 8, None).unwrap();
    assert_eq!(o.workspace, 9);
    assert_eq!(o.floating, Some(true));
    assert_eq!(o.placement, Some(WindowPlacement::Pointer));
    assert_eq!(o.actions, vec![1, 2, 3]);
}

#[test]
fn rules_workspace_beyond_last() {
    let mut a = rule(None, None);
    a.workspace = Some(5);
    let o = apply_window_rules(&vec![a], "x", "y", 8, 2, 8, None).unwrap();
    assert_eq!(o.workspace, 1);
}

#[test]
fn rules_ignore_window() {
    let mut a = rule(Some("polybar"), None);
    a.ignore_window = true;
    let mut b = rule(None, None);
    b.workspace = Some(1);
    let rules = vec![a, b];
    assert!(apply_window_rules(&rules, "polybar", "", 0, 8, 0, None).is_none());
    assert_eq!(apply_window_rules(&rules, "st", "", 0, 8, 0, None).unwrap().workspace, 1);
}

#[test]
fn rule_getters() {
    let mut a = rule(Some("a"), None);
    a.floating = Some(false);
    a.workspace = Some(3);
    a.actions = vec![4];
    assert_eq!(a.floating(), Some(false));
    assert_eq!(a.workspace(), Some(3));
    assert_eq!(a.actions(), &vec![4]);
    assert!(!a.ignore_window());
    assert_eq!(a.initial_placement(), None);
}

#[test]
fn key_and_button_dispatch() {
    let keys = vec![
        KeyBinding::new(vec![Modifier::Mod4], "j", 0x6a, 1u32),
        KeyBinding::new(vec![Modifier::Mod4, Modifier::Shift], "j", 0x6a, 2u32),
        KeyBinding::new(vec![Modifier::Mod4], "j", 0x6a, 3u32),
    ];
    assert_eq!(handle_key(&keys, MOD4_MASK, 0x6a), vec![1, 3]);
    assert_eq!(handle_key(&keys, MOD4_MASK | SHIFT_MASK, 0x6a), vec![2]);
    assert!(handle_key(&keys, 0, 0x6a).is_empty());
    let buttons = vec![
        ButtonBinding::new(vec![], 1, vec![ButtonTarget::Frame], "move-frame"),
        ButtonBinding::new(vec![Modifier::Mod4], 1, vec![ButtonTarget::Window, ButtonTarget::Frame], "move"),
    ];
    assert_eq!(handle_button(&buttons, 0, 1, ButtonTarget::Frame), vec!["move-frame"]);
    assert_eq!(handle_button(&buttons, MOD4_MASK, 1, ButtonTarget::Window), vec!["move"]);
    assert!(handle_button(&buttons, 0, 1, ButtonTarget::Root).is_empty());
}

#[test]
fn initial_placement_positions() {
    let window = Dimensions::new(10, 20, 400, 300);
    let area = Dimensions::new(0, 30, 1920, 1050);
    assert_eq!(WindowPlacement::Center.calc(window, area, (5, 5)), Some((760, 405)));
    assert_eq!(WindowPlacement::Pointer.calc(window, area, (500, 600)), Some((300, 450)));
    assert_eq!(WindowPlacement::Wherever.calc(window, area, (500, 600)), Some((10, 20)));
    assert_eq!(WindowPlacement::Pointer.calc(window, area, (i32::MIN, 0)), None);
    assert_eq!(WindowPlacement::Center.calc(window, Dimensions::new(i32::MAX, 0, 10, 10), (0, 0)), None);
}
