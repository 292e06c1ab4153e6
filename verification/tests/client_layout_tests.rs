use marswm::client::{
    centering_fits, lookup_flags, pinned_desktop_value, Attributes, ClientFlags, SizeHints, X11Client, P_MIN_SIZE, P_RESIZE_INC,
    P_SIZE, PINNED_DESKTOP,
};
use marswm::geometry::{Dimensioned, Dimensions, MonitorConfig};
use marswm::layouts::{
    apply_layout, horizontal_tile, layout_dimensions_horizontal, layout_dimensions_vertical, layout_fits_check,
    vertical_tile,
    LayoutConfiguration, LayoutType, LAYOUT_COUNT,
};

fn client(x: i32, y: i32, w: u32, h: u32) -> X11Client<Attributes> {
    X11Client::new(None, 1, 0x1a00003, 0x200001, Dimensions::new(x, y, w, h), false, Attributes::default())
}

fn hints(flags: i64) -> SizeHints {
    SizeHints {
        flags,
        width: 0,
        height: 0,
        min_width: 0,
        min_height: 0,
        max_width: 0,
        max_height: 0,
        width_inc: 0,
        height_inc: 0,
        base_width: 0,
        base_height: 0,
        min_aspect_x: 0,
        min_aspect_y: 0,
        max_aspect_x: 0,
        max_aspect_y: 0,
    }
}

#[test]
fn client_names() {
    let c = X11Client::new(
        Some(("st".to_string(), "St".to_string())),
        1,
        0x1a00003,
        2,
        Dimensions::new(0, 0, 100, 100),
        false,
        Attributes::default(),
    );
    assert_eq!(c.name(), "st::St [0x1a00003]");
    assert_eq!(client(0, 0, 100, 100).name(), "0x1a00003");
}

#[test]
fn client_new_state() {
    let c = client(5, 6, 100, 200);
    assert_eq!(c.dimensions(), Dimensions::new(5, 6, 100, 200));
    assert_eq!(c.frame(), 0x200001);
    assert_eq!(c.window(), 0x1a00003);
    assert_eq!(c.title_window(), None);
    assert!(!c.is_visible());
    assert!(!c.is_fullscreen());
    assert!(!c.dont_decorate());
    assert_eq!(c.frame_width(), (0, 0, 0, 0));
}

#[test]
fn client_move_resize_keeps_minimum_size() {
    let mut c = client(0, 0, 100, 100);
    c.move_resize(10, 20, 30, 100);
    assert_eq!(c.dimensions(), Dimensions::new(10, 20, 40, 100));
    c.set_size((1, 1));
    assert_eq!(c.size(), (40, 40));
}

#[test]
fn client_frame_and_borders_grow_outwards() {
    let mut c = client(100, 100, 200, 150);
    c.set_frame_width((4, 4, 4, 4));
    assert_eq!(c.dimensions(), Dimensions::new(96, 96, 208, 158));
    c.set_inner_bw(1);
    assert_eq!(c.dimensions(), Dimensions::new(95, 95, 210, 160));
    c.set_outer_bw(2);
    assert_eq!(c.dimensions(), Dimensions::new(93, 93, 214, 164));
    assert_eq!(c.total_bw(), (7, 7, 7, 7));
    assert_eq!(c.inner_dimensions(), Dimensions::new(4, 4, 200, 150));
}

#[test]
fn client_decoration_roundtrip() {
    let mut c = client(100, 100, 200, 150);
    c.set_inner_bw(1);
    c.set_outer_bw(1);
    c.set_frame_width((4, 4, 4, 4));
    assert_eq!(c.dimensions(), Dimensions::new(94, 94, 212, 162));
    c.remove_decoration();
    assert_eq!(c.dimensions(), Dimensions::new(100, 100, 200, 150));
    assert_eq!((c.inner_bw(), c.outer_bw(), c.frame_width()), (0, 0, (0, 0, 0, 0)));
    c.restore_decoration();
    assert_eq!(c.dimensions(), Dimensions::new(94, 94, 212, 162));
    assert_eq!((c.inner_bw(), c.outer_bw(), c.frame_width()), (1, 1, (4, 4, 4, 4)));
}

#[test]
fn client_fullscreen_roundtrip() {
    let mut c = client(100, 100, 200, 150);
    c.set_inner_bw(1);
    c.set_frame_width((4, 4, 4, 4));
    let before = c.dimensions();
    let mon = MonitorConfig::new("m".to_string(), Dimensions::new(0, 0, 1920, 1080), Dimensions::new(0, 30, 1920, 1050));
    c.set_fullscreen(&mon);
    assert!(c.is_fullscreen());
    assert_eq!(c.dimensions(), Dimensions::new(0, 0, 1920, 1080));
    assert_eq!(c.inner_bw(), 0);
    c.unset_fullscreen();
    assert!(!c.is_fullscreen());
    assert_eq!(c.dimensions(), before);
    assert_eq!((c.inner_bw(), c.frame_width()), (1, (4, 4, 4, 4)));
}

#[test]
fn client_center_on_screen() {
    let mut c = client(0, 0, 200, 150);
    let screen = Dimensions::new(0, 0, 1920, 1080);
    assert!(!c.is_centered_on_screen(screen));
    c.center_on_screen(screen);
    assert_eq!(c.pos(), (860, 465));
    assert!(c.is_centered_on_screen(screen));
}

#[test]
fn client_motif_hints() {
    let mut c = client(0, 0, 100, 100);
    c.apply_motif_hints(None);
    assert!(!c.dont_decorate());
    let keep = vec![2u64, 0, 1, 0, 0];
    c.apply_motif_hints(Some(&keep));
    assert!(!c.dont_decorate());
    let none = vec![2u64, 0, 0, 0, 0];
    c.apply_motif_hints(Some(&none));
    assert!(c.dont_decorate());
}

#[test]
fn client_size_hints_program_size_uses_width_twice() {
    let mut c = client(0, 0, 100, 100);
    let mut h = hints(P_SIZE);
    h.width = 300;
    h.height = 200;
    let limits = c.apply_size_hints(&h);
    assert_eq!(c.size(), (300, 300));
    assert_eq!(limits.minw, 0);
}

#[test]
fn client_size_hints_increments() {
    let mut c = client(0, 0, 205, 133);
    let mut h = hints(P_MIN_SIZE | P_RESIZE_INC);
    h.min_width = 100;
    h.min_height = 50;
    h.width_inc = 10;
    h.height_inc = 20;
    let limits = c.apply_size_hints(&h);
    assert_eq!((limits.basew, limits.baseh, limits.incw, limits.inch), (100, 50, 10, 20));
    assert_eq!((limits.minw, limits.minh, limits.maxw, limits.maxh), (100, 50, 0, 0));
    assert_eq!(c.size(), (205, 133));
    c.apply_size_limits(&limits);
    assert_eq!(c.size(), (300, 170));
}

#[test]
fn client_flags_and_lookup() {
    let mut c = client(0, 0, 100, 100);
    let mut a = Attributes::default();
    a.is_floating = true;
    c.set_attributes(a);
    let f = c.flags();
    assert_eq!(f, ClientFlags { id: 0x200001, is_floating: true, is_dialog: false, is_fullscreen: false, is_pinned: false });
    let table = vec![f];
    assert_eq!(lookup_flags(&table, 0x200001), f);
    assert_eq!(
        lookup_flags(&table, 7),
        ClientFlags { id: 7, is_floating: false, is_dialog: false, is_fullscreen: false, is_pinned: false }
    );
}

#[test]
fn pinned_desktop_values() {
    assert_eq!(pinned_desktop_value(true, None), PINNED_DESKTOP);
    assert_eq!(pinned_desktop_value(true, Some(3)), 0xffff_ffff);
    assert_eq!(pinned_desktop_value(false, Some(3)), 3);
}

#[test]
fn layout_cycle_returns_after_all_layouts() {
    let values = LayoutType::values();
    assert_eq!(values.len(), LAYOUT_COUNT);
    for l in values.iter() {
        let mut m = *l;
        for _ in 0..LAYOUT_COUNT {
            m = m.next();
        }
        assert_eq!(m, *l);
    }
    assert_eq!(LayoutType::Floating.next(), LayoutType::Stack);
    assert_eq!(LayoutType::Deck.next(), LayoutType::Floating);
}

#[test]
fn layout_splits() {
    let area = Dimensions::new(0, 0, 1000, 800);
    let (main, stack) = layout_dimensions_horizontal(area, 600, 4, 1, 3);
    assert_eq!(main, Dimensions::new(4, 4, 592, 792));
    assert_eq!(stack, Dimensions::new(600, 4, 396, 792));
    let (main, stack) = layout_dimensions_vertical(area, 500, 4, 1, 3);
    assert_eq!(main, Dimensions::new(4, 4, 992, 492));
    assert_eq!(stack, Dimensions::new(4, 500, 992, 296));
    let (main, stack) = layout_dimensions_horizontal(area, 600, 4, 2, 2);
    assert_eq!(main, Dimensions::new(4, 4, 992, 792));
    assert_eq!(stack.w, 0);
    let (main, stack) = layout_dimensions_horizontal(area, 600, 4, 0, 2);
    assert_eq!(main.w, 0);
    assert_eq!(stack, Dimensions::new(4, 4, 992, 792));
}

#[test]
fn layout_tiles() {
    let area = Dimensions::new(4, 4, 992, 792);
    assert_eq!(vertical_tile(area, 3, 4, 0), Dimensions::new(4, 4, 992, 261));
    assert_eq!(vertical_tile(area, 3, 4, 1), Dimensions::new(4, 269, 992, 261));
    assert_eq!(vertical_tile(area, 3, 4, 2), Dimensions::new(4, 534, 992, 261));
    assert_eq!(horizontal_tile(area, 2, 4, 1), Dimensions::new(502, 4, 494, 792));
}

#[test]
fn apply_layout_stack() {
    let area = Dimensions::new(0, 0, 1000, 800);
    let config = LayoutConfiguration::default();
    let r = apply_layout(LayoutType::Stack, area, &vec![false, false, false], &config, 600, 400);
    assert_eq!(
        r,
        vec![
            Some(Dimensions::new(4, 4, 592, 792)),
            Some(Dimensions::new(600, 4, 396, 394)),
            Some(Dimensions::new(600, 402, 396, 394)),
        ]
    );
}

#[test]
fn apply_layout_other_layouts() {
    let area = Dimensions::new(0, 0, 1000, 800);
    let config = LayoutConfiguration::default();
    let r = apply_layout(LayoutType::Floating, area, &vec![false, false], &config, 600, 400);
    assert_eq!(r, vec![None, None]);
    let r = apply_layout(LayoutType::Monocle, area, &vec![false, true], &config, 600, 400);
    assert_eq!(r, vec![Some(area), None]);
    let r = apply_layout(LayoutType::Deck, area, &vec![false, false, false], &config, 600, 400);
    assert_eq!(r[1], Some(Dimensions::new(600, 4, 396, 792)));
    assert_eq!(r[2], Some(Dimensions::new(600, 4, 396, 792)));
    let r = apply_layout(LayoutType::BottomStack, area, &vec![false, false, false], &config, 600, 500);
    assert_eq!(r[0], Some(Dimensions::new(4, 4, 992, 492)));
    assert_eq!(r[1], Some(Dimensions::new(4, 500, 494, 296)));
    assert_eq!(r[2], Some(Dimensions::new(502, 500, 494, 296)));
    let r = apply_layout(LayoutType::Stack, area, &vec![], &config, 600, 400);
    assert!(r.is_empty());
}

#[test]
fn layout_fit_checks() {
    let area = Dimensions::new(0, 0, 1000, 800);
    let config = LayoutConfiguration::default();
    assert!(layout_fits_check(LayoutType::Stack, area, 3, &config, 600, 400));
    assert!(layout_fits_check(LayoutType::Floating, area, 3, &config, 0, 0));
    assert!(!layout_fits_check(LayoutType::Stack, area, 3, &config, 999, 400));
    assert!(!layout_fits_check(LayoutType::BottomStack, area, 3, &config, 600, 7));
    assert!(layout_fits_check(LayoutType::Stack, area, 1, &config, 999, 400));
    let huge = Dimensions::new(0x7fff_0000, 0, 0x1_0000, 800);
    assert!(!layout_fits_check(LayoutType::Deck, huge, 2, &config, 600, 400));
    assert!(layout_fits_check(LayoutType::Monocle, huge, 2, &config, 600, 400));
}

#[test]
fn layout_placements_stay_within_gaps() {
    let area = Dimensions::new(10, 20, 1000, 800);
    let config = LayoutConfiguration::default();
    let inner = Dimensions::new(14, 24, 992, 792);
    for layout in [LayoutType::Stack, LayoutType::BottomStack, LayoutType::Deck] {
        let r = apply_layout(layout, area, &vec![false; 5], &config, 600, 500);
        for d in r.into_iter().flatten() {
            assert!(d.x >= inner.x && d.y >= inner.y);
            assert!(d.x + d.w as i32 <= inner.x + inner.w as i32);
            assert!(d.y + d.h as i32 <= inner.y + inner.h as i32);
        }
    }
    let r = apply_layout(LayoutType::Monocle, area, &vec![false; 2], &config, 600, 500);
    assert_eq!(r, vec![Some(area), Some(area)]);
}

#[test]
fn layout_stack_lies_beside_main() {
    let area = Dimensions::new(10, 20, 1000, 800);
    let config = LayoutConfiguration::default();
    let gap = config.gap_width as i32;
    for layout in [LayoutType::Stack, LayoutType::Deck] {
        let r = apply_layout(layout, area, &vec![false; 4], &config, 600, 500);
        let main = r[0].unwrap();
        for stack in r[1..].iter().map(|d| d.unwrap()) {
            assert_eq!(main.x + main.w as i32 + gap, stack.x);
        }
    }
    let r = apply_layout(LayoutType::BottomStack, area, &vec![false; 4], &config, 600, 500);
    let main = r[0].unwrap();
    for stack in r[1..].iter().map(|d| d.unwrap()) {
        assert_eq!(main.y + main.h as i32 + gap, stack.y);
    }
    let r = apply_layout(LayoutType::Deck, area, &vec![false; 4], &config, 600, 500);
    assert_eq!(r[1], r[2]);
    assert_eq!(r[2], r[3]);
}

#[test]
fn client_range_checks() {
    let mut c = client(100, 100, 200, 150);
    assert!(c.can_move());
    assert!(c.can_center_on(Dimensions::new(0, 0, 1920, 1080)));
    assert!(!c.can_center_on(Dimensions::new(i32::MAX, 0, 10, 10)));
    assert!(!c.can_center_on(Dimensions::new(i32::MIN, 0, 0, 10)));
    assert!(centering_fits(200, 150, Dimensions::new(0, 0, 1920, 1080)));
    assert!(!centering_fits(200, 150, Dimensions::new(i32::MIN + 10, 0, 100, 100)));
    assert!(c.can_change_border(0, 5));
    assert!(!c.can_change_border(0, u32::MAX / 2));
    assert!(c.can_change_frame((4, 4, 4, 4)));
    assert!(!c.can_change_frame((0x7fff_ffff, 0, 0, 0)));
    assert!(c.can_set_fullscreen());
    assert!(c.can_unset_fullscreen());
    let mon = MonitorConfig::new("m".to_string(), Dimensions::new(0, 0, 1920, 1080), Dimensions::new(0, 0, 1920, 1080));
    c.set_fullscreen(&mon);
    assert!(c.can_unset_fullscreen());
    let mut far = client(i32::MIN, 0, 200, 150);
    assert!(far.can_move());
    assert!(!far.can_change_border(0, 1));
    far.set_inner_bw(0);
    assert!(far.can_set_fullscreen());
}
