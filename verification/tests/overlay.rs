use std::collections::HashMap;

use idlescreen::overlay::{
    buffer_length, configure_overlay, configured_layout, dismiss_from_input, fill_argb8888,
    frame_copy_len, frame_destination, needs_new_buffer, presentation_refresh_hz,
    refresh_hz_from_mode, render_dimensions, sync_policy_from, tiling_margins, OutputLayout,
    SyncPolicy,
};

fn layout(id: u32, hz: u32) -> OutputLayout {
    OutputLayout { id, width: 1920, height: 1080, refresh_rate_hz: hz, x: 0, y: 0, scale: 1 }
}

#[test]
fn single_output_uses_own_refresh_floored_at_60() {
    let layouts = vec![layout(1, 144)];
    assert_eq!(presentation_refresh_hz(&layouts, layouts[0], SyncPolicy::Primary), 144);
    let low = vec![layout(1, 30)];
    assert_eq!(presentation_refresh_hz(&low, low[0], SyncPolicy::Primary), 60);
}

#[test]
fn multi_output_sync_policy_min_max_primary() {
    let layouts = vec![layout(1, 60), layout(2, 144)];
    let primary = layouts[1];
    assert_eq!(presentation_refresh_hz(&layouts, primary, sync_policy_from(Some("min"))), 60);
    assert_eq!(presentation_refresh_hz(&layouts, primary, sync_policy_from(Some("max"))), 144);
    assert_eq!(presentation_refresh_hz(&layouts, primary, sync_policy_from(Some("primary"))), 144);
    assert_eq!(presentation_refresh_hz(&layouts, layouts[0], sync_policy_from(Some("other"))), 60);
    assert_eq!(sync_policy_from(None), SyncPolicy::Primary);
}

#[test]
fn empty_layouts_default_to_60() {
    assert_eq!(presentation_refresh_hz(&Vec::new(), layout(0, 0), SyncPolicy::Max), 60);
}

#[test]
fn native_mode_grows_render_size_and_centres_with_margins() {
    let mut modes = HashMap::new();
    modes.insert(7u32, (1920u32, 1080u32));
    assert_eq!(render_dimensions(7, 1900, 1060, &modes), (1920, 1080));
    assert_eq!(render_dimensions(7, 2000, 1000, &modes), (2000, 1080));
    assert_eq!(render_dimensions(8, 1900, 1060, &modes), (1900, 1060));
    assert_eq!(tiling_margins(7, 1900, 1060, &modes), (-10, -10, -10, -10));
    assert_eq!(tiling_margins(7, 1920, 1081, &modes), (0, 0, 0, 0));
    assert_eq!(tiling_margins(8, 10, 10, &modes), (0, 0, 0, 0));
}

#[test]
fn configured_layout_defaults_unknown_values() {
    let hz: HashMap<u32, u32> = HashMap::new();
    let origins: HashMap<u32, (i32, i32)> = HashMap::new();
    let scales: HashMap<u32, i32> = HashMap::new();
    let l = configured_layout(3, 800, 600, &hz, &origins, &scales);
    assert_eq!(l, OutputLayout { id: 3, width: 800, height: 600, refresh_rate_hz: 60, x: 0, y: 0, scale: 1 });
    let mut hz = HashMap::new();
    hz.insert(3u32, 75u32);
    let mut origins = HashMap::new();
    origins.insert(3u32, (1920i32, 0i32));
    let mut scales = HashMap::new();
    scales.insert(3u32, 2i32);
    let l = configured_layout(3, 800, 600, &hz, &origins, &scales);
    assert_eq!((l.refresh_rate_hz, l.x, l.y, l.scale), (75, 1920, 0, 2));
}

#[test]
fn configure_plans_nothing_without_an_overlay() {
    let m: HashMap<u32, (u32, u32)> = HashMap::new();
    let h: HashMap<u32, u32> = HashMap::new();
    let o: HashMap<u32, (i32, i32)> = HashMap::new();
    let s: HashMap<u32, i32> = HashMap::new();
    assert!(configure_overlay(false, false, true, true, 1, 10, 10, &m, &h, &o, &s).is_none());
    let plan = configure_overlay(true, true, true, true, 1, 10, 20, &m, &h, &o, &s).expect("overlay exists");
    assert_eq!((plan.render_w, plan.render_h), (10, 20));
    assert!(!plan.attach_solid);
    assert!(configure_overlay(true, false, true, true, 1, 10, 20, &m, &h, &o, &s).unwrap().attach_solid);
    assert!(!configure_overlay(true, false, false, true, 1, 10, 20, &m, &h, &o, &s).unwrap().attach_solid);
    assert!(!configure_overlay(true, false, true, false, 1, 10, 20, &m, &h, &o, &s).unwrap().attach_solid);
}

#[test]
fn input_dismisses_only_visible_overlays_after_grace() {
    assert!(dismiss_from_input(true, false));
    assert!(!dismiss_from_input(true, true));
    assert!(!dismiss_from_input(false, false));
}

#[test]
fn refresh_from_mode_rounds_down_and_floors() {
    assert_eq!(refresh_hz_from_mode(59_940), 59);
    assert_eq!(refresh_hz_from_mode(144_000), 144);
    assert_eq!(refresh_hz_from_mode(0), 1);
    assert_eq!(refresh_hz_from_mode(-5), 1);
}

#[test]
fn buffer_sizes_saturate() {
    assert_eq!(buffer_length(2, 3), 24);
    assert_eq!(buffer_length(u32::MAX, 1), u32::MAX as usize);
    assert_eq!(frame_copy_len(2, 2, 16, 16), Some(16));
    assert_eq!(frame_copy_len(2, 2, 15, 16), None);
    assert_eq!(frame_copy_len(2, 2, 16, 15), None);
    assert!(needs_new_buffer(None, 1, 1));
    assert!(needs_new_buffer(Some((1, 2)), 1, 1));
    assert!(!needs_new_buffer(Some((1, 1)), 1, 1));
    assert_eq!(frame_destination(0, 5, 7, 9), (7, 5));
}

#[test]
fn fill_writes_bgra_and_leaves_partial_pixel() {
    let mut px = vec![9u8; 10];
    fill_argb8888(&mut px, [1, 2, 3]);
    assert_eq!(px, vec![3, 2, 1, 255, 3, 2, 1, 255, 9, 9]);
}
