use fps_enhancer::display::{DisplayError, DisplayMode};
use fps_enhancer::modes::normalize_display_modes;

fn mode(w: u32, h: u32, r: u32, bpp: u32) -> DisplayMode {
    DisplayMode {
        width: w,
        height: h,
        refresh_rate: r,
        bits_per_pixel: Some(bpp),
        monitor_name: String::new(),
    }
}

fn key(m: &DisplayMode) -> (u32, u32, u32, Option<u32>) {
    (m.width, m.height, m.refresh_rate, m.bits_per_pixel)
}

#[test]
fn empty_enumeration_is_a_failure() {
    let r = normalize_display_modes(Vec::new());
    assert!(matches!(r, Err(DisplayError::EnumFailed)));
}

#[test]
fn duplicate_modes_are_dropped_keeping_first_occurrence() {
    let raw = vec![
        mode(1920, 1080, 60, 32),
        mode(1920, 1080, 60, 32),
        mode(1920, 1080, 60, 32),
    ];
    let out = normalize_display_modes(raw).unwrap();
    assert_eq!(out.len(), 1);
    assert_eq!(key(&out[0]), (1920, 1080, 60, Some(32)));
}

#[test]
fn modes_sort_descending_by_width_height_refresh() {
    let raw = vec![
        mode(1280, 720, 60, 32),
        mode(1920, 1080, 60, 32),
        mode(1920, 1080, 144, 32),
        mode(3840, 2160, 30, 32),
        mode(1920, 1200, 60, 32),
    ];
    let out = normalize_display_modes(raw).unwrap();
    let keys: Vec<_> = out.iter().map(key).collect();
    assert_eq!(
        keys,
        vec![
            (3840, 2160, 30, Some(32)),
            (1920, 1200, 60, Some(32)),
            (1920, 1080, 144, Some(32)),
            (1920, 1080, 60, Some(32)),
            (1280, 720, 60, Some(32)),
        ]
    );
}

#[test]
fn equal_sort_keys_keep_enumeration_order() {
    // same (width, height, refresh), different colour depth: both stay, in
    // the order the driver enumerated them
    let raw = vec![mode(1920, 1080, 60, 16), mode(1920, 1080, 60, 32)];
    let out = normalize_display_modes(raw).unwrap();
    assert_eq!(out.len(), 2);
    assert_eq!(out[0].bits_per_pixel, Some(16));
    assert_eq!(out[1].bits_per_pixel, Some(32));
}

#[test]
fn dedup_and_sort_combine() {
    let raw = vec![
        mode(800, 600, 60, 32),
        mode(1920, 1080, 60, 32),
        mode(800, 600, 60, 32),
        mode(1920, 1080, 120, 32),
        mode(1920, 1080, 60, 32),
    ];
    let out = normalize_display_modes(raw).unwrap();
    let keys: Vec<_> = out.iter().map(key).collect();
    assert_eq!(
        keys,
        vec![
            (1920, 1080, 120, Some(32)),
            (1920, 1080, 60, Some(32)),
            (800, 600, 60, Some(32)),
        ]
    );
}
