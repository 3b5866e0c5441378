use blink::{
    position_window, resolve_position, resolve_size, Extent, MonitorGeometry, Position,
    WindowGeometry, WindowSize,
};

fn dims(s: &str) -> WindowSize {
    WindowSize::parse(s).unwrap()
}

fn monitor(width: u32, height: u32, x: i32, y: i32) -> MonitorGeometry {
    MonitorGeometry { width, height, x, y }
}

#[test]
fn centered_window() {
    let p = resolve_position(&dims("0.5,0.5"), monitor(1920, 1080, 0, 0), Extent { width: 100, height: 100 });
    assert_eq!(p, Position { x: 910, y: 490 });
}

#[test]
fn bottom_right_anchor() {
    let p = resolve_position(&dims("1,1"), monitor(1920, 1080, 0, 0), Extent { width: 200, height: 50 });
    assert_eq!(p, Position { x: 1720, y: 1030 });
}

#[test]
fn zero_anchor_is_monitor_origin() {
    for (w, h) in [(0u32, 0u32), (100, 100), (5000, 3), (u32::MAX, u32::MAX)] {
        let p = resolve_position(&dims("0,0.0"), monitor(1920, 1080, 250, -40), Extent { width: w, height: h });
        assert_eq!(p, Position { x: 250, y: -40 });
    }
}

#[test]
fn anchor_adds_monitor_origin() {
    let p = resolve_position(&dims("0.5,0.33"), monitor(1920, 1080, 1920, 0), Extent { width: 1267, height: 71 });
    // 1920 + (1920 - 1267) * 0.5 = 2246.5; (1080 - 71) * 0.33 = 332.97
    assert_eq!(p, Position { x: 2246, y: 332 });
}

#[test]
fn anchor_truncates_toward_zero() {
    let p = resolve_position(&dims("0.5,0.5"), monitor(100, 100, 0, 0), Extent { width: 201, height: 103 });
    // (100 - 201) * 0.5 = -50.5 and (100 - 103) * 0.5 = -1.5
    assert_eq!(p, Position { x: -50, y: -1 });
}

#[test]
fn pixel_location_is_absolute() {
    let p = resolve_position(&dims("960px,300px"), monitor(1920, 1080, 1920, 50), Extent { width: 1, height: 1 });
    assert_eq!(p, Position { x: 960, y: 300 });
    let q = resolve_position(&WindowSize::Pixels(u32::MAX, 0), monitor(1, 1, 0, 0), Extent { width: 1, height: 1 });
    assert_eq!(q, Position { x: 4294967295, y: 0 });
}

#[test]
fn pixel_size_ignores_monitor() {
    let s = dims("800px,80px");
    assert_eq!(resolve_size(&s, Some(monitor(1920, 1080, 0, 0))), Extent { width: 800, height: 80 });
    assert_eq!(resolve_size(&s, Some(monitor(3, 7, -9, 9))), Extent { width: 800, height: 80 });
    assert_eq!(resolve_size(&s, None), Extent { width: 800, height: 80 });
}

#[test]
fn percent_size_is_floor() {
    let s = dims("0.66,0.066");
    // 1920 * 0.66 = 1267.2 and 1080 * 0.066 = 71.28
    assert_eq!(resolve_size(&s, Some(monitor(1920, 1080, 0, 0))), Extent { width: 1267, height: 71 });
    assert_eq!(resolve_size(&dims("0.999,1"), Some(monitor(1000, 7, 0, 0))), Extent { width: 999, height: 7 });
}

#[test]
fn percent_size_clamps() {
    assert_eq!(resolve_size(&dims("-0.5,-0"), Some(monitor(1000, 1000, 0, 0))), Extent { width: 0, height: 0 });
    assert_eq!(
        resolve_size(&dims("18446744073709551615,2"), Some(monitor(4294967295, 4294967295, 0, 0))),
        Extent { width: u32::MAX, height: u32::MAX }
    );
}

#[test]
fn missing_monitor_falls_back() {
    let g = position_window(&dims("0.5,0.5"), &dims("0.5,0.5"), None);
    assert_eq!(g, WindowGeometry { width: 960, height: 540, position: None });
    let with = position_window(&dims("0.5,0.5"), &dims("0.5,0.5"), Some(monitor(1920, 1080, 7, 7)));
    assert_eq!(with.width, g.width);
    assert_eq!(with.height, g.height);
}

#[test]
fn full_geometry_on_monitor() {
    let g = position_window(&dims("0.66,0.066"), &dims("0.5,0.33"), Some(monitor(1920, 1080, 0, 0)));
    assert_eq!(g, WindowGeometry { width: 1267, height: 71, position: Some(Position { x: 326, y: 332 }) });
}

#[test]
fn fraction_validity() {
    assert!(dims("0.5,0.5").is_valid());
    let bad = WindowSize::Percent(
        blink::Fraction { negative: false, mantissa: 1, scale: 19 },
        blink::Fraction { negative: false, mantissa: 1, scale: 0 },
    );
    assert!(!bad.is_valid());
}
