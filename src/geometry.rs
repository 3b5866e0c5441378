//! Resolution of a size and location specification into the window's pixel
//! geometry on a monitor.
use vstd::prelude::*;
use crate::config::{pow10_u64, Fraction, WindowPosition, WindowSize};

verus! {

/// The width assumed for a monitor whose geometry cannot be had.
pub const FALLBACK_MONITOR_WIDTH: u32 = 1920;

/// The height assumed for a monitor whose geometry cannot be had.
pub const FALLBACK_MONITOR_HEIGHT: u32 = 1080;

/// The size of a monitor and the screen position of its top-left corner.
#[derive(Debug, Clone, Copy, PartialEq, Eq, Structural)]
pub struct MonitorGeometry {
    pub width: u32,
    pub height: u32,
    pub x: i32,
    pub y: i32,
}

/// A screen position, in pixels.
#[derive(Debug, Clone, Copy, PartialEq, Eq, Structural)]
pub struct Position {
    pub x: i64,
    pub y: i64,
}

/// A window size, in pixels.
#[derive(Debug, Clone, Copy, PartialEq, Eq, Structural)]
pub struct Extent {
    pub width: u32,
    pub height: u32,
}

/// The geometry to give the window: its size, and its position where a
/// monitor was known.
#[derive(Debug, Clone, Copy, PartialEq, Eq)]
pub struct WindowGeometry {
    pub width: u32,
    pub height: u32,
    pub position: Option<Position>,
}

/// `a / d`, rounded toward zero.
pub open spec fn trunc_div(a: int, d: int) -> int {
    if a >= 0 {
        a / d
    } else {
        -((-a) / d)
    }
}

/// `v` clamped into the range of `u32`.
pub open spec fn clamp_u32(v: int) -> u32 {
    if v < 0 {
        0
    } else if v > u32::MAX {
        u32::MAX
    } else {
        v as u32
    }
}

/// `v` clamped into the range of `i64`.
pub open spec fn clamp_i64(v: int) -> i64 {
    if v < i64::MIN {
        i64::MIN
    } else if v > i64::MAX {
        i64::MAX
    } else {
        v as i64
    }
}

/// The fraction `f` of a monitor extent, rounded toward zero to pixels.
pub open spec fn scaled_extent(extent: u32, f: Fraction) -> u32 {
    clamp_u32(trunc_div(extent * f.numerator(), f.denominator()))
}

/// One coordinate of a window anchored at fraction `f`: the point at `f`
/// within the window meets the point at `f` within the monitor, so
/// `origin + extent * f - window * f`, rounded toward zero.
pub open spec fn anchored(origin: i32, extent: u32, window: u32, f: Fraction) -> i64 {
    clamp_i64(
        trunc_div(origin * f.denominator() + (extent - window) * f.numerator(), f.denominator()),
    )
}

/// The window size that `size` gives on a monitor of `width` by `height`.
pub open spec fn size_on(size: WindowSize, width: u32, height: u32) -> Extent {
    match size {
        WindowSize::Pixels(w, h) => Extent { width: w, height: h },
        WindowSize::Percent(fx, fy) => Extent {
            width: scaled_extent(width, fx),
            height: scaled_extent(height, fy),
        },
    }
}

/// The window size that `size` gives on `monitor`, or on a monitor of the
/// fallback size where none is known.
pub open spec fn resolved_size(size: WindowSize, monitor: Option<MonitorGeometry>) -> Extent {
    match monitor {
        Some(m) => size_on(size, m.width, m.height),
        None => size_on(size, FALLBACK_MONITOR_WIDTH, FALLBACK_MONITOR_HEIGHT),
    }
}

/// The position that `location` gives to a window of `window` on `monitor`.
/// Pixels are screen coordinates as they stand.
pub open spec fn resolved_position(
    location: WindowPosition,
    monitor: MonitorGeometry,
    window: Extent,
) -> Position {
    match location {
        WindowSize::Pixels(x, y) => Position { x: x as i64, y: y as i64 },
        WindowSize::Percent(fx, fy) => Position {
            x: anchored(monitor.x, monitor.width, window.width, fx),
            y: anchored(monitor.y, monitor.height, window.height, fy),
        },
    }
}

/// The geometry of the window: its size first, then, where the monitor is
/// known, its position for that size.
pub open spec fn resolved_geometry(
    size: WindowSize,
    location: WindowPosition,
    monitor: Option<MonitorGeometry>,
) -> WindowGeometry {
    let e = resolved_size(size, monitor);
    WindowGeometry {
        width: e.width,
        height: e.height,
        position: match monitor {
            Some(m) => Some(resolved_position(location, m, e)),
            None => None,
        },
    }
}

/// The fraction `f` of `extent`, rounded toward zero and clamped to `u32`.
fn scale_extent(extent: u32, f: Fraction) -> (r: u32)
    requires
        f.wf(),
    ensures
        r == scaled_extent(extent, f),
{
    let d = pow10_u64(f.scale);
    proof {
        crate::config::lemma_pow10_mono(0, f.scale as nat);
        assert(extent * f.mantissa <= 4294967295u32 * 18446744073709551615u64)
            by (nonlinear_arith)
            requires
                extent <= 4294967295u32,
                f.mantissa <= 18446744073709551615u64,
        ;
    }
    let q: u128 = (extent as u128 * f.mantissa as u128) / d as u128;
    if f.negative {
        proof {
            let a = extent * f.mantissa;
            assert(extent * f.numerator() == -a) by (nonlinear_arith)
                requires
                    f.numerator() == -(f.mantissa as int),
                    a == extent * f.mantissa,
            ;
            assert(a >= 0) by (nonlinear_arith)
                requires
                    a == extent * f.mantissa,
                    extent >= 0,
                    f.mantissa >= 0,
            ;
            if a > 0 {
                assert(-(-(-a)) == -a);
            }
        }
        0
    } else if q > u32::MAX as u128 {
        u32::MAX
    } else {
        q as u32
    }
}

/// One coordinate of a window anchored at fraction `f` of the monitor.
fn anchor(origin: i32, extent: u32, window: u32, f: Fraction) -> (r: i64)
    requires
        f.wf(),
    ensures
        r == anchored(origin, extent, window, f),
{
    let d = pow10_u64(f.scale);
    proof {
        crate::config::lemma_pow10_mono(f.scale as nat, 18);
        crate::config::lemma_pow10_mono(0, f.scale as nat);
        reveal_with_fuel(crate::config::pow10, 19);
    }
    let num: i128 = if f.negative {
        -(f.mantissa as i128)
    } else {
        f.mantissa as i128
    };
    let span: i128 = extent as i128 - window as i128;
    proof {
        assert(-2147483648 * 1000000000000000000 <= origin * d <= 2147483647 * 1000000000000000000)
            by (nonlinear_arith)
            requires
                -2147483648 <= origin <= 2147483647,
                1 <= d <= 1000000000000000000,
        ;
        assert(-79228162514264337593543950336 <= span * num <= 79228162514264337593543950336)
            by (nonlinear_arith)
            requires
                -4294967296 <= span <= 4294967296,
                -18446744073709551616 <= num <= 18446744073709551616,
        ;
    }
    let a: i128 = origin as i128 * d as i128 + span * num;
    let t: i128 = if a >= 0 {
        (a as u128 / d as u128) as i128
    } else {
        -(((-a) as u128 / d as u128) as i128)
    };
    if t < i64::MIN as i128 {
        i64::MIN
    } else if t > i64::MAX as i128 {
        i64::MAX
    } else {
        t as i64
    }
}

/// The window size that `size` gives on `monitor`; where no monitor is known,
/// on a monitor of 1920 by 1080 pixels. Pixels are taken as they stand.
pub fn resolve_size(size: &WindowSize, monitor: Option<MonitorGeometry>) -> (r: Extent)
    requires
        size.wf(),
    ensures
        r == resolved_size(*size, monitor),
{
    let (width, height) = match monitor {
        Some(m) => (m.width, m.height),
        None => (FALLBACK_MONITOR_WIDTH, FALLBACK_MONITOR_HEIGHT),
    };
    match size {
        WindowSize::Pixels(w, h) => Extent { width: *w, height: *h },
        WindowSize::Percent(fx, fy) => Extent {
            width: scale_extent(width, *fx),
            height: scale_extent(height, *fy),
        },
    }
}

/// The position that `location` gives to a window of size `window` on
/// `monitor`. Pixels are screen coordinates as they stand; fractions anchor
/// the window so that the point at that fraction of the window meets the
/// point at that fraction of the monitor.
pub fn resolve_position(location: &WindowPosition, monitor: MonitorGeometry, window: Extent) -> (r:
    Position)
    requires
        location.wf(),
    ensures
        r == resolved_position(*location, monitor, window),
{
    match location {
        WindowSize::Pixels(x, y) => Position { x: *x as i64, y: *y as i64 },
        WindowSize::Percent(fx, fy) => Position {
            x: anchor(monitor.x, monitor.width, window.width, *fx),
            y: anchor(monitor.y, monitor.height, window.height, *fy),
        },
    }
}

/// The geometry of the window on `monitor`: its size, then its position for
/// that size. Where no monitor is known the size is taken on the fallback
/// monitor and no position is given, which leaves the placement to the
/// window system.
pub fn position_window(
    size: &WindowSize,
    location: &WindowPosition,
    monitor: Option<MonitorGeometry>,
) -> (r: WindowGeometry)
    requires
        size.wf(),
        location.wf(),
    ensures
        r == resolved_geometry(*size, *location, monitor),
{
    let e = resolve_size(size, monitor);
    let position = match monitor {
        Some(m) => Some(resolve_position(location, m, e)),
        None => None,
    };
    WindowGeometry { width: e.width, height: e.height, position }
}

} // verus!
