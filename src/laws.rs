//! Properties that tie the parsers and the geometry resolution together.
use vstd::prelude::*;
use vstd::arithmetic::div_mod::lemma_div_multiples_vanish;
use crate::config::{
    color_of, font_size_of, fraction_of, frac_part, int_part, is_sole_comma, point_index,
    strip_hash, unsigned_part, window_size_of, window_size_of_parts, Fraction, WindowSize,
};
use crate::geometry::{
    resolved_geometry, resolved_position, resolved_size, Extent, MonitorGeometry, Position,
    FALLBACK_MONITOR_HEIGHT, FALLBACK_MONITOR_WIDTH,
};
use crate::text::{
    ends_with_px, is_digit, is_hex_digit, strip_px, uint_of, without_plus,
};

verus! {

/// A string that reads as an unsigned integer holds only a leading `+` and digits.
proof fn lemma_uint_chars(a: Seq<char>)
    requires
        uint_of(a) is Some,
    ensures
        forall|i: int| 0 <= i < a.len() ==> is_digit(#[trigger] a[i]) || (i == 0 && a[i] == '+'),
{
    let d = without_plus(a);
    assert forall|i: int| 0 <= i < a.len() implies is_digit(#[trigger] a[i]) || (i == 0 && a[i]
        == '+') by {
        if a.len() > 0 && a[0] == '+' {
            if i > 0 {
                assert(a[i] == d[i - 1]);
            }
        } else {
            assert(a[i] == d[i]);
        }
    }
}

/// A string that reads as a fraction holds only a leading sign, digits and one point.
proof fn lemma_fraction_chars(a: Seq<char>)
    requires
        fraction_of(a) is Some,
    ensures
        forall|i: int|
            0 <= i < a.len() ==> is_digit(#[trigger] a[i]) || a[i] == '.' || (i == 0 && (a[i]
                == '+' || a[i] == '-')),
        a.len() > 0,
        is_digit(a[a.len() - 1]) || a[a.len() - 1] == '.',
{
    let b = unsigned_part(a);
    let p = point_index(b);
    let ip = int_part(b);
    let fp = frac_part(b);
    assert(ip.len() + fp.len() > 0);
    let off: int = if a.len() > 0 && (a[0] == '+' || a[0] == '-') {
        1
    } else {
        0
    };
    assert(b =~= a.skip(off));
    assert forall|j: int| 0 <= j < b.len() implies is_digit(#[trigger] b[j]) || b[j] == '.' by {
        if j < p {
            assert(b[j] == ip[j]);
        } else if j > p {
            assert(b[j] == fp[j - p - 1]);
        } else {
            if p < b.len() {
                assert(b[p] == '.');
            }
        }
    }
    assert(b.len() > 0) by {
        if b.len() == 0 {
            assert(ip.len() == 0);
        }
    }
    assert forall|i: int|
        0 <= i < a.len() implies is_digit(#[trigger] a[i]) || a[i] == '.' || (i == 0 && (a[i]
            == '+' || a[i] == '-')) by {
        if i >= off {
            assert(a[i] == b[i - off]);
        }
    }
    assert(a[a.len() - 1] == b[b.len() - 1]);
}

/// Two parts without commas, joined by one comma, read as those two parts.
proof fn lemma_join_at_comma(x: Seq<char>, y: Seq<char>)
    requires
        forall|i: int| 0 <= i < x.len() ==> #[trigger] x[i] != ',',
        forall|i: int| 0 <= i < y.len() ==> #[trigger] y[i] != ',',
    ensures
        window_size_of(x + seq![','] + y) == window_size_of_parts(x, y),
{
    let s = x + seq![','] + y;
    let k = x.len() as int;
    assert forall|j: int| 0 <= j < s.len() && j != k implies s[j] != ',' by {
        if j < k {
            assert(s[j] == x[j]);
        } else {
            assert(s[j] == y[j - k - 1]);
        }
    }
    assert(is_sole_comma(s, k));
    let c = choose|c: int| is_sole_comma(s, c);
    assert(c == k) by {
        if c != k {
            assert(s[k] == ',');
        }
    }
    assert(s.take(k) =~= x);
    assert(s.skip(k + 1) =~= y);
}

/// `<int>px,<int>px` reads as the two integers given, and the size it gives
/// does not depend on the monitor.
pub proof fn pixel_size_is_exact(
    a: Seq<char>,
    b: Seq<char>,
    m1: Option<MonitorGeometry>,
    m2: Option<MonitorGeometry>,
)
    requires
        uint_of(a) is Some,
        uint_of(b) is Some,
    ensures
        window_size_of(a + seq!['p', 'x', ','] + b + seq!['p', 'x']) == Some(
            WindowSize::Pixels(uint_of(a)->0, uint_of(b)->0),
        ),
        resolved_size(WindowSize::Pixels(uint_of(a)->0, uint_of(b)->0), m1) == resolved_size(
            WindowSize::Pixels(uint_of(a)->0, uint_of(b)->0),
            m2,
        ),
        resolved_size(WindowSize::Pixels(uint_of(a)->0, uint_of(b)->0), m1) == (Extent {
            width: uint_of(a)->0,
            height: uint_of(b)->0,
        }),
{
    let x = a + seq!['p', 'x'];
    let y = b + seq!['p', 'x'];
    lemma_uint_chars(a);
    lemma_uint_chars(b);
    assert forall|i: int| 0 <= i < x.len() implies #[trigger] x[i] != ',' by {
        if i < a.len() {
            assert(x[i] == a[i]);
        }
    }
    assert forall|i: int| 0 <= i < y.len() implies #[trigger] y[i] != ',' by {
        if i < b.len() {
            assert(y[i] == b[i]);
        }
    }
    lemma_join_at_comma(x, y);
    assert(a + seq!['p', 'x', ','] + b + seq!['p', 'x'] =~= x + seq![','] + y);
    assert(strip_px(x) =~= a);
    assert(strip_px(y) =~= b);
}

/// `<fraction>,<fraction>` reads as the two fractions given, and on a monitor
/// of width `W` and height `H` gives the size `(floor(W * fx), floor(H * fy))`,
/// for fractions that are not negative and products that fit in `u32`.
pub proof fn percent_size_is_floor(a: Seq<char>, b: Seq<char>, m: MonitorGeometry)
    requires
        fraction_of(a) is Some,
        fraction_of(b) is Some,
        fraction_of(a)->0.numerator() >= 0,
        fraction_of(b)->0.numerator() >= 0,
        m.width * fraction_of(a)->0.numerator() / fraction_of(a)->0.denominator() <= u32::MAX,
        m.height * fraction_of(b)->0.numerator() / fraction_of(b)->0.denominator() <= u32::MAX,
    ensures
        window_size_of(a + seq![','] + b) == Some(
            WindowSize::Percent(fraction_of(a)->0, fraction_of(b)->0),
        ),
        resolved_size(WindowSize::Percent(fraction_of(a)->0, fraction_of(b)->0), Some(m)).width
            == m.width * fraction_of(a)->0.numerator() / fraction_of(a)->0.denominator(),
        resolved_size(WindowSize::Percent(fraction_of(a)->0, fraction_of(b)->0), Some(m)).height
            == m.height * fraction_of(b)->0.numerator() / fraction_of(b)->0.denominator(),
{
    lemma_fraction_chars(a);
    lemma_fraction_chars(b);
    assert forall|i: int| 0 <= i < a.len() implies #[trigger] a[i] != ',' by {
        assert(is_digit(a[i]) || a[i] == '.' || a[i] == '+' || a[i] == '-');
    }
    assert forall|i: int| 0 <= i < b.len() implies #[trigger] b[i] != ',' by {
        assert(is_digit(b[i]) || b[i] == '.' || b[i] == '+' || b[i] == '-');
    }
    lemma_join_at_comma(a, b);
    assert(!ends_with_px(a));
    let fa = fraction_of(a)->0;
    let fb = fraction_of(b)->0;
    crate::config::lemma_pow10_mono(0, fa.scale as nat);
    crate::config::lemma_pow10_mono(0, fb.scale as nat);
    assert(m.width * fa.numerator() >= 0) by (nonlinear_arith)
        requires
            fa.numerator() >= 0,
    ;
    assert(m.height * fb.numerator() >= 0) by (nonlinear_arith)
        requires
            fb.numerator() >= 0,
    ;
    assert(m.width * fa.numerator() / fa.denominator() >= 0) by (nonlinear_arith)
        requires
            m.width * fa.numerator() >= 0,
            fa.denominator() >= 1,
    ;
    assert(m.height * fb.numerator() / fb.denominator() >= 0) by (nonlinear_arith)
        requires
            m.height * fb.numerator() >= 0,
            fb.denominator() >= 1,
    ;
}

/// A fraction of zero on both axes puts the window's top-left corner on the
/// monitor's, whatever the window's size.
pub proof fn zero_anchor_is_origin(m: MonitorGeometry, window: Extent, fx: Fraction, fy: Fraction)
    requires
        fx.wf(),
        fy.wf(),
        fx.mantissa == 0,
        fy.mantissa == 0,
    ensures
        resolved_position(WindowSize::Percent(fx, fy), m, window) == (Position {
            x: m.x as i64,
            y: m.y as i64,
        }),
{
    crate::config::lemma_pow10_mono(0, fx.scale as nat);
    crate::config::lemma_pow10_mono(0, fy.scale as nat);
    let dx = fx.denominator();
    let dy = fy.denominator();
    assert((m.width - window.width) * fx.numerator() == 0);
    assert((m.height - window.height) * fy.numerator() == 0);
    lemma_div_multiples_vanish(m.x as int, dx);
    lemma_div_multiples_vanish(-(m.x as int), dx);
    lemma_div_multiples_vanish(m.y as int, dy);
    lemma_div_multiples_vanish(-(m.y as int), dy);
    assert(m.x * dx == dx * m.x);
    assert(m.y * dy == dy * m.y);
    assert(-(m.x * dx) == dx * (-(m.x as int))) by (nonlinear_arith);
    assert(-(m.y * dy) == dy * (-(m.y as int))) by (nonlinear_arith);
    assert(m.x * dx >= 0 <==> m.x >= 0) by (nonlinear_arith)
        requires
            dx >= 1,
    ;
    assert(m.y * dy >= 0 <==> m.y >= 0) by (nonlinear_arith)
        requires
            dy >= 1,
    ;
}

/// A color string is rejected when, after an optional `#`, it does not hold
/// six or eight characters, or holds one that is not a hexadecimal digit.
pub proof fn malformed_color_is_rejected(s: Seq<char>)
    requires
        !(strip_hash(s).len() == 6 || strip_hash(s).len() == 8) || exists|i: int|
            0 <= i < strip_hash(s).len() && !is_hex_digit(#[trigger] strip_hash(s)[i]),
    ensures
        color_of(s) is None,
{
}

/// A font size is rejected when it does not end with `px`, or when what
/// precedes `px` holds anything but digits after an optional `+` (a minus
/// sign or a decimal point, say).
pub proof fn malformed_font_size_is_rejected(s: Seq<char>)
    requires
        !ends_with_px(s) || exists|i: int|
            0 <= i < strip_px(s).len() && !is_digit(#[trigger] strip_px(s)[i]) && !(i == 0
                && strip_px(s)[i] == '+'),
    ensures
        font_size_of(s) is None,
{
    if ends_with_px(s) && uint_of(strip_px(s)) is Some {
        lemma_uint_chars(strip_px(s));
    }
}

/// Without a monitor the size is the one on a monitor of the fallback size,
/// wherever that monitor stands, and no position is given.
pub proof fn missing_monitor_uses_fallback(
    size: WindowSize,
    location: WindowSize,
    x: i32,
    y: i32,
)
    ensures
        ({
            let g = resolved_geometry(size, location, None);
            let e = resolved_size(
                size,
                Some(
                    MonitorGeometry {
                        width: FALLBACK_MONITOR_WIDTH,
                        height: FALLBACK_MONITOR_HEIGHT,
                        x,
                        y,
                    },
                ),
            );
            &&& g.width == e.width
            &&& g.height == e.height
            &&& g.position is None
        }),
{
}

} // verus!
