//! The typed configuration of the bar and the parsers that read it from
//! strings.
use vstd::prelude::*;
use crate::text::{
    all_digits, all_hex, chars_of, digits_in, digits_value, ends_with_px,
    ends_with_px_in, hex_byte, hex_value, is_hex_digit, strip_px, uint_in, uint_of,
};

verus! {

/// The most digits that a fraction may have after its decimal point.
pub const MAX_SCALE: u32 = 18;

/// Why a configuration string was rejected.
#[derive(Debug, Clone, Copy, PartialEq, Eq, Structural)]
pub enum ParseError {
    /// A size or location that is not `<width>,<height>`.
    MalformedDimension,
    /// A color that is not `#RRGGBB` or `#RRGGBBAA`.
    MalformedColor,
    /// A font size that is not `<size>px`.
    MalformedFontSize,
}

/// The message that describes each kind of error.
pub open spec fn message_of(e: ParseError) -> Seq<char> {
    match e {
        ParseError::MalformedDimension => "Expected format: <width>,<height>"@,
        ParseError::MalformedColor => "Expected format: #RRGGBB or #RRGGBBAA"@,
        ParseError::MalformedFontSize => "Expected format: <size>px"@,
    }
}

impl ParseError {
    /// A description of the grammar that the input was expected to follow.
    pub fn message(&self) -> (r: &'static str)
        ensures
            r@ == message_of(*self),
    {
        match self {
            ParseError::MalformedDimension => "Expected format: <width>,<height>",
            ParseError::MalformedColor => "Expected format: #RRGGBB or #RRGGBBAA",
            ParseError::MalformedFontSize => "Expected format: <size>px",
        }
    }
}

/// A color with four 8-bit channels.
#[derive(Debug, Clone, Copy, PartialEq, Eq, Structural)]
pub struct Color {
    pub red: u8,
    pub green: u8,
    pub blue: u8,
    pub alpha: u8,
}

/// `s` without one leading `#`, if it has one.
pub open spec fn strip_hash(s: Seq<char>) -> Seq<char> {
    if s.len() > 0 && s[0] == '#' {
        s.drop_first()
    } else {
        s
    }
}

/// The color that `s` spells: an optional `#`, then six or eight hexadecimal
/// digits giving red, green, blue and, if present, alpha (else fully opaque).
pub open spec fn color_of(s: Seq<char>) -> Option<Color> {
    let h = strip_hash(s);
    if (h.len() == 6 || h.len() == 8) && all_hex(h) {
        Some(
            Color {
                red: hex_byte(h, 0),
                green: hex_byte(h, 2),
                blue: hex_byte(h, 4),
                alpha: if h.len() == 8 {
                    hex_byte(h, 6)
                } else {
                    0xff
                },
            },
        )
    } else {
        None
    }
}

/// The value of the hexadecimal digit `c`, if it is one.
fn hex_digit(c: char) -> (r: Option<u8>)
    ensures
        r is Some <==> is_hex_digit(c),
        r is Some ==> r->0 == hex_value(c),
{
    if '0' <= c && c <= '9' {
        Some((c as u32 - '0' as u32) as u8)
    } else if 'a' <= c && c <= 'f' {
        Some((c as u32 - 'a' as u32 + 10) as u8)
    } else if 'A' <= c && c <= 'F' {
        Some((c as u32 - 'A' as u32 + 10) as u8)
    } else {
        None
    }
}

impl Color {
    /// Parses `#RRGGBB` or `#RRGGBBAA`; the `#` may be left out.
    pub fn parse(s: &str) -> (r: Result<Color, ParseError>)
        ensures
            r == match color_of(s@) {
                Some(c) => Ok(c),
                None => Err(ParseError::MalformedColor),
            },
    {
        let v = chars_of(s);
        let start: usize = if v.len() > 0 && v[0] == '#' {
            1
        } else {
            0
        };
        let ghost h = strip_hash(v@);
        assert(h =~= v@.subrange(start as int, v.len() as int));
        let n = v.len() - start;
        if n != 6 && n != 8 {
            return Err(ParseError::MalformedColor);
        }
        let mut digits: Vec<u8> = Vec::new();
        let mut i: usize = start;
        while i < v.len()
            invariant
                start <= i <= v.len(),
                v@ == s@,
                h == strip_hash(s@),
                n == v.len() - start,
                n == 6 || n == 8,
                h =~= v@.subrange(start as int, v.len() as int),
                digits.len() == i - start,
                forall|k: int| 0 <= k < i - start ==> is_hex_digit(#[trigger] h[k]),
                forall|k: int| 0 <= k < i - start ==> digits[k] == hex_value(#[trigger] h[k]),
            decreases v.len() - i,
        {
            assert(h[i - start] == v[i as int]);
            match hex_digit(v[i]) {
                Some(d) => digits.push(d),
                None => {
                    assert(!is_hex_digit(h[i - start]));
                    assert(!all_hex(h));
                    return Err(ParseError::MalformedColor);
                },
            }
            i = i + 1;
        }
        let red = digits[0] * 16 + digits[1];
        let green = digits[2] * 16 + digits[3];
        let blue = digits[4] * 16 + digits[5];
        let alpha = if n == 8 {
            digits[6] * 16 + digits[7]
        } else {
            0xff
        };
        Ok(Color { red, green, blue, alpha })
    }
}

impl std::str::FromStr for Color {
    type Err = String;

    fn from_str(s: &str) -> (r: Result<Color, String>)
        ensures
            color_of(s@) is Some ==> r == Ok::<Color, String>(color_of(s@)->0),
            color_of(s@) is None ==> r is Err && r->Err_0@ == message_of(ParseError::MalformedColor),
    {
        broadcast use vstd::string::to_string_from_display_ensures_for_str;

        match Color::parse(s) {
            Ok(c) => Ok(c),
            Err(e) => Err(e.message().to_string()),
        }
    }
}

/// A font size, in pixels.
#[derive(Debug, Clone, Copy, PartialEq, Eq, Structural)]
pub struct FontSize(pub u32);

/// The font size that `s` spells: an unsigned integer followed by `px`.
pub open spec fn font_size_of(s: Seq<char>) -> Option<FontSize> {
    if ends_with_px(s) {
        match uint_of(strip_px(s)) {
            Some(n) => Some(FontSize(n)),
            None => None,
        }
    } else {
        None
    }
}

impl FontSize {
    /// Parses `<size>px`.
    pub fn parse(s: &str) -> (r: Result<FontSize, ParseError>)
        ensures
            r == match font_size_of(s@) {
                Some(f) => Ok(f),
                None => Err(ParseError::MalformedFontSize),
            },
    {
        let v = chars_of(s);
        if !ends_with_px_in(&v, 0, v.len()) {
            assert(v@.subrange(0, v.len() as int) =~= v@);
            return Err(ParseError::MalformedFontSize);
        }
        assert(v@.subrange(0, v.len() as int) =~= v@);
        assert(strip_px(v@) =~= v@.subrange(0, v.len() - 2));
        match uint_in(&v, 0, v.len() - 2) {
            Some(n) => Ok(FontSize(n)),
            None => Err(ParseError::MalformedFontSize),
        }
    }
}

impl std::str::FromStr for FontSize {
    type Err = String;

    fn from_str(s: &str) -> (r: Result<FontSize, String>)
        ensures
            font_size_of(s@) is Some ==> r == Ok::<FontSize, String>(font_size_of(s@)->0),
            font_size_of(s@) is None ==> r is Err && r->Err_0@ == message_of(ParseError::MalformedFontSize),
    {
        broadcast use vstd::string::to_string_from_display_ensures_for_str;

        match FontSize::parse(s) {
            Ok(f) => Ok(f),
            Err(e) => Err(e.message().to_string()),
        }
    }
}

/// Ten to the power `n`.
pub open spec fn pow10(n: nat) -> int
    decreases n,
{
    if n == 0 {
        1
    } else {
        10 * pow10((n - 1) as nat)
    }
}

/// Powers of ten grow with the exponent.
pub proof fn lemma_pow10_mono(a: nat, b: nat)
    requires
        a <= b,
    ensures
        1 <= pow10(a) <= pow10(b),
    decreases b,
{
    if a < b {
        lemma_pow10_mono(a, (b - 1) as nat);
    } else if b > 0 {
        lemma_pow10_mono(0, (b - 1) as nat);
    }
}

/// Reading digits after other digits shifts the first ones left.
pub proof fn lemma_digits_concat(a: Seq<char>, b: Seq<char>)
    ensures
        digits_value(a + b) == digits_value(a) * pow10(b.len()) + digits_value(b),
    decreases b.len(),
{
    if b.len() == 0 {
        assert(a + b =~= a);
    } else {
        let b1 = b.drop_last();
        assert((a + b).drop_last() =~= a + b1);
        assert((a + b).last() == b.last());
        lemma_digits_concat(a, b1);
        let x = digits_value(a);
        let p = pow10(b1.len());
        assert((x * p) * 10 == x * (10 * p)) by (nonlinear_arith);
    }
}

/// `10^n` for an exponent of at most `MAX_SCALE`.
pub(crate) fn pow10_u64(n: u32) -> (r: u64)
    requires
        n <= MAX_SCALE,
    ensures
        r == pow10(n as nat),
{
    proof {
        reveal_with_fuel(pow10, 19);
    }
    assert(pow10(18) == 1000000000000000000);
    let mut r: u64 = 1;
    let mut i: u32 = 0;
    while i < n
        invariant
            i <= n <= MAX_SCALE,
            r == pow10(i as nat),
            pow10(18) == 1000000000000000000,
        decreases n - i,
    {
        proof {
            lemma_pow10_mono(i as nat, 17);
        }
        r = r * 10;
        i = i + 1;
    }
    r
}

/// A signed decimal fraction, `mantissa / 10^scale`, negated when `negative`.
#[derive(Debug, Clone, Copy, PartialEq, Eq, Structural)]
pub struct Fraction {
    pub negative: bool,
    pub mantissa: u64,
    pub scale: u32,
}

impl Fraction {
    /// The scale stays within `MAX_SCALE`, so that `10^scale` fits in a `u64`.
    pub open spec fn wf(self) -> bool {
        self.scale <= MAX_SCALE
    }

    /// The signed numerator of the fraction.
    pub open spec fn numerator(self) -> int {
        if self.negative {
            -(self.mantissa as int)
        } else {
            self.mantissa as int
        }
    }

    /// The denominator of the fraction, a power of ten.
    pub open spec fn denominator(self) -> int {
        pow10(self.scale as nat)
    }

    /// Whether the fraction is well formed.
    pub fn is_valid(&self) -> (r: bool)
        ensures
            r == self.wf(),
    {
        self.scale <= MAX_SCALE
    }
}

/// Whether `s` holds a decimal point.
pub open spec fn has_point(s: Seq<char>) -> bool {
    exists|k: int| 0 <= k < s.len() && s[k] == '.'
}

/// Where the decimal point of `s` stands (its length if it has none).
pub open spec fn point_index(s: Seq<char>) -> int {
    if has_point(s) {
        choose|k: int| 0 <= k < s.len() && s[k] == '.'
    } else {
        s.len() as int
    }
}

/// The digits of `s` before its decimal point.
pub open spec fn int_part(s: Seq<char>) -> Seq<char> {
    s.take(point_index(s))
}

/// The digits of `s` after its decimal point.
pub open spec fn frac_part(s: Seq<char>) -> Seq<char> {
    if has_point(s) {
        s.skip(point_index(s) + 1)
    } else {
        Seq::empty()
    }
}

/// `s` without one leading sign.
pub open spec fn unsigned_part(s: Seq<char>) -> Seq<char> {
    if s.len() > 0 && (s[0] == '+' || s[0] == '-') {
        s.drop_first()
    } else {
        s
    }
}

/// The fraction with sign `negative` whose digits before the point are `ip`
/// and after it `fp`: at least one digit in all, at most `MAX_SCALE` after
/// the point, and all of them together worth at most `u64::MAX`.
pub open spec fn fraction_from_parts(negative: bool, ip: Seq<char>, fp: Seq<char>) -> Option<
    Fraction,
> {
    if ip.len() + fp.len() > 0 && all_digits(ip) && all_digits(fp) && fp.len() <= MAX_SCALE
        && digits_value(ip + fp) <= u64::MAX {
        Some(
            Fraction {
                negative,
                mantissa: digits_value(ip + fp) as u64,
                scale: fp.len() as u32,
            },
        )
    } else {
        None
    }
}

/// The fraction that `s` spells in decimal notation: an optional sign, digits,
/// and optionally a point followed by more digits.
///
/// This is narrower than what a floating-point reader takes: there is no
/// exponent (`1e-1`), no `inf` and no `NaN`, at most `MAX_SCALE` digits may
/// follow the point, and the digits together must be worth at most
/// `u64::MAX`. Within it every value is held exactly.
pub open spec fn fraction_of(s: Seq<char>) -> Option<Fraction> {
    let b = unsigned_part(s);
    fraction_from_parts(s.len() > 0 && s[0] == '-', int_part(b), frac_part(b))
}

/// The digits after the point at `p`, or none where `p` is the end of `b`.
pub open spec fn after_point(b: Seq<char>, p: int) -> Seq<char> {
    if p < b.len() {
        b.skip(p + 1)
    } else {
        Seq::empty()
    }
}

/// Splitting at the first point gives the same fraction as splitting at `point_index`.
proof fn lemma_first_point(negative: bool, b: Seq<char>, p: int)
    requires
        0 <= p <= b.len(),
        forall|k: int| 0 <= k < p ==> b[k] != '.',
        p < b.len() ==> b[p] == '.',
    ensures
        fraction_from_parts(negative, int_part(b), frac_part(b)) == fraction_from_parts(
            negative,
            b.take(p),
            after_point(b, p),
        ),
{
    if p < b.len() {
        assert(has_point(b));
        let k = point_index(b);
        assert(0 <= k < b.len() && b[k] == '.');
        if k != p {
            assert(k > p);
            assert(int_part(b)[p] == '.');
            assert(!all_digits(int_part(b)));
            assert(after_point(b, p)[k - p - 1] == '.');
            assert(!all_digits(after_point(b, p)));
        } else {
            assert(int_part(b) =~= b.take(p));
        }
    } else {
        assert(!has_point(b)) by {
            if has_point(b) {
                let j = choose|j: int| 0 <= j < b.len() && b[j] == '.';
                assert(b[j] == '.');
            }
        }
        assert(int_part(b) =~= b.take(p));
        assert(frac_part(b) =~= after_point(b, p));
    }
}

/// Reads the fraction whose digits before the point are `v[ilo..ihi]` and
/// after it `v[flo..fhi]`.
fn fraction_from_parts_in(v: &Vec<char>, negative: bool, ilo: usize, ihi: usize, flo: usize, fhi: usize) -> (r:
    Option<Fraction>)
    requires
        ilo <= ihi <= v.len(),
        flo <= fhi <= v.len(),
    ensures
        r == fraction_from_parts(
            negative,
            v@.subrange(ilo as int, ihi as int),
            v@.subrange(flo as int, fhi as int),
        ),
{
    let ghost ips = v@.subrange(ilo as int, ihi as int);
    let ghost fps = v@.subrange(flo as int, fhi as int);
    let ip = digits_in(v, ilo, ihi);
    let fp = digits_in(v, flo, fhi);
    let flen = fhi - flo;
    match (ip, fp) {
        (Some(iv), Some(fv)) => {
            if (ihi == ilo && flen == 0) || flen > MAX_SCALE as usize {
                return None;
            }
            let scale = flen as u32;
            let pw = pow10_u64(scale);
            proof {
                crate::text::lemma_digits_prefix(ips, 0);
                crate::text::lemma_digits_prefix(fps, 0);
                assert(iv == digits_value(ips) && fv == digits_value(fps));
                assert(fps.len() == scale);
                lemma_digits_concat(ips, fps);
                lemma_pow10_mono(scale as nat, 18);
                reveal_with_fuel(pow10, 19);
                assert(iv * pw <= 18446744073709551615u64 * 1000000000000000000u64)
                    by (nonlinear_arith)
                    requires
                        iv <= 18446744073709551615u64,
                        pw <= 1000000000000000000u64,
                ;
            }
            let m: u128 = iv as u128 * pw as u128 + fv as u128;
            assert(m == digits_value(ips + fps));
            if m > u64::MAX as u128 {
                None
            } else {
                Some(Fraction { negative, mantissa: m as u64, scale })
            }
        },
        _ => {
            proof {
                if all_digits(ips) && all_digits(fps) {
                    lemma_digits_concat(ips, fps);
                    crate::text::lemma_digits_prefix(fps, 0);
                    crate::text::lemma_digits_prefix(ips, 0);
                    lemma_pow10_mono(0, fps.len());
                    let x = digits_value(ips);
                    let y = pow10(fps.len());
                    assert(x * y >= x) by (nonlinear_arith)
                        requires
                            x >= 0,
                            y >= 1,
                    ;
                }
            }
            None
        },
    }
}

/// Reads `v[lo..hi]` as a decimal fraction.
fn fraction_in(v: &Vec<char>, lo: usize, hi: usize) -> (r: Option<Fraction>)
    requires
        lo <= hi <= v.len(),
    ensures
        r == fraction_of(v@.subrange(lo as int, hi as int)),
{
    let ghost s = v@.subrange(lo as int, hi as int);
    let negative = lo < hi && v[lo] == '-';
    let start: usize = if lo < hi && (v[lo] == '+' || v[lo] == '-') {
        lo + 1
    } else {
        lo
    };
    assert(lo < hi ==> s[0] == v@[lo as int]);
    let ghost b = unsigned_part(s);
    assert(b =~= v@.subrange(start as int, hi as int));
    let mut p: usize = start;
    while p < hi && v[p] != '.'
        invariant
            lo <= start <= p <= hi <= v.len(),
            forall|k: int| start <= k < p ==> v@[k] != '.',
        decreases hi - p,
    {
        p = p + 1;
    }
    let flo: usize = if p < hi {
        p + 1
    } else {
        hi
    };
    proof {
        let pr = p - start;
        assert forall|k: int| 0 <= k < pr implies b[k] != '.' by {
            assert(b[k] == v@[start + k]);
        }
        assert(pr < b.len() ==> b[pr] == v@[p as int]);
        lemma_first_point(negative, b, pr);
        assert(b.take(pr) =~= v@.subrange(start as int, p as int));
        assert(after_point(b, pr) =~= v@.subrange(flo as int, hi as int));
    }
    fraction_from_parts_in(v, negative, start, p, flo, hi)
}

/// A size or location of the window: fractions of the monitor, or pixels.
#[derive(Debug, Clone, Copy, PartialEq, Eq, Structural)]
pub enum WindowSize {
    Percent(Fraction, Fraction),
    Pixels(u32, u32),
}

/// A location of the window; it has the grammar of a size.
pub type WindowPosition = WindowSize;

impl WindowSize {
    /// Both fractions of a `Percent` are well formed.
    pub open spec fn wf(self) -> bool {
        match self {
            WindowSize::Percent(x, y) => x.wf() && y.wf(),
            WindowSize::Pixels(_, _) => true,
        }
    }

    /// Whether the specification is well formed.
    pub fn is_valid(&self) -> (r: bool)
        ensures
            r == self.wf(),
    {
        match self {
            WindowSize::Percent(x, y) => x.is_valid() && y.is_valid(),
            WindowSize::Pixels(_, _) => true,
        }
    }
}

/// Whether `k` is the place of the one comma in `s`.
pub open spec fn is_sole_comma(s: Seq<char>, k: int) -> bool {
    &&& 0 <= k < s.len()
    &&& s[k] == ','
    &&& forall|j: int| 0 <= j < s.len() && j != k ==> s[j] != ','
}

/// Whether `s` holds exactly one comma.
pub open spec fn has_sole_comma(s: Seq<char>) -> bool {
    exists|k: int| is_sole_comma(s, k)
}

/// The place of the one comma in `s`.
pub open spec fn comma_index(s: Seq<char>) -> int {
    choose|k: int| is_sole_comma(s, k)
}

/// The specification that the two parts `a` and `b` spell: pixels where `a`
/// ends with `px` (the suffix is then stripped from both), fractions otherwise.
pub open spec fn window_size_of_parts(a: Seq<char>, b: Seq<char>) -> Option<WindowSize> {
    if ends_with_px(a) {
        match (uint_of(strip_px(a)), uint_of(strip_px(b))) {
            (Some(w), Some(h)) => Some(WindowSize::Pixels(w, h)),
            _ => None,
        }
    } else {
        match (fraction_of(a), fraction_of(b)) {
            (Some(x), Some(y)) => Some(WindowSize::Percent(x, y)),
            _ => None,
        }
    }
}

/// The specification that `s` spells: two parts around a single comma.
pub open spec fn window_size_of(s: Seq<char>) -> Option<WindowSize> {
    if has_sole_comma(s) {
        let k = comma_index(s);
        window_size_of_parts(s.take(k), s.skip(k + 1))
    } else {
        None
    }
}

/// A fraction that parses is well formed.
pub proof fn lemma_fraction_wf(s: Seq<char>)
    ensures
        fraction_of(s) is Some ==> fraction_of(s)->0.wf(),
{
}

/// Reads `v[lo..hi]` as an unsigned integer, with a trailing `px` stripped.
fn pixels_in(v: &Vec<char>, lo: usize, hi: usize) -> (r: Option<u32>)
    requires
        lo <= hi <= v.len(),
    ensures
        r == uint_of(strip_px(v@.subrange(lo as int, hi as int))),
{
    if ends_with_px_in(v, lo, hi) {
        assert(strip_px(v@.subrange(lo as int, hi as int)) =~= v@.subrange(lo as int, hi - 2));
        uint_in(v, lo, hi - 2)
    } else {
        uint_in(v, lo, hi)
    }
}

impl WindowSize {
    /// Parses `<width>,<height>`: two integers suffixed with `px`, or two
    /// decimal fractions. Whether the first part ends with `px` decides.
    /// Fractions are read in plain decimal notation only, without exponent,
    /// `inf` or `NaN` (see `fraction_of`).
    pub fn parse(s: &str) -> (r: Result<WindowSize, ParseError>)
        ensures
            r == match window_size_of(s@) {
                Some(w) => Ok(w),
                None => Err(ParseError::MalformedDimension),
            },
            r is Ok ==> r->Ok_0.wf(),
    {
        let v = chars_of(s);
        let n = v.len();
        let mut k: usize = 0;
        while k < n && v[k] != ','
            invariant
                k <= n == v.len(),
                v@ == s@,
                forall|j: int| 0 <= j < k ==> v@[j] != ',',
            decreases n - k,
        {
            k = k + 1;
        }
        if k == n {
            assert(!has_sole_comma(v@));
            return Err(ParseError::MalformedDimension);
        }
        let mut j: usize = k + 1;
        while j < n
            invariant
                k < j <= n == v.len(),
                v@ == s@,
                v@[k as int] == ',',
                forall|i: int| 0 <= i < k ==> v@[i] != ',',
                forall|i: int| k < i < j ==> v@[i] != ',',
            decreases n - j,
        {
            if v[j] == ',' {
                assert(!has_sole_comma(v@)) by {
                    if has_sole_comma(v@) {
                        let c = choose|c: int| is_sole_comma(v@, c);
                        if c == k {
                            assert(v@[j as int] == ',');
                        } else {
                            assert(v@[k as int] == ',');
                        }
                    }
                }
                return Err(ParseError::MalformedDimension);
            }
            j = j + 1;
        }
        assert(is_sole_comma(v@, k as int));
        assert(comma_index(v@) == k) by {
            let c = comma_index(v@);
            assert(is_sole_comma(v@, c));
            if c != k {
                assert(v@[k as int] == ',');
            }
        }
        assert(v@.take(k as int) =~= v@.subrange(0, k as int));
        assert(v@.skip(k + 1) =~= v@.subrange(k + 1, n as int));
        let parsed = if ends_with_px_in(&v, 0, k) {
            match (pixels_in(&v, 0, k), pixels_in(&v, k + 1, n)) {
                (Some(w), Some(h)) => Some(WindowSize::Pixels(w, h)),
                _ => None,
            }
        } else {
            match (fraction_in(&v, 0, k), fraction_in(&v, k + 1, n)) {
                (Some(x), Some(y)) => Some(WindowSize::Percent(x, y)),
                _ => None,
            }
        };
        proof {
            lemma_fraction_wf(v@.subrange(0, k as int));
            lemma_fraction_wf(v@.subrange(k + 1, n as int));
        }
        match parsed {
            Some(w) => Ok(w),
            None => Err(ParseError::MalformedDimension),
        }
    }
}

impl std::str::FromStr for WindowSize {
    type Err = String;

    fn from_str(s: &str) -> (r: Result<WindowSize, String>)
        ensures
            window_size_of(s@) is Some ==> r == Ok::<WindowSize, String>(window_size_of(s@)->0),
            window_size_of(s@) is None ==> r is Err && r->Err_0@ == message_of(ParseError::MalformedDimension),
            r is Ok ==> r->Ok_0.wf(),
    {
        broadcast use vstd::string::to_string_from_display_ensures_for_str;

        match WindowSize::parse(s) {
            Ok(w) => Ok(w),
            Err(e) => Err(e.message().to_string()),
        }
    }
}

/// The configuration of the bar.
#[derive(Debug, Clone)]
pub struct Config {
    /// The size of the window.
    pub size: WindowSize,
    /// The location of the window on the monitor.
    pub location: WindowPosition,
    /// The font size, in pixels.
    pub font_size: FontSize,
    /// The font family, where one is chosen.
    pub font_family: Option<String>,
    /// The background color.
    pub background_color: Color,
    /// The text color.
    pub text_color: Color,
}

} // verus!
