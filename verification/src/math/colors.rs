use vstd::prelude::*;

verus! {

// ---------------------------------------------------------------------------
// Packed 32 bit colours
// ---------------------------------------------------------------------------

/// The four bytes of a packed `0xRRGGBBAA` colour, most significant first.
pub open spec fn unpack_rgba(c: u32) -> (u8, u8, u8, u8) {
    (
        ((c >> 24u32) & 0xFFu32) as u8,
        ((c >> 16u32) & 0xFFu32) as u8,
        ((c >> 8u32) & 0xFFu32) as u8,
        (c & 0xFFu32) as u8,
    )
}

/// Packs four components as `0xRRGGBBAA`.
pub open spec fn pack_rgba(r: u8, g: u8, b: u8, a: u8) -> u32 {
    ((r as u32) << 24u32) | ((g as u32) << 16u32) | ((b as u32) << 8u32) | (a as u32)
}

/// Splits a packed `0xRRGGBBAA` colour into its components.
pub fn color_u32_to_color_u8(c: u32) -> (r: (u8, u8, u8, u8))
    ensures
        r == unpack_rgba(c),
{
    (
        (c >> 24 & 0xFF) as u8,
        (c >> 16 & 0xFF) as u8,
        (c >> 8 & 0xFF) as u8,
        (c & 0xFF) as u8,
    )
}

/// Packing the components of a packed colour gives the colour back.
pub proof fn lemma_unpack_pack(c: u32)
    ensures
        pack_rgba(unpack_rgba(c).0, unpack_rgba(c).1, unpack_rgba(c).2, unpack_rgba(c).3) == c,
{
    assert(((((c >> 24u32) & 0xFFu32) as u8 as u32) << 24u32) | ((((c >> 16u32) & 0xFFu32) as u8
        as u32) << 16u32) | ((((c >> 8u32) & 0xFFu32) as u8 as u32) << 8u32) | ((c & 0xFFu32) as u8
        as u32) == c) by (bit_vector);
}

/// Unpacking a packed colour gives the packed components back.
pub proof fn lemma_pack_unpack(r: u8, g: u8, b: u8, a: u8)
    ensures
        unpack_rgba(pack_rgba(r, g, b, a)) == (r, g, b, a),
{
    let c = pack_rgba(r, g, b, a);
    assert(((c >> 24u32) & 0xFFu32) as u8 == r && ((c >> 16u32) & 0xFFu32) as u8 == g && ((c
        >> 8u32) & 0xFFu32) as u8 == b && (c & 0xFFu32) as u8 == a) by (bit_vector)
        requires
            c == ((r as u32) << 24u32) | ((g as u32) << 16u32) | ((b as u32) << 8u32) | (a as u32),
    ;
}

// ---------------------------------------------------------------------------
// Colour components
// ---------------------------------------------------------------------------

/// A numeric type that can hold one colour component.
pub trait NumColorComponent: Sized {
    /// The value of a fully opaque alpha component.
    spec fn spec_alpha_max() -> Self;

    /// The components of a packed `0xRRGGBBAA` colour.
    spec fn spec_from_u32(val: u32) -> (Self, Self, Self, Self);

    fn alpha_max() -> (r: Self)
        ensures
            r == Self::spec_alpha_max(),
    ;

    fn from_u32(val: u32) -> (r: (Self, Self, Self, Self))
        ensures
            r == Self::spec_from_u32(val),
    ;
}

impl NumColorComponent for u8 {
    open spec fn spec_alpha_max() -> u8 {
        255u8
    }

    open spec fn spec_from_u32(val: u32) -> (u8, u8, u8, u8) {
        unpack_rgba(val)
    }

    fn alpha_max() -> (r: u8) {
        255
    }

    fn from_u32(val: u32) -> (r: (u8, u8, u8, u8)) {
        color_u32_to_color_u8(val)
    }
}


// ---------------------------------------------------------------------------
// RGBA colours
// ---------------------------------------------------------------------------

/// A colour made of red, green, blue and alpha components.
#[derive(Copy, Clone, Debug, PartialEq)]
pub struct TColorRGBA<T> {
    pub r: T,
    pub g: T,
    pub b: T,
    pub a: T,
}

/// A colour with one byte per component.
pub type RGBAColor = TColorRGBA<u8>;

/// Why a colour could not be read from its HTML notation.
pub enum HtmlColorError {
    Empty,
    WrongLength,
    InvalidValue,
}

/// The message that `from_html` reports for an error.
pub open spec fn html_error_message(e: HtmlColorError) -> Seq<char> {
    match e {
        HtmlColorError::Empty => "empty input string"@,
        HtmlColorError::WrongLength => "wrong component count (either 6 or 8 hex color values expected)"@,
        HtmlColorError::InvalidValue => "Invalid color value"@,
    }
}

/// The characters that Unicode gives the `White_Space` property.
pub open spec fn is_unicode_white_space(c: char) -> bool {
    let v = c as u32;
    ||| 0x09 <= v <= 0x0D
    ||| v == 0x20
    ||| v == 0x85
    ||| v == 0xA0
    ||| v == 0x1680
    ||| 0x2000 <= v <= 0x200A
    ||| v == 0x2028
    ||| v == 0x2029
    ||| v == 0x202F
    ||| v == 0x205F
    ||| v == 0x3000
}

/// `s` without its leading white space.
pub open spec fn trim_start_white_space(s: Seq<char>) -> Seq<char>
    decreases s.len(),
{
    if s.len() > 0 && is_unicode_white_space(s[0]) {
        trim_start_white_space(s.drop_first())
    } else {
        s
    }
}

/// `s` without its trailing white space.
pub open spec fn trim_end_white_space(s: Seq<char>) -> Seq<char>
    decreases s.len(),
{
    if s.len() > 0 && is_unicode_white_space(s.last()) {
        trim_end_white_space(s.drop_last())
    } else {
        s
    }
}

/// `s` without its leading and trailing white space.
pub open spec fn trim_white_space(s: Seq<char>) -> Seq<char> {
    trim_end_white_space(trim_start_white_space(s))
}

/// The value of an ASCII hexadecimal digit, if `b` is one.
pub open spec fn hex_digit_value(b: u8) -> Option<u32> {
    if 0x30 <= b <= 0x39 {
        Some((b - 0x30) as u32)
    } else if 0x61 <= b <= 0x66 {
        Some((b - 0x61 + 10) as u32)
    } else if 0x41 <= b <= 0x46 {
        Some((b - 0x41 + 10) as u32)
    } else {
        None
    }
}

/// Every byte of `s` is a hexadecimal digit.
pub open spec fn all_hex_digits(s: Seq<u8>) -> bool {
    forall|i: int| 0 <= i < s.len() ==> (#[trigger] hex_digit_value(s[i])) is Some
}

/// The number that the hexadecimal digits `s` denote.
pub open spec fn hex_value(s: Seq<u8>) -> nat
    decreases s.len(),
{
    if s.len() == 0 {
        0
    } else {
        hex_value(s.drop_last()) * 16 + hex_digit_value(s.last()).unwrap_or(0) as nat
    }
}

/// The digits of a radix 16 number, after the optional `+` sign.
pub open spec fn radix16_digits(s: Seq<u8>) -> Seq<u8> {
    if s.len() > 0 && s[0] == 0x2B {
        s.drop_first()
    } else {
        s
    }
}

/// `u32::from_str_radix(s, 16)` on the bytes `s`: an optional `+`, then at
/// least one hexadecimal digit, denoting a value that fits in a `u32`.
pub open spec fn parse_radix16_u32(s: Seq<u8>) -> Option<u32> {
    let d = radix16_digits(s);
    if d.len() > 0 && all_hex_digits(d) && hex_value(d) <= u32::MAX {
        Some(hex_value(d) as u32)
    } else {
        None
    }
}

/// The bytes after an optional leading `#`.
pub open spec fn html_color_digits(t: Seq<u8>) -> Seq<u8> {
    if t.len() > 0 && t[0] == 0x23 {
        t.drop_first()
    } else {
        t
    }
}

/// The packed `0xRRGGBBAA` value of an HTML colour, given as the UTF-8 bytes
/// of the text once trimmed: six digits are an opaque colour, eight digits
/// carry their own alpha.
pub open spec fn html_color_u32(t: Seq<u8>) -> Result<u32, HtmlColorError> {
    let d = html_color_digits(t);
    if t.len() == 0 {
        Err(HtmlColorError::Empty)
    } else if !(d.len() == 6 || d.len() == 8) {
        Err(HtmlColorError::WrongLength)
    } else {
        match parse_radix16_u32(d) {
            None => Err(HtmlColorError::InvalidValue),
            Some(v) => if d.len() == 6 {
                Ok(((v as int) * 256 + 255) as u32)
            } else {
                Ok(v)
            },
        }
    }
}

/// The UTF-8 bytes of `s` once its white space is trimmed.
pub open spec fn trimmed_bytes(s: Seq<char>) -> Seq<u8> {
    vstd::utf8::encode_utf8(trim_white_space(s))
}

/// A colour built from the components of a packed value.
pub open spec fn color_from_components<T>(c: (T, T, T, T)) -> TColorRGBA<T> {
    TColorRGBA { r: c.0, g: c.1, b: c.2, a: c.3 }
}

/// `str::trim`: the text without leading and trailing characters that have
/// the Unicode `White_Space` property.
#[verifier::external_body]
fn str_trim(s: &str) -> (r: &str)
    ensures
        r@ == trim_white_space(s@),
{
    s.trim()
}

spec fn pow16(n: nat) -> nat
    decreases n,
{
    if n == 0 {
        1
    } else {
        16 * pow16((n - 1) as nat)
    }
}

proof fn lemma_hex_value_bound(s: Seq<u8>)
    requires
        all_hex_digits(s),
    ensures
        hex_value(s) < pow16(s.len()),
    decreases s.len(),
{
    if s.len() > 0 {
        let p = s.drop_last();
        assert(all_hex_digits(p)) by {
            assert forall|i: int| 0 <= i < p.len() implies (#[trigger] hex_digit_value(p[i])) is Some by {
                assert(p[i] == s[i]);
            }
        }
        lemma_hex_value_bound(p);
        assert(hex_digit_value(s[s.len() - 1]) is Some);
        let h = hex_value(p);
        let q = pow16(p.len());
        let d = hex_digit_value(s.last()).unwrap_or(0) as nat;
        assert(d < 16);
        assert(h * 16 + d < q * 16) by (nonlinear_arith)
            requires
                h < q,
                d < 16,
        ;
    }
}

/// Parses the radix 16 digits in `b[start..]`, as `u32::from_str_radix` does,
/// where at most eight digits follow.
fn parse_hex_u32(b: &[u8], start: usize) -> (r: Option<u32>)
    requires
        start <= b@.len(),
        b@.len() - start <= 8,
    ensures
        r == parse_radix16_u32(b@.subrange(start as int, b@.len() as int)),
{
    let ghost s = b@.subrange(start as int, b@.len() as int);
    let mut i: usize = start;
    if i < b.len() && b[i] == 0x2B {
        i = i + 1;
    }
    let ghost d = radix16_digits(s);
    assert(d =~= b@.subrange(i as int, b@.len() as int));
    if i == b.len() {
        return None;
    }
    let first = i;
    let mut v: u64 = 0;
    while i < b.len()
        invariant
            first <= i <= b@.len(),
            b@.len() - first <= 8,
            d =~= b@.subrange(first as int, b@.len() as int),
            s == b@.subrange(start as int, b@.len() as int),
            d == radix16_digits(s),
            d.len() > 0,
            all_hex_digits(b@.subrange(first as int, i as int)),
            v == hex_value(b@.subrange(first as int, i as int)),
            v < pow16((i - first) as nat),
        decreases b@.len() - i,
    {
        let c = b[i];
        let digit: u64 = if 0x30 <= c && c <= 0x39 {
            (c - 0x30) as u64
        } else if 0x61 <= c && c <= 0x66 {
            (c - 0x61 + 10) as u64
        } else if 0x41 <= c && c <= 0x46 {
            (c - 0x41 + 10) as u64
        } else {
            assert(d[(i - first) as int] == c);
            assert(hex_digit_value(d[(i - first) as int]) is None);
            assert(!all_hex_digits(d));
            return None;
        };
        let ghost prev = b@.subrange(first as int, i as int);
        let ghost next = b@.subrange(first as int, i + 1);
        assert(next.drop_last() =~= prev);
        assert(next.last() == c);
        proof {
            assert(pow16((i - first) as nat) <= pow16(7)) by {
                lemma_pow16_monotone((i - first) as nat, 7);
            }
            reveal_with_fuel(pow16, 8);
            assert(pow16(7) == 0x1000_0000);
            assert(v * 16 + digit < pow16((i - first) as nat) * 16) by (nonlinear_arith)
                requires
                    v < pow16((i - first) as nat),
                    digit < 16,
            ;
        }
        v = v * 16 + digit;
        assert(all_hex_digits(next)) by {
            assert forall|j: int| 0 <= j < next.len() implies (#[trigger] hex_digit_value(next[j])) is Some by {
                if j < prev.len() {
                    assert(next[j] == prev[j]);
                }
            }
        }
        i = i + 1;
    }
    assert(b@.subrange(first as int, i as int) =~= d);
    reveal_with_fuel(pow16, 9);
    assert(pow16(8) == 0x1_0000_0000);
    assert(pow16(d.len()) <= pow16(8)) by {
        lemma_pow16_monotone(d.len(), 8);
    }
    Some(v as u32)
}

proof fn lemma_parsed_six_digits_fit(d: Seq<u8>)
    requires
        d.len() == 6,
        parse_radix16_u32(d) is Some,
    ensures
        parse_radix16_u32(d).unwrap() < 0x100_0000,
{
    let digits = radix16_digits(d);
    lemma_hex_value_bound(digits);
    lemma_pow16_monotone(digits.len(), 6);
    reveal_with_fuel(pow16, 7);
    assert(pow16(6) == 0x100_0000);
}

proof fn lemma_pow16_monotone(a: nat, b: nat)
    requires
        a <= b,
    ensures
        pow16(a) <= pow16(b),
    decreases b,
{
    if a < b {
        lemma_pow16_monotone(a, (b - 1) as nat);
    }
}

impl<T: NumColorComponent + Copy> TColorRGBA<T> {
    /// An opaque colour.
    pub fn new(r: T, g: T, b: T) -> (c: Self)
        ensures
            c == (TColorRGBA { r, g, b, a: T::spec_alpha_max() }),
    {
        Self::new_with_alpha(r, g, b, T::alpha_max())
    }

    /// A colour with the given alpha.
    pub fn new_with_alpha(r: T, g: T, b: T, a: T) -> (c: Self)
        ensures
            c == (TColorRGBA { r, g, b, a }),
    {
        TColorRGBA { r, g, b, a }
    }

    /// Reads a colour in HTML notation: six (`RRGGBB`) or eight (`RRGGBBAA`)
    /// hexadecimal digits, with an optional leading `#`, surrounded by any
    /// white space.
    pub fn from_html(s: &str) -> (r: Result<Self, &'static str>)
        ensures
            match html_color_u32(trimmed_bytes(s@)) {
                Ok(v) => r == Ok::<Self, &'static str>(color_from_components(T::spec_from_u32(v))),
                Err(e) => r matches Err(m) && m@ == html_error_message(e),
            },
    {
        let t = str_trim(s);
        let b = t.as_bytes();
        proof {
            assert(b@ == trimmed_bytes(s@));
        }
        if b.len() == 0 {
            return Err("empty input string");
        }
        let start: usize = if b[0] == 0x23 { 1 } else { 0 };
        let len_content = b.len() - start;
        let ghost d = html_color_digits(b@);
        assert(d =~= b@.subrange(start as int, b@.len() as int));
        if !(len_content == 6 || len_content == 8) {
            return Err("wrong component count (either 6 or 8 hex color values expected)");
        }
        match parse_hex_u32(b, start) {
            None => Err("Invalid color value"),
            Some(color_u32) => {
                let color_u32 = if len_content == 6 {
                    proof {
                        lemma_parsed_six_digits_fit(d);
                        assert((color_u32 << 8u32) | 0xFFu32 == color_u32 * 256 + 255)
                            by (bit_vector)
                            requires
                                color_u32 < 0x100_0000u32,
                        ;
                    }
                    (color_u32 << 8) | 0xFF
                } else {
                    color_u32
                };
                let comps = T::from_u32(color_u32);
                Ok(Self::new_with_alpha(comps.0, comps.1, comps.2, comps.3))
            },
        }
    }

    /// The components in the order red, green, blue, alpha.
    pub fn as_slice(&self) -> (s: [T; 4])
        ensures
            s@ == seq![self.r, self.g, self.b, self.a],
    {
        [self.r, self.g, self.b, self.a]
    }
}


impl Default for TColorRGBA<u8> {
    /// All components zero, transparent black.
    fn default() -> (c: Self)
        ensures
            c == (TColorRGBA { r: 0u8, g: 0u8, b: 0u8, a: 0u8 }),
    {
        TColorRGBA { r: 0, g: 0, b: 0, a: 0 }
    }
}

impl<T: NumColorComponent + Copy> From<(T, T, T, T)> for TColorRGBA<T> {
    fn from(c: (T, T, T, T)) -> (r: Self) {
        Self::new_with_alpha(c.0, c.1, c.2, c.3)
    }
}

impl<T: NumColorComponent + Copy> vstd::std_specs::convert::FromSpecImpl<(T, T, T, T)> for TColorRGBA<T> {
    open spec fn obeys_from_spec() -> bool {
        true
    }

    open spec fn from_spec(c: (T, T, T, T)) -> Self {
        TColorRGBA { r: c.0, g: c.1, b: c.2, a: c.3 }
    }
}

impl<T: NumColorComponent + Copy> From<(T, T, T)> for TColorRGBA<T> {
    fn from(c: (T, T, T)) -> (r: Self) {
        Self::new_with_alpha(c.0, c.1, c.2, T::alpha_max())
    }
}

impl<T: NumColorComponent + Copy> vstd::std_specs::convert::FromSpecImpl<(T, T, T)> for TColorRGBA<T> {
    open spec fn obeys_from_spec() -> bool {
        true
    }

    open spec fn from_spec(c: (T, T, T)) -> Self {
        TColorRGBA { r: c.0, g: c.1, b: c.2, a: T::spec_alpha_max() }
    }
}

impl<T: NumColorComponent + Copy> From<[T; 4]> for TColorRGBA<T> {
    fn from(c: [T; 4]) -> (r: Self) {
        Self::new_with_alpha(c[0], c[1], c[2], c[3])
    }
}

impl<T: NumColorComponent + Copy> vstd::std_specs::convert::FromSpecImpl<[T; 4]> for TColorRGBA<T> {
    open spec fn obeys_from_spec() -> bool {
        true
    }

    open spec fn from_spec(c: [T; 4]) -> Self {
        TColorRGBA { r: c@[0], g: c@[1], b: c@[2], a: c@[3] }
    }
}

impl<T: NumColorComponent + Copy> From<[T; 3]> for TColorRGBA<T> {
    fn from(c: [T; 3]) -> (r: Self) {
        Self::new_with_alpha(c[0], c[1], c[2], T::alpha_max())
    }
}

impl<T: NumColorComponent + Copy> vstd::std_specs::convert::FromSpecImpl<[T; 3]> for TColorRGBA<T> {
    open spec fn obeys_from_spec() -> bool {
        true
    }

    open spec fn from_spec(c: [T; 3]) -> Self {
        TColorRGBA { r: c@[0], g: c@[1], b: c@[2], a: T::spec_alpha_max() }
    }
}

impl From<TColorRGBA<u8>> for u32 {
    fn from(c: TColorRGBA<u8>) -> (r: u32) {
        (c.r as u32) << 24 | (c.g as u32) << 16 | (c.b as u32) << 8 | (c.a as u32)
    }
}

impl vstd::std_specs::convert::FromSpecImpl<TColorRGBA<u8>> for u32 {
    open spec fn obeys_from_spec() -> bool {
        true
    }

    open spec fn from_spec(c: TColorRGBA<u8>) -> u32 {
        pack_rgba(c.r, c.g, c.b, c.a)
    }
}

/// Reading a colour from its packed value and packing it again gives the
/// value back.
pub proof fn lemma_color_u32_roundtrip(v: u32)
    ensures
        ({
            let c = color_from_components(<u8 as NumColorComponent>::spec_from_u32(v));
            pack_rgba(c.r, c.g, c.b, c.a) == v
        }),
{
    lemma_unpack_pack(v);
}

/// A colour read from HTML notation packs to the digits it was written with
/// (followed by `FF` when the alpha was left out).
pub proof fn lemma_from_html_packs_to_digits(s: Seq<char>)
    requires
        html_color_u32(trimmed_bytes(s)) is Ok,
    ensures
        ({
            let v = html_color_u32(trimmed_bytes(s))->Ok_0;
            let c = color_from_components(<u8 as NumColorComponent>::spec_from_u32(v));
            pack_rgba(c.r, c.g, c.b, c.a) == v
        }),
{
    lemma_unpack_pack(html_color_u32(trimmed_bytes(s))->Ok_0);
}

} // verus!
