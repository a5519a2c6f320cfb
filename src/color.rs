use vstd::prelude::*;
use vstd::string::*;
use crate::level::Level;
use crate::text::{decimal, decimal_text, trim, trim_of, join};

verus! {

/// A true color: three 8-bit channels.
#[derive(Debug, Clone, Copy, PartialEq, Eq, Structural, PartialOrd, Ord, Hash)]
pub struct Color {
    pub r: u8,
    pub g: u8,
    pub b: u8,
}

impl Color {
    pub fn red() -> (c: Color)
        ensures
            c == (Color { r: 255, g: 0, b: 0 }),
    {
        Color { r: 255, g: 0, b: 0 }
    }
    pub fn green() -> (c: Color)
        ensures
            c == (Color { r: 0, g: 255, b: 0 }),
    {
        Color { r: 0, g: 255, b: 0 }
    }
    pub fn blue() -> (c: Color)
        ensures
            c == (Color { r: 0, g: 0, b: 255 }),
    {
        Color { r: 0, g: 0, b: 255 }
    }
    pub fn yellow() -> (c: Color)
        ensures
            c == (Color { r: 255, g: 255, b: 0 }),
    {
        Color { r: 255, g: 255, b: 0 }
    }
    pub fn magenta() -> (c: Color)
        ensures
            c == (Color { r: 255, g: 0, b: 255 }),
    {
        Color { r: 255, g: 0, b: 255 }
    }
    pub fn cyan() -> (c: Color)
        ensures
            c == (Color { r: 0, g: 255, b: 255 }),
    {
        Color { r: 0, g: 255, b: 255 }
    }
    pub fn white() -> (c: Color)
        ensures
            c == (Color { r: 255, g: 255, b: 255 }),
    {
        Color { r: 255, g: 255, b: 255 }
    }
    pub fn black() -> (c: Color)
        ensures
            c == (Color { r: 0, g: 0, b: 0 }),
    {
        Color { r: 0, g: 0, b: 0 }
    }
    pub fn gray() -> (c: Color)
        ensures
            c == (Color { r: 128, g: 128, b: 128 }),
    {
        Color { r: 128, g: 128, b: 128 }
    }

    pub fn cl_error() -> (c: Color)
        ensures
            c == (Color { r: 255, g: 55, b: 55 }),
    {
        Color { r: 255, g: 55, b: 55 }
    }
    pub fn cl_warn() -> (c: Color)
        ensures
            c == (Color { r: 255, g: 166, b: 55 }),
    {
        Color { r: 255, g: 166, b: 55 }
    }
    pub fn cl_info() -> (c: Color)
        ensures
            c == (Color { r: 62, g: 255, b: 55 }),
    {
        Color { r: 62, g: 255, b: 55 }
    }
    pub fn cl_debug() -> (c: Color)
        ensures
            c == (Color { r: 48, g: 166, b: 255 }),
    {
        Color { r: 48, g: 166, b: 255 }
    }
    pub fn cl_trace() -> (c: Color)
        ensures
            c == (Color { r: 255, g: 55, b: 255 }),
    {
        Color { r: 255, g: 55, b: 255 }
    }
}

/// The built-in palette: the color of a level that has no override.
pub open spec fn default_color(level: Level) -> Color {
    match level {
        Level::Error => Color { r: 255, g: 55, b: 55 },
        Level::Warn => Color { r: 255, g: 166, b: 55 },
        Level::Info => Color { r: 62, g: 255, b: 55 },
        Level::Debug => Color { r: 48, g: 166, b: 255 },
        Level::Trace => Color { r: 255, g: 55, b: 255 },
    }
}

pub open spec fn is_digit(c: char) -> bool {
    '0' <= c && c <= '9'
}

/// Value of a run of decimal digits.
pub open spec fn digits_value(s: Seq<char>) -> nat
    decreases s.len(),
{
    if s.len() == 0 {
        0
    } else {
        digits_value(s.drop_last()) * 10 + ((s.last() as nat) - ('0' as nat)) as nat
    }
}

/// A run of ASCII digits only.
pub open spec fn all_digits(d: Seq<char>) -> bool {
    forall|i: int| 0 <= i < d.len() ==> is_digit(#[trigger] d[i])
}

/// What follows an optional leading `+`.
pub open spec fn unsigned_part(s: Seq<char>) -> Seq<char> {
    if s.len() > 0 && s[0] == '+' { s.drop_first() } else { s }
}

/// What `u8::from_str` accepts: an optional `+`, then one or more ASCII
/// digits whose value fits in a byte.
pub open spec fn parse_byte(s: Seq<char>) -> Option<u8> {
    let d = unsigned_part(s);
    if d.len() > 0 && all_digits(d) && digits_value(d) <= 255 {
        Some(digits_value(d) as u8)
    } else {
        None
    }
}

/// Index of the first comma at or after `start`, or the length when there is none.
pub open spec fn next_comma(s: Seq<char>, start: int) -> int
    decreases s.len() - start,
{
    if start < 0 || start >= s.len() {
        s.len() as int
    } else if s[start] == ',' {
        start
    } else {
        next_comma(s, start + 1)
    }
}

/// Start of the comma-separated field `k`, or `None` when there are fewer fields.
pub open spec fn field_start(s: Seq<char>, k: nat) -> Option<int>
    decreases k,
{
    if k == 0 {
        Some(0)
    } else {
        match field_start(s, (k - 1) as nat) {
            Some(p) => {
                let e = next_comma(s, p);
                if e < s.len() { Some(e + 1) } else { None }
            },
            None => None,
        }
    }
}

/// The channel read from field `k` of `s`: the trimmed field as a byte, and 0
/// when the field is missing or is not a byte.
pub open spec fn channel_of(s: Seq<char>, k: nat) -> u8 {
    match field_start(s, k) {
        Some(p) => match parse_byte(trim_of(s.subrange(p, next_comma(s, p)))) {
            Some(v) => v,
            None => 0,
        },
        None => 0,
    }
}

/// The color that a text of the form `"r, g, b"` describes.
pub open spec fn parsed_color(s: Seq<char>) -> Color {
    Color { r: channel_of(s, 0), g: channel_of(s, 1), b: channel_of(s, 2) }
}

/// The text `"r, g, b"` of a color.
pub open spec fn color_text(c: Color) -> Seq<char> {
    decimal_text(c.r as nat) + seq![',', ' '] + decimal_text(c.g as nat) + seq![',', ' ']
        + decimal_text(c.b as nat)
}

proof fn lemma_saturated_step(v: nat, d: nat)
    requires
        d < 10,
    ensures
        (if v * 10 + d > 256 { 256 } else { v * 10 + d }) == ({
            let w: nat = if v > 256 { 256 } else { v };
            if w * 10 + d > 256 { 256nat } else { w * 10 + d }
        }),
{
    if v > 256 {
        assert(v * 10 + d > 256) by (nonlinear_arith)
            requires v > 256;
    }
}

/// The byte that `s` denotes, as `u8::from_str` reads it.
pub fn parse_u8(s: &str) -> (r: Option<u8>)
    ensures
        r == parse_byte(s@),
{
    let n = s.unicode_len();
    let mut i: usize = 0;
    if n > 0 && s.get_char(0) == '+' {
        i = 1;
    }
    let ghost d = unsigned_part(s@);
    let ghost start = i as int;
    assert(d =~= s@.subrange(start, n as int));
    if i == n {
        return None;
    }
    let mut acc: u32 = 0;
    while i < n
        invariant
            0 <= start <= i <= n,
            n == s@.len(),
            d =~= s@.subrange(start, n as int),
            d == unsigned_part(s@),
            forall|j: int| start <= j < i ==> is_digit(#[trigger] s@[j]),
            acc as nat == (if digits_value(s@.subrange(start, i as int)) > 256 { 256 } else {
                digits_value(s@.subrange(start, i as int))
            }),
        decreases n - i,
    {
        let c = s.get_char(i);
        if c < '0' || c > '9' {
            assert(d[i - start] == c);
            assert(!is_digit(d[i - start]));
            return None;
        }
        let digit = (c as u32) - ('0' as u32);
        proof {
            let p = s@.subrange(start, i as int);
            let q = s@.subrange(start, i + 1);
            assert(q.drop_last() =~= p);
            assert(q.last() == c);
            lemma_saturated_step(digits_value(p), digit as nat);
        }
        acc = if acc * 10 + digit > 256 { 256 } else { acc * 10 + digit };
        i = i + 1;
    }
    assert(s@.subrange(start, n as int) =~= d);
    assert(forall|j: int| 0 <= j < d.len() ==> is_digit(#[trigger] d[j])) by {
        assert forall|j: int| 0 <= j < d.len() implies is_digit(#[trigger] d[j]) by {
            assert(d[j] == s@[start + j]);
        }
    }
    if acc <= 255 {
        Some(acc as u8)
    } else {
        None
    }
}

/// Index of the first comma at or after `start`.
fn find_comma(s: &str, n: usize, start: usize) -> (r: usize)
    requires
        n == s@.len(),
        start <= n,
    ensures
        r as int == next_comma(s@, start as int),
        start <= r <= n,
{
    let mut i = start;
    while i < n
        invariant
            start <= i <= n,
            n == s@.len(),
            next_comma(s@, i as int) == next_comma(s@, start as int),
        decreases n - i,
    {
        if s.get_char(i) == ',' {
            return i;
        }
        i = i + 1;
    }
    i
}

impl Color {
    pub fn from_rgb(r: u8, g: u8, b: u8) -> (c: Color)
        ensures
            c == (Color { r, g, b }),
    {
        Color { r, g, b }
    }

    /// The built-in color of a level.
    pub fn of_level(level: Level) -> (c: Color)
        ensures
            c == default_color(level),
    {
        match level {
            Level::Error => Color::cl_error(),
            Level::Warn => Color::cl_warn(),
            Level::Info => Color::cl_info(),
            Level::Debug => Color::cl_debug(),
            Level::Trace => Color::cl_trace(),
        }
    }

    /// Reads `"r, g, b"`. Each channel is its comma-separated field, trimmed and
    /// read as a byte; a missing or malformed field gives 0.
    pub fn parse(text: &str) -> (c: Color)
        ensures
            c == parsed_color(text@),
    {
        let n = text.unicode_len();
        let mut channels: [u8; 3] = [0, 0, 0];
        let mut start: usize = 0;
        let mut k: usize = 0;
        let mut more = true;
        while k < 3
            invariant
                n == text@.len(),
                k <= 3,
                more ==> start <= n && field_start(text@, k as nat) == Some(start as int),
                !more ==> field_start(text@, k as nat) is None,
                forall|j: int| 0 <= j < k ==> channels[j] == channel_of(text@, j as nat),
            decreases 3 - k,
        {
            if more {
                let end = find_comma(text, n, start);
                let field = text.substring_char(start, end);
                let v = match parse_u8(trim(field)) {
                    Some(v) => v,
                    None => 0,
                };
                channels[k] = v;
                if end < n {
                    start = end + 1;
                } else {
                    more = false;
                }
            } else {
                channels[k] = 0;
            }
            k = k + 1;
        }
        Color { r: channels[0], g: channels[1], b: channels[2] }
    }

    /// The text `"r, g, b"`.
    pub fn to_text(&self) -> (s: String)
        ensures
            s@ == color_text(*self),
    {
        let sep = ", ";
        proof { reveal_strlit(", "); }
        let s = join(decimal(self.r as u32), sep);
        let s = join(s, decimal(self.g as u32).as_str());
        let s = join(s, sep);
        join(s, decimal(self.b as u32).as_str())
    }
}

impl From<(u8, u8, u8)> for Color {
    fn from(t: (u8, u8, u8)) -> (c: Color) {
        Color { r: t.0, g: t.1, b: t.2 }
    }
}

impl vstd::std_specs::convert::FromSpecImpl<(u8, u8, u8)> for Color {
    open spec fn obeys_from_spec() -> bool {
        true
    }

    open spec fn from_spec(t: (u8, u8, u8)) -> Color {
        Color { r: t.0, g: t.1, b: t.2 }
    }
}

impl From<Level> for Color {
    fn from(level: Level) -> (c: Color) {
        Color::of_level(level)
    }
}

impl vstd::std_specs::convert::FromSpecImpl<Level> for Color {
    open spec fn obeys_from_spec() -> bool {
        true
    }

    open spec fn from_spec(level: Level) -> Color {
        default_color(level)
    }
}

impl From<String> for Color {
    fn from(text: String) -> (c: Color) {
        Color::parse(text.as_str())
    }
}

impl vstd::std_specs::convert::FromSpecImpl<String> for Color {
    open spec fn obeys_from_spec() -> bool {
        true
    }

    open spec fn from_spec(text: String) -> Color {
        parsed_color(text@)
    }
}

} // verus!
