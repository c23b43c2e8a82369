use vstd::prelude::*;
use vstd::string::StrSliceExecFns;

verus! {

/// A terminal color as the dashboard uses it.
#[derive(Debug, PartialEq, Eq, Clone, Copy, Structural)]
pub enum Color {
    Rgb(u8, u8, u8),
    Reset,
    White,
}

/// The value of a hexadecimal digit (either case), if `c` is one.
pub open spec fn hex_digit(c: char) -> Option<nat> {
    if '0' <= c && c <= '9' {
        Some((c as u32 - '0' as u32) as nat)
    } else if 'a' <= c && c <= 'f' {
        Some((c as u32 - 'a' as u32 + 10) as nat)
    } else if 'A' <= c && c <= 'F' {
        Some((c as u32 - 'A' as u32 + 10) as nat)
    } else {
        None
    }
}

/// The number that a run of hexadecimal digits denotes; `None` if some
/// character is not a hexadecimal digit. The empty run denotes 0.
pub open spec fn hex_digits_value(s: Seq<char>) -> Option<nat>
    decreases s.len(),
{
    if s.len() == 0 {
        Some(0)
    } else {
        match (hex_digits_value(s.drop_last()), hex_digit(s.last())) {
            (Some(v), Some(d)) => Some(v * 16 + d),
            _ => None,
        }
    }
}

/// What `u32::from_str_radix(s, 16)` returns: an optional `+` sign followed by
/// at least one hexadecimal digit, whose value fits in a `u32`.
pub open spec fn parse_hex_u32(s: Seq<char>) -> Option<u32> {
    let body = if s.len() > 0 && s[0] == '+' {
        s.drop_first()
    } else {
        s
    };
    if body.len() == 0 {
        None
    } else {
        match hex_digits_value(body) {
            Some(v) => if v <= u32::MAX {
                Some(v as u32)
            } else {
                None
            },
            None => None,
        }
    }
}

/// The string without its leading `#` characters (`trim_start_matches('#')`).
pub open spec fn strip_hashes(s: Seq<char>) -> Seq<char>
    decreases s.len(),
{
    if s.len() > 0 && s[0] == '#' {
        strip_hashes(s.drop_first())
    } else {
        s
    }
}

/// The red, green and blue bytes of `0xRRGGBB` (higher bits ignored).
pub open spec fn rgb_channels(v: u32) -> (u8, u8, u8) {
    (((v / 0x10000) % 0x100) as u8, ((v / 0x100) % 0x100) as u8, (v % 0x100) as u8)
}

/// The color that a `#RRGGBB`-style string denotes: leading `#`s are dropped
/// and the rest is read as a hexadecimal `u32`.
pub open spec fn hex_color(s: Seq<char>) -> Option<(u8, u8, u8)> {
    match parse_hex_u32(strip_hashes(s)) {
        Some(v) => Some(rgb_channels(v)),
        None => None,
    }
}

proof fn lemma_strip_hashes_skip(s: Seq<char>, k: int)
    requires
        0 <= k <= s.len(),
        forall|j: int| 0 <= j < k ==> s[j] == '#',
        k == s.len() || s[k] != '#',
    ensures
        strip_hashes(s) == s.skip(k),
    decreases k,
{
    if k == 0 {
        assert(s.skip(0) =~= s);
    } else {
        lemma_strip_hashes_skip(s.drop_first(), k - 1);
        assert(s.drop_first().skip(k - 1) =~= s.skip(k));
    }
}

proof fn lemma_value_grows(s: Seq<char>, k: int)
    requires
        0 <= k <= s.len(),
        hex_digits_value(s.take(k)) is Some,
        hex_digits_value(s) is Some,
    ensures
        hex_digits_value(s)->0 >= hex_digits_value(s.take(k))->0,
    decreases s.len(),
{
    if k < s.len() {
        assert(s.drop_last().take(k) =~= s.take(k));
        lemma_value_grows(s.drop_last(), k);
    } else {
        assert(s.take(k) =~= s);
    }
}

proof fn lemma_value_step(s: Seq<char>, k: int)
    requires
        0 <= k < s.len(),
    ensures
        hex_digits_value(s.take(k + 1)) == (match (hex_digits_value(s.take(k)), hex_digit(s[k])) {
            (Some(v), Some(d)) => Some(v * 16 + d),
            _ => None,
        }),
{
    assert(s.take(k + 1).drop_last() =~= s.take(k));
}

/// The value of the hexadecimal digits of `s` from position `start` on, as
/// `u32::from_str_radix` reads them.
fn hex_value_from(s: &str, len: usize, start: usize) -> (r: Option<u32>)
    requires
        len == s@.len(),
        start < len,
    ensures
        r == (match hex_digits_value(s@.skip(start as int)) {
            Some(v) => if v <= u32::MAX {
                Some(v as u32)
            } else {
                None
            },
            None => None,
        }),
{
    let ghost body = s@.skip(start as int);
    let mut acc: u64 = 0;
    let mut i: usize = start;
    while i < len
        invariant
            len == s@.len(),
            start <= i <= len,
            body == s@.skip(start as int),
            hex_digits_value(body.take(i - start)) == Some(acc as nat),
            acc <= u32::MAX,
        decreases len - i,
    {
        let c = s.get_char(i);
        proof {
            lemma_value_step(body, i - start);
        }
        let d: u64 = if '0' <= c && c <= '9' {
            (c as u32 - '0' as u32) as u64
        } else if 'a' <= c && c <= 'f' {
            (c as u32 - 'a' as u32 + 10) as u64
        } else if 'A' <= c && c <= 'F' {
            (c as u32 - 'A' as u32 + 10) as u64
        } else {
            proof {
                lemma_none_extends(body, i - start + 1);
            }
            return None;
        };
        let next = acc * 16 + d;
        if next > 0xffff_ffff {
            proof {
                if hex_digits_value(body) is Some {
                    lemma_value_grows(body, i - start + 1);
                }
            }
            return None;
        }
        acc = next;
        i += 1;
    }
    assert(body.take(len - start) =~= body);
    Some(acc as u32)
}

proof fn lemma_none_extends(s: Seq<char>, k: int)
    requires
        0 <= k <= s.len(),
        hex_digits_value(s.take(k)) is None,
    ensures
        hex_digits_value(s) is None,
    decreases s.len(),
{
    if k < s.len() {
        assert(s.drop_last().take(k) =~= s.take(k));
        lemma_none_extends(s.drop_last(), k);
    } else {
        assert(s.take(k) =~= s);
    }
}

/// Reads `s` from position `from` on as `u32::from_str_radix(.., 16)` does.
pub(crate) fn parse_hex_u32_str(s: &str, len: usize, from: usize) -> (r: Option<u32>)
    requires
        len == s@.len(),
        from <= len,
    ensures
        r == parse_hex_u32(s@.skip(from as int)),
{
    if from == len {
        return None;
    }
    if s.get_char(from) == '+' {
        assert(s@.skip(from as int).drop_first() =~= s@.skip(from + 1));
        if from + 1 == len {
            return None;
        }
        hex_value_from(s, len, from + 1)
    } else {
        hex_value_from(s, len, from)
    }
}

/// The red, green and blue bytes of `0xRRGGBB`.
pub(crate) fn rgb_of(v: u32) -> (c: (u8, u8, u8))
    ensures
        c == rgb_channels(v),
{
    let r = ((v >> 16) & 0xff) as u8;
    let g = ((v >> 8) & 0xff) as u8;
    let b = (v & 0xff) as u8;
    assert((v >> 16) & 0xff == (v / 0x10000) % 0x100) by (bit_vector);
    assert((v >> 8) & 0xff == (v / 0x100) % 0x100) by (bit_vector);
    assert(v & 0xff == v % 0x100) by (bit_vector);
    (r, g, b)
}

/// The color of a `#RRGGBB`-style string, if it reads as a hexadecimal number.
pub fn hex_rgb(hex: &str) -> (r: Option<(u8, u8, u8)>)
    ensures
        r == hex_color(hex@),
{
    let len = hex.unicode_len();
    let mut k: usize = 0;
    while k < len && hex.get_char(k) == '#'
        invariant
            len == hex@.len(),
            k <= len,
            forall|j: int| 0 <= j < k ==> hex@[j] == '#',
        decreases len - k,
    {
        k += 1;
    }
    proof {
        lemma_strip_hashes_skip(hex@, k as int);
    }
    match parse_hex_u32_str(hex, len, k) {
        Some(v) => {
            let r = ((v >> 16) & 0xff) as u8;
            let g = ((v >> 8) & 0xff) as u8;
            let b = (v & 0xff) as u8;
            assert((v >> 16) & 0xff == (v / 0x10000) % 0x100) by (bit_vector);
            assert((v >> 8) & 0xff == (v / 0x100) % 0x100) by (bit_vector);
            assert(v & 0xff == v % 0x100) by (bit_vector);
            Some((r, g, b))
        },
        None => None,
    }
}

/// Leading `#` signs do not change the color that a string denotes.
pub proof fn law_leading_hash_ignored(s: Seq<char>)
    ensures
        hex_color(seq!['#'] + s) == hex_color(s),
{
    assert((seq!['#'] + s).drop_first() =~= s);
}

/// The uppercase hexadecimal digit for a value below 16.
pub open spec fn hex_char(n: nat) -> char {
    if n == 0 { '0' } else if n == 1 { '1' } else if n == 2 { '2' } else if n == 3 { '3' }
    else if n == 4 { '4' } else if n == 5 { '5' } else if n == 6 { '6' } else if n == 7 { '7' }
    else if n == 8 { '8' } else if n == 9 { '9' } else if n == 10 { 'A' } else if n == 11 { 'B' }
    else if n == 12 { 'C' } else if n == 13 { 'D' } else if n == 14 { 'E' } else { 'F' }
}

/// The `#RRGGBB` text of a color.
pub open spec fn hex_text(r: u8, g: u8, b: u8) -> Seq<char> {
    seq![
        '#',
        hex_char((r / 16) as nat),
        hex_char((r % 16) as nat),
        hex_char((g / 16) as nat),
        hex_char((g % 16) as nat),
        hex_char((b / 16) as nat),
        hex_char((b % 16) as nat),
    ]
}

proof fn lemma_hex_char(n: nat)
    requires
        n < 16,
    ensures
        hex_digit(hex_char(n)) == Some(n),
        hex_char(n) != '#',
        hex_char(n) != '+',
{
}

/// Reading the `#RRGGBB` text of a color gives that color back.
pub proof fn law_hex_round_trip(r: u8, g: u8, b: u8)
    ensures
        hex_color(hex_text(r, g, b)) == Some((r, g, b)),
{
    let t = hex_text(r, g, b);
    let d = t.drop_first();
    let ds: Seq<nat> = seq![
        (r / 16) as nat,
        (r % 16) as nat,
        (g / 16) as nat,
        (g % 16) as nat,
        (b / 16) as nat,
        (b % 16) as nat,
    ];
    assert forall|k: int| 0 <= k < 6 implies hex_digit(#[trigger] d[k]) == Some(ds[k]) && d[k] != '#' by {
        lemma_hex_char(ds[k]);
    }
    assert(strip_hashes(d) == d);
    assert(strip_hashes(t) == d);
    assert(d.take(1).drop_last() =~= d.take(0));
    assert(d.take(2).drop_last() =~= d.take(1));
    assert(d.take(3).drop_last() =~= d.take(2));
    assert(d.take(4).drop_last() =~= d.take(3));
    assert(d.take(5).drop_last() =~= d.take(4));
    assert(d.take(6).drop_last() =~= d.take(5));
    assert(d.take(6) =~= d);
    assert(hex_digits_value(d.take(0)) == Some(0nat));
    assert(hex_digits_value(d.take(1)) == Some(ds[0]));
    assert(hex_digits_value(d.take(2)) == Some(ds[0] * 16 + ds[1]));
    assert(hex_digits_value(d.take(3)) == Some((ds[0] * 16 + ds[1]) * 16 + ds[2]));
    assert(hex_digits_value(d.take(4)) == Some(((ds[0] * 16 + ds[1]) * 16 + ds[2]) * 16 + ds[3]));
    assert(hex_digits_value(d.take(5)) == Some((((ds[0] * 16 + ds[1]) * 16 + ds[2]) * 16 + ds[3]) * 16 + ds[4]));
    let v = ((((ds[0] * 16 + ds[1]) * 16 + ds[2]) * 16 + ds[3]) * 16 + ds[4]) * 16 + ds[5];
    assert(hex_digits_value(d) == Some(v));
    assert(v == r * 65536 + g * 256 + b) by (nonlinear_arith)
        requires
            v == ((((ds[0] * 16 + ds[1]) * 16 + ds[2]) * 16 + ds[3]) * 16 + ds[4]) * 16 + ds[5],
            ds[0] == r / 16,
            ds[1] == r % 16,
            ds[2] == g / 16,
            ds[3] == g % 16,
            ds[4] == b / 16,
            ds[5] == b % 16,
    ;
    let w = (r * 65536 + g * 256 + b) as u32;
    assert(w / 0x10000 % 0x100 == r && w / 0x100 % 0x100 == g && w % 0x100 == b) by (nonlinear_arith)
        requires
            w == r * 65536 + g * 256 + b,
            r < 256,
            g < 256,
            b < 256,
    ;
}

} // verus!
