//! Base64 and the `data:` URIs built with it.
use vstd::prelude::*;
use crate::text::{chars_of, ends_with, extend_chars, string_of};

verus! {

/// The character for a 6-bit value in the standard Base64 alphabet.
pub open spec fn b64_digit(n: int) -> char {
    if n < 26 {
        ('A' as int + n) as char
    } else if n < 52 {
        ('a' as int + n - 26) as char
    } else if n < 62 {
        ('0' as int + n - 52) as char
    } else if n == 62 {
        '+'
    } else {
        '/'
    }
}

/// The four characters for one to three bytes (`b` has length 1 to 3),
/// padded with `=`.
pub open spec fn b64_group(b: Seq<u8>) -> Seq<char> {
    let b0 = b[0] as int;
    let b1 = if b.len() > 1 { b[1] as int } else { 0 };
    let b2 = if b.len() > 2 { b[2] as int } else { 0 };
    seq![
        b64_digit(b0 / 4),
        b64_digit((b0 % 4) * 16 + b1 / 16),
        if b.len() > 1 { b64_digit((b1 % 16) * 4 + b2 / 64) } else { '=' },
        if b.len() > 2 { b64_digit(b2 % 64) } else { '=' },
    ]
}

/// Standard Base64 (RFC 4648) of `b`, with padding.
pub open spec fn base64_of(b: Seq<u8>) -> Seq<char>
    decreases b.len(),
{
    if b.len() == 0 {
        Seq::<char>::empty()
    } else if b.len() <= 3 {
        b64_group(b)
    } else {
        b64_group(b.take(3)) + base64_of(b.skip(3))
    }
}

/// Base64 turns every started group of three bytes into four characters.
pub proof fn lemma_base64_len(b: Seq<u8>)
    ensures
        base64_of(b).len() == 4 * ((b.len() + 2) / 3),
    decreases b.len(),
{
    if b.len() > 3 {
        lemma_base64_len(b.skip(3));
    }
}

fn digit(n: u32) -> (r: char)
    requires
        n < 64,
    ensures
        r == b64_digit(n as int),
{
    if n < 26 {
        ((65 + n) as u8) as char
    } else if n < 52 {
        ((97 + n - 26) as u8) as char
    } else if n < 62 {
        ((48 + n - 52) as u8) as char
    } else if n == 62 {
        '+'
    } else {
        '/'
    }
}

/// Standard Base64 of `data`, with padding.
pub fn base64(data: &Vec<u8>) -> (r: String)
    ensures
        r@ == base64_of(data@),
{
    let n = data.len();
    let mut out: Vec<char> = Vec::new();
    let mut i: usize = 0;
    assert(data@.skip(0) =~= data@);
    while i < n
        invariant
            n == data@.len(),
            i <= n,
            out@ + base64_of(data@.skip(i as int)) == base64_of(data@),
        decreases n - i,
    {
        let ghost rest = data@.skip(i as int);
        let left = n - i;
        let b0 = data[i] as u32;
        let b1: u32 = if left > 1 { data[i + 1] as u32 } else { 0 };
        let b2: u32 = if left > 2 { data[i + 2] as u32 } else { 0 };
        let ghost g = if rest.len() <= 3 { rest } else { rest.take(3) };
        assert(g[0] == data@[i as int]);
        assert(g.len() > 1 ==> g[1] == data@[i + 1]);
        assert(g.len() > 2 ==> g[2] == data@[i + 2]);
        let ghost before = out@;
        out.push(digit(b0 / 4));
        out.push(digit((b0 % 4) * 16 + b1 / 16));
        if left > 1 {
            out.push(digit((b1 % 16) * 4 + b2 / 64));
        } else {
            out.push('=');
        }
        if left > 2 {
            out.push(digit(b2 % 64));
        } else {
            out.push('=');
        }
        assert(out@ =~= before + b64_group(g));
        if left <= 3 {
            assert(data@.skip(n as int) =~= Seq::<u8>::empty());
            i = n;
        } else {
            assert(rest.skip(3) =~= data@.skip(i + 3));
            i += 3;
        }
    }
    assert(data@.skip(n as int) =~= Seq::<u8>::empty());
    assert(out@ + Seq::<char>::empty() =~= out@);
    string_of(&out)
}

/// The largest SVG icon, in bytes, that a plugin may show.
pub const MAX_ICON: usize = 131072;

/// Whether a plugin's icon path names an SVG file.
pub open spec fn is_svg_name(icon: Seq<char>) -> bool {
    ".svg"@.is_suffix_of(icon)
}

/// Whether a plugin's icon path ends in `.svg`; only such icons are shown.
pub fn icon_is_svg(icon: &str) -> (r: bool)
    ensures
        r == is_svg_name(icon@),
{
    ends_with(icon, ".svg")
}

/// An SVG icon as a `data:` URI, or nothing when it is over `MAX_ICON`
/// bytes.
pub fn svg_data_uri(bytes: &Vec<u8>) -> (r: Option<String>)
    ensures
        r is Some <==> bytes@.len() <= MAX_ICON,
        r matches Some(s) ==> s@ == "data:image/svg+xml;base64,"@ + base64_of(bytes@),
{
    if bytes.len() > MAX_ICON {
        return None;
    }
    let mut out = chars_of("data:image/svg+xml;base64,");
    extend_chars(&mut out, &chars_of(base64(bytes).as_str()));
    Some(string_of(&out))
}


/// A PNG image as a `data:` URI.
pub fn png_data_uri(png: &Vec<u8>) -> (r: String)
    ensures
        r@ == "data:image/png;base64,"@ + base64_of(png@),
{
    let mut out = chars_of("data:image/png;base64,");
    extend_chars(&mut out, &chars_of(base64(png).as_str()));
    string_of(&out)
}

/// The width and height of the tray icon, in pixels.
pub const TRAY_SIZE: usize = 32;

/// The colour of pixel (`x`, `y`) of the tray icon, as RGBA: a light panel
/// along the right edge of a dark square with clear corners.
pub open spec fn tray_pixel(x: int, y: int) -> Seq<u8> {
    if (x < 3 || x > 28) && (y < 3 || y > 28) {
        seq![0u8, 0u8, 0u8, 0u8]
    } else if x >= 20 && 4 <= y < 28 {
        seq![235u8, 240u8, 250u8, 255u8]
    } else {
        seq![40u8, 44u8, 60u8, 255u8]
    }
}

/// Byte `i` of the tray icon's RGBA pixels, row by row.
pub open spec fn tray_byte(i: int) -> u8 {
    let p = i / 4;
    tray_pixel(p % 32, p / 32)[i % 4]
}

/// The tray icon's 32 by 32 RGBA pixels.
pub fn tray_rgba() -> (r: Vec<u8>)
    ensures
        r@.len() == 4 * 32 * 32,
        forall|i: int| 0 <= i < r@.len() ==> #[trigger] r@[i] == tray_byte(i),
{
    let mut out: Vec<u8> = Vec::new();
    let mut p: usize = 0;
    while p < TRAY_SIZE * TRAY_SIZE
        invariant
            p <= 1024,
            out@.len() == 4 * p,
            forall|i: int| 0 <= i < out@.len() ==> #[trigger] out@[i] == tray_byte(i),
        decreases 1024 - p,
    {
        let x = p % TRAY_SIZE;
        let y = p / TRAY_SIZE;
        let px: [u8; 4] = if (x < 3 || x > 28) && (y < 3 || y > 28) {
            [0, 0, 0, 0]
        } else if x >= 20 && 4 <= y && y < 28 {
            [235, 240, 250, 255]
        } else {
            [40, 44, 60, 255]
        };
        assert(px@ == tray_pixel(x as int, y as int));
        let ghost before = out@;
        out.push(px[0]);
        out.push(px[1]);
        out.push(px[2]);
        out.push(px[3]);
        assert forall|i: int| 0 <= i < out@.len() implies #[trigger] out@[i] == tray_byte(i) by {
            if i >= 4 * p {
                assert(i / 4 == p as int);
                assert(i % 4 == i - 4 * p);
            } else {
                assert(out@[i] == before[i]);
            }
        }
        p += 1;
    }
    out
}

} // verus!
