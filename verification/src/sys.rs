//! What the desktop integration computes: UTF-16 text for the system API,
//! the window remembered for paste and pin, colours, icon pixels, key
//! presses, and the messages it shows.
use vstd::prelude::*;
use crate::text::{chars_of, ends_with, extend_chars, str_lower, str_to_lower, string_of};

verus! {

// ---------------------------------------------------------------------------
// UTF-16
// ---------------------------------------------------------------------------

/// The UTF-16 code units of one character.
pub open spec fn utf16_units(c: char) -> Seq<u16> {
    let v = c as u32;
    if v < 0x10000 {
        seq![v as u16]
    } else {
        let w = (v - 0x10000) as int;
        seq![(0xD800 + w / 1024) as u16, (0xDC00 + w % 1024) as u16]
    }
}

/// The UTF-16 encoding of `s` (`str::encode_utf16`).
pub open spec fn utf16(s: Seq<char>) -> Seq<u16>
    decreases s.len(),
{
    if s.len() == 0 {
        Seq::<u16>::empty()
    } else {
        utf16(s.drop_last()) + utf16_units(s.last())
    }
}

/// `s` in UTF-16, followed by a terminating 0, as the wide-string system
/// calls take it.
pub fn wide(s: &str) -> (r: Vec<u16>)
    ensures
        r@ == utf16(s@).push(0u16),
{
    let cs = chars_of(s);
    let mut out: Vec<u16> = Vec::new();
    let mut i: usize = 0;
    assert(cs@.take(0) =~= Seq::<char>::empty());
    while i < cs.len()
        invariant
            i <= cs@.len(),
            out@ == utf16(cs@.take(i as int)),
        decreases cs@.len() - i,
    {
        let c = cs[i];
        proof {
            vstd::utf8::char_is_scalar(c);
        }
        let v = c as u32;
        let ghost before = out@;
        if v < 0x10000 {
            out.push(v as u16);
        } else {
            let w = v - 0x10000;
            out.push((0xD800 + w / 1024) as u16);
            out.push((0xDC00 + w % 1024) as u16);
        }
        assert(cs@.take(i + 1).drop_last() =~= cs@.take(i as int));
        assert(out@ =~= before + utf16_units(c));
        i += 1;
    }
    assert(cs@.take(cs@.len() as int) =~= s@);
    out.push(0);
    out
}

/// Whether a path names an `.exe`, in any letter case; such files get their
/// own large icon.
pub open spec fn is_exe_path(path: Seq<char>) -> bool {
    ".exe"@.is_suffix_of(str_lower(path))
}

/// Whether `path`, lower-cased, ends in `.exe`.
pub fn is_exe(path: &str) -> (r: bool)
    ensures
        r == is_exe_path(path@),
{
    ends_with(str_to_lower(path).as_str(), ".exe")
}

// ---------------------------------------------------------------------------
// The window the user was in
// ---------------------------------------------------------------------------

/// The panel's own window and the one the user was in before opening it
/// (window handles; 0 for none).
pub struct ForegroundTracker {
    pub self_window: isize,
    pub previous: isize,
}

impl ForegroundTracker {
    /// Nothing known yet.
    pub fn new() -> (r: ForegroundTracker)
        ensures
            r.self_window == 0,
            r.previous == 0,
    {
        ForegroundTracker { self_window: 0, previous: 0 }
    }
}

/// Records the panel's own window.
pub fn set_self_window(t: &mut ForegroundTracker, hwnd: isize)
    ensures
        final(t).self_window == hwnd,
        final(t).previous == old(t).previous,
{
    t.self_window = hwnd;
}

/// Remembers `foreground` as the window to paste into and pin, unless it is
/// the panel itself.
pub fn remember_foreground(t: &mut ForegroundTracker, foreground: isize)
    ensures
        final(t).self_window == old(t).self_window,
        final(t).previous == (if foreground != old(t).self_window {
            foreground
        } else {
            old(t).previous
        }),
{
    if foreground != t.self_window {
        t.previous = foreground;
    }
}

// ---------------------------------------------------------------------------
// Colours and pixels
// ---------------------------------------------------------------------------

/// The lower-case hexadecimal digit of `n` (below 16).
pub open spec fn hex_digit(n: int) -> char {
    if n < 10 {
        ('0' as int + n) as char
    } else {
        ('a' as int + n - 10) as char
    }
}

/// Two lower-case hexadecimal digits for a byte.
pub open spec fn hex_byte(b: int) -> Seq<char> {
    seq![hex_digit(b / 16), hex_digit(b % 16)]
}

/// `#rrggbb` for a Windows colour value, whose low byte is red, then green,
/// then blue.
pub open spec fn color_hex_of(c: u32) -> Seq<char> {
    seq!['#'] + hex_byte((c % 256) as int) + hex_byte(((c / 256) % 256) as int) + hex_byte(
        ((c / 65536) % 256) as int,
    )
}

fn hex_char(n: u32) -> (r: char)
    requires
        n < 16,
    ensures
        r == hex_digit(n as int),
{
    let digits = ['0', '1', '2', '3', '4', '5', '6', '7', '8', '9', 'a', 'b', 'c', 'd', 'e', 'f'];
    let r = digits[n as usize];
    assert(r == hex_digit(n as int)) by {
        assert(n == 0 || n == 1 || n == 2 || n == 3 || n == 4 || n == 5 || n == 6 || n == 7 || n
            == 8 || n == 9 || n == 10 || n == 11 || n == 12 || n == 13 || n == 14 || n == 15);
    }
    r
}

/// The colour picked on screen as `#rrggbb`.
pub fn color_hex(c: u32) -> (r: String)
    ensures
        r@ == color_hex_of(c),
{
    let red = c % 256;
    let green = (c / 256) % 256;
    let blue = (c / 65536) % 256;
    let out = vec![
        '#',
        hex_char(red / 16),
        hex_char(red % 16),
        hex_char(green / 16),
        hex_char(green % 16),
        hex_char(blue / 16),
        hex_char(blue % 16),
    ];
    assert(out@ =~= color_hex_of(c));
    string_of(&out)
}

/// Whether any pixel of a BGRA (or RGBA) buffer has a non-zero alpha byte.
pub open spec fn has_alpha(px: Seq<u8>) -> bool {
    exists|k: int| 0 <= k < px.len() / 4 && #[trigger] px[4 * k + 3] != 0
}

/// Byte `i` of the RGBA pixels made from the BGRA pixels `px`: blue and
/// red swapped, and every pixel opaque when none carries alpha.
pub open spec fn rgba_byte(px: Seq<u8>, i: int) -> u8 {
    let k = i % 4;
    let base = i - k;
    if k == 0 {
        px[base + 2]
    } else if k == 1 {
        px[base + 1]
    } else if k == 2 {
        px[base]
    } else if has_alpha(px) {
        px[base + 3]
    } else {
        255
    }
}

/// Turns the BGRA pixels of an icon bitmap into RGBA.
pub fn bgra_to_rgba(px: Vec<u8>) -> (r: Vec<u8>)
    requires
        px@.len() % 4 == 0,
    ensures
        r@.len() == px@.len(),
        forall|i: int| 0 <= i < px@.len() ==> #[trigger] r@[i] == rgba_byte(px@, i),
{
    let n = px.len();
    let mut alpha = false;
    let mut k: usize = 0;
    while k < n / 4
        invariant
            n == px@.len(),
            n % 4 == 0,
            k <= n / 4,
            alpha == exists|j: int| 0 <= j < k && #[trigger] px@[4 * j + 3] != 0,
        decreases n / 4 - k,
    {
        if px[4 * k + 3] != 0 {
            alpha = true;
        }
        k += 1;
    }
    assert(alpha == has_alpha(px@));
    let mut out = px;
    let mut k: usize = 0;
    while k < n / 4
        invariant
            n == px@.len(),
            n % 4 == 0,
            k <= n / 4,
            out@.len() == n,
            alpha == has_alpha(px@),
            forall|i: int| 0 <= i < 4 * k ==> #[trigger] out@[i] == rgba_byte(px@, i),
            forall|i: int| 4 * k <= i < n ==> #[trigger] out@[i] == px@[i],
        decreases n / 4 - k,
    {
        let b = out[4 * k];
        let r = out[4 * k + 2];
        out.set(4 * k, r);
        out.set(4 * k + 2, b);
        if !alpha {
            out.set(4 * k + 3, 255);
        }
        assert forall|i: int| 0 <= i < 4 * (k + 1) implies #[trigger] out@[i] == rgba_byte(px@, i) by {
            if i >= 4 * k {
                assert(i % 4 == i - 4 * k);
            }
        }
        k += 1;
    }
    out
}

// ---------------------------------------------------------------------------
// Keys
// ---------------------------------------------------------------------------

/// A key press the panel can send for the user.
#[derive(Clone, Copy, PartialEq, Eq, Structural)]
pub enum MediaKey {
    PlayPause,
    NextTrack,
    PrevTrack,
    Mute,
    VolumeUp,
    VolumeDown,
    /// Windows+D: show the desktop.
    ShowDesktop,
}

/// The key press that `name` asks for.
pub open spec fn media_key_of(name: Seq<char>) -> Option<MediaKey> {
    if name == "play"@ {
        Some(MediaKey::PlayPause)
    } else if name == "next"@ {
        Some(MediaKey::NextTrack)
    } else if name == "prev"@ {
        Some(MediaKey::PrevTrack)
    } else if name == "mute"@ {
        Some(MediaKey::Mute)
    } else if name == "volup"@ {
        Some(MediaKey::VolumeUp)
    } else if name == "voldown"@ {
        Some(MediaKey::VolumeDown)
    } else if name == "desktop"@ {
        Some(MediaKey::ShowDesktop)
    } else {
        None
    }
}

/// The name by which the panel asks for each key press.
pub open spec fn media_key_name(k: MediaKey) -> Seq<char> {
    match k {
        MediaKey::PlayPause => "play"@,
        MediaKey::NextTrack => "next"@,
        MediaKey::PrevTrack => "prev"@,
        MediaKey::Mute => "mute"@,
        MediaKey::VolumeUp => "volup"@,
        MediaKey::VolumeDown => "voldown"@,
        MediaKey::ShowDesktop => "desktop"@,
    }
}

/// A name asks for a key press exactly when it is that key's name: `play`
/// for play/pause, `next` for the next track, `prev` for the previous one,
/// `mute`, `volup`, `voldown`, and `desktop` for showing the desktop.
pub proof fn lemma_media_key_names(name: Seq<char>, k: MediaKey)
    ensures
        media_key_of(name) == Some(k) <==> name == media_key_name(k),
{
    reveal_strlit("play");
    reveal_strlit("next");
    reveal_strlit("prev");
    reveal_strlit("mute");
    reveal_strlit("volup");
    reveal_strlit("voldown");
    reveal_strlit("desktop");
    let names = seq!["play"@, "next"@, "prev"@, "mute"@, "volup"@, "voldown"@, "desktop"@];
    assert("play"@[0] == 'p' && "play"@[1] == 'l');
    assert("next"@[0] == 'n');
    assert("prev"@[0] == 'p' && "prev"@[1] == 'r');
    assert("mute"@[0] == 'm');
    assert("volup"@[0] == 'v' && "volup"@[3] == 'u');
    assert("voldown"@[0] == 'v' && "voldown"@[3] == 'd');
    assert("desktop"@[0] == 'd');
    assert forall|a: int, b: int| 0 <= a < b < 7 implies names[a] != names[b] by {
        if a == 0 && b == 2 {
            assert(names[a][1] != names[b][1]);
        } else if a == 4 && b == 5 {
            assert(names[a][3] != names[b][3]);
        } else {
            assert(names[a][0] != names[b][0]);
        }
    }
    assert(names[0] != names[1] && names[0] != names[2] && names[0] != names[3] && names[0]
        != names[4] && names[0] != names[5] && names[0] != names[6]);
    assert(names[1] != names[2] && names[1] != names[3] && names[1] != names[4] && names[1]
        != names[5] && names[1] != names[6]);
    assert(names[2] != names[3] && names[2] != names[4] && names[2] != names[5] && names[2]
        != names[6]);
    assert(names[3] != names[4] && names[3] != names[5] && names[3] != names[6]);
    assert(names[4] != names[5] && names[4] != names[6]);
    assert(names[5] != names[6]);
}

/// The key press that `name` asks for (`play`, `next`, `prev`, `mute`,
/// `volup`, `voldown`, `desktop`), if any.
pub fn media_key(name: &str) -> (r: Option<MediaKey>)
    ensures
        r == media_key_of(name@),
{
    if crate::text::str_eq(name, "play") {
        Some(MediaKey::PlayPause)
    } else if crate::text::str_eq(name, "next") {
        Some(MediaKey::NextTrack)
    } else if crate::text::str_eq(name, "prev") {
        Some(MediaKey::PrevTrack)
    } else if crate::text::str_eq(name, "mute") {
        Some(MediaKey::Mute)
    } else if crate::text::str_eq(name, "volup") {
        Some(MediaKey::VolumeUp)
    } else if crate::text::str_eq(name, "voldown") {
        Some(MediaKey::VolumeDown)
    } else if crate::text::str_eq(name, "desktop") {
        Some(MediaKey::ShowDesktop)
    } else {
        None
    }
}

/// The key events of a chord: every key pressed in order, then released in
/// reverse order (`true` for a release).
pub open spec fn chord_events(keys: Seq<u16>) -> Seq<(u16, bool)> {
    keys.map_values(|k: u16| (k, false)) + keys.reverse().map_values(|k: u16| (k, true))
}

/// The key events that play the chord `keys`.
pub fn combo_events(keys: &Vec<u16>) -> (r: Vec<(u16, bool)>)
    ensures
        r@ == chord_events(keys@),
{
    let n = keys.len();
    let mut out: Vec<(u16, bool)> = Vec::new();
    let mut i: usize = 0;
    while i < n
        invariant
            n == keys@.len(),
            i <= n,
            out@ == keys@.take(i as int).map_values(|k: u16| (k, false)),
        decreases n - i,
    {
        out.push((keys[i], false));
        assert(out@ =~= keys@.take(i + 1).map_values(|k: u16| (k, false)));
        i += 1;
    }
    assert(keys@.take(n as int) =~= keys@);
    let mut j: usize = 0;
    while j < n
        invariant
            n == keys@.len(),
            j <= n,
            out@ == keys@.map_values(|k: u16| (k, false)) + keys@.reverse().take(
                j as int,
            ).map_values(|k: u16| (k, true)),
        decreases n - j,
    {
        out.push((keys[n - 1 - j], true));
        assert(keys@.reverse()[j as int] == keys@[n - 1 - j]);
        assert(out@ =~= keys@.map_values(|k: u16| (k, false)) + keys@.reverse().take(
            j + 1,
        ).map_values(|k: u16| (k, true)));
        j += 1;
    }
    assert(keys@.reverse().take(n as int) =~= keys@.reverse());
    out
}

// ---------------------------------------------------------------------------
// Messages
// ---------------------------------------------------------------------------

/// A window title cut to 28 characters, with `…` when it was longer.
pub open spec fn short_title(t: Seq<char>) -> Seq<char> {
    if t.len() > 28 {
        t.take(28) + seq!['\u{2026}']
    } else {
        t
    }
}

/// The toast after pinning: `None` when there was no window to pin, else
/// its title and whether it was on top before.
pub open spec fn pin_message_of(window: Option<(Seq<char>, bool)>) -> Seq<char> {
    match window {
        None => "No window to pin"@,
        Some((title, true)) => "Unpinned "@ + short_title(title),
        Some((title, false)) => seq!['\u{1F4CC}', ' '] + short_title(title) + " stays on top"@,
    }
}

/// The toast after pinning or unpinning the window with `title`, which was
/// on top before when `was_on_top`; `None` when there was no window.
pub fn pin_message(window: Option<(&str, bool)>) -> (r: String)
    ensures
        r@ == pin_message_of(
            match window {
                Some((t, b)) => Some((t@, b)),
                None => None,
            },
        ),
{
    match window {
        None => String::from_str("No window to pin"),
        Some((title, on_top)) => {
            let t = chars_of(title);
            let mut short: Vec<char> = Vec::new();
            if t.len() > 28 {
                let mut i: usize = 0;
                while i < 28
                    invariant
                        t@.len() > 28,
                        i <= 28,
                        short@ == t@.take(i as int),
                    decreases 28 - i,
                {
                    short.push(t[i]);
                    assert(short@ =~= t@.take(i + 1));
                    i += 1;
                }
                short.push('\u{2026}');
            } else {
                short = t;
            }
            assert(short@ =~= short_title(title@));
            let mut out: Vec<char>;
            if on_top {
                out = chars_of("Unpinned ");
                extend_chars(&mut out, &short);
            } else {
                out = vec!['\u{1F4CC}', ' '];
                extend_chars(&mut out, &short);
                extend_chars(&mut out, &chars_of(" stays on top"));
                assert(out@ =~= seq!['\u{1F4CC}', ' '] + short@ + " stays on top"@);
            }
            string_of(&out)
        },
    }
}

// ---------------------------------------------------------------------------
// Input region
// ---------------------------------------------------------------------------

/// The part of a `width` by `height` window that takes the pointer
/// (x, y, width, height): a 3-pixel strip at its right edge while the panel
/// lets clicks through, else all of it. Sizes below 1 count as 1.
pub open spec fn input_region_of(width: i32, height: i32, passthrough: bool) -> (i32, i32, i32, i32) {
    let w = if width < 1 { 1 } else { width };
    let h = if height < 1 { 1 } else { height };
    if passthrough {
        ((w - 3) as i32, 0, 3, h)
    } else {
        (0, 0, w, h)
    }
}

/// The input region of the panel window (see `input_region_of`).
pub fn input_region(width: i32, height: i32, passthrough: bool) -> (r: (i32, i32, i32, i32))
    ensures
        r == input_region_of(width, height, passthrough),
{
    let w = if width < 1 { 1 } else { width };
    let h = if height < 1 { 1 } else { height };
    if passthrough {
        (w - 3, 0, 3, h)
    } else {
        (0, 0, w, h)
    }
}

} // verus!
