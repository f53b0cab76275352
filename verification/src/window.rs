//! What the window and tray calls are given: the window style without a
//! maximize button, the centred window origin, UTF-16 text, and the
//! fixed-size tooltip field of a tray icon.
use vstd::prelude::*;
use vstd::string::*;

verus! {

/// Window style bit of the minimize button.
pub const WS_MINIMIZEBOX: i32 = 0x0002_0000;

/// Window style bit of the maximize button.
pub const WS_MAXIMIZEBOX: i32 = 0x0001_0000;

/// Number of UTF-16 units in a tray icon's tooltip field.
pub const TIP_FIELD_LEN: usize = 128;

/// A window's rectangle in screen coordinates.
#[derive(Debug, PartialEq, Eq, Structural, Clone, Copy)]
pub struct Rect {
    pub left: i32,
    pub top: i32,
    pub right: i32,
    pub bottom: i32,
}

/// `x / 2` rounded toward zero, as integer division does.
pub open spec fn half_toward_zero(x: int) -> int {
    if x >= 0 { x / 2 } else { -((-x) / 2) }
}

/// Halving toward zero gives the half of `x` with its remainder dropped:
/// twice the result is `x` or one closer to zero.
pub proof fn lemma_half_toward_zero(x: int)
    ensures
        x >= 0 ==> 2 * half_toward_zero(x) <= x < 2 * half_toward_zero(x) + 2,
        x < 0 ==> 2 * half_toward_zero(x) - 2 < x <= 2 * half_toward_zero(x),
{
}

/// The style with the minimize button and without the maximize button.
pub fn window_style(style: i32) -> (r: i32)
    ensures
        r == (style | WS_MINIMIZEBOX) & !WS_MAXIMIZEBOX,
        r & WS_MAXIMIZEBOX == 0,
        r & WS_MINIMIZEBOX == WS_MINIMIZEBOX,
        r & !(WS_MINIMIZEBOX | WS_MAXIMIZEBOX) == style & !(WS_MINIMIZEBOX | WS_MAXIMIZEBOX),
{
    let r = (style | WS_MINIMIZEBOX) & !WS_MAXIMIZEBOX;
    assert(r & 0x0001_0000i32 == 0) by (bit_vector)
        requires r == (style | 0x0002_0000i32) & !0x0001_0000i32;
    assert(r & 0x0002_0000i32 == 0x0002_0000i32) by (bit_vector)
        requires r == (style | 0x0002_0000i32) & !0x0001_0000i32;
    assert(r & !(0x0002_0000i32 | 0x0001_0000i32) == style & !(0x0002_0000i32 | 0x0001_0000i32)) by (bit_vector)
        requires r == (style | 0x0002_0000i32) & !0x0001_0000i32;
    r
}

/// The top-left corner that centres a window of `rect`'s size on a screen of
/// `screen_w` by `screen_h`.
pub fn centered_origin(screen_w: i32, screen_h: i32, rect: Rect) -> (r: (i32, i32))
    requires
        i32::MIN <= rect.right - rect.left <= i32::MAX,
        i32::MIN <= rect.bottom - rect.top <= i32::MAX,
        i32::MIN <= screen_w - (rect.right - rect.left) <= i32::MAX,
        i32::MIN <= screen_h - (rect.bottom - rect.top) <= i32::MAX,
    ensures
        r.0 == half_toward_zero(screen_w - (rect.right - rect.left)),
        r.1 == half_toward_zero(screen_h - (rect.bottom - rect.top)),
{
    let win_w = rect.right - rect.left;
    let win_h = rect.bottom - rect.top;
    (half(screen_w - win_w), half(screen_h - win_h))
}

fn half(x: i32) -> (r: i32)
    ensures
        r == half_toward_zero(x as int),
{
    let wide = x as i64;
    if wide >= 0 {
        (wide / 2) as i32
    } else {
        (0 - (0 - wide) / 2) as i32
    }
}

/// The UTF-16 code units of one character.
pub open spec fn utf16_units(c: char) -> Seq<u16> {
    let v = c as u32;
    if v < 0x10000 {
        seq![v as u16]
    } else {
        let w = v - 0x10000;
        seq![(0xD800 + w / 1024) as u16, (0xDC00 + w % 1024) as u16]
    }
}

/// The UTF-16 encoding of a text, as `str::encode_utf16` gives it.
pub open spec fn utf16(s: Seq<char>) -> Seq<u16>
    decreases s.len(),
{
    if s.len() == 0 {
        Seq::empty()
    } else {
        utf16(s.drop_last()) + utf16_units(s.last())
    }
}

/// The UTF-16 encoding of `s` followed by a terminating zero, as wide-string
/// calls take it.
pub fn encode_utf16_nul(s: &str) -> (r: Vec<u16>)
    ensures
        r@ == utf16(s@).push(0u16),
{
    let n = s.unicode_len();
    let mut out: Vec<u16> = Vec::new();
    let mut i: usize = 0;
    while i < n
        invariant
            i <= n,
            n == s@.len(),
            out@ == utf16(s@.take(i as int)),
        decreases n - i,
    {
        let c = s.get_char(i);
        let v = c as u32;
        if v < 0x10000 {
            out.push(v as u16);
        } else {
            let w = v - 0x10000;
            out.push((0xD800 + w / 1024) as u16);
            out.push((0xDC00 + w % 1024) as u16);
        }
        assert(s@.take(i + 1).drop_last() =~= s@.take(i as int));
        assert(out@ =~= utf16(s@.take(i + 1)));
        i = i + 1;
    }
    assert(s@.take(n as int) =~= s@);
    out.push(0u16);
    out
}

/// How many units of a tooltip of `len` units fit before the field's
/// terminating zero: one less than the length, at most 127.
pub open spec fn tip_copy_len(len: nat) -> nat {
    if len == 0 {
        0
    } else if len > 128 {
        127
    } else {
        (len - 1) as nat
    }
}

/// The tooltip field of a tray icon: the tooltip's units up to its
/// terminating zero, cut to 127, followed by zeros to 128 units.
pub fn tray_tip_field(tip: &[u16]) -> (r: Vec<u16>)
    ensures
        r@.len() == TIP_FIELD_LEN,
        forall|i: int| 0 <= i < tip_copy_len(tip@.len() as nat) ==> r@[i] == tip@[i],
        forall|i: int| tip_copy_len(tip@.len() as nat) <= i < TIP_FIELD_LEN ==> r@[i] == 0,
        r@[TIP_FIELD_LEN - 1] == 0,
{
    let capped = if tip.len() < TIP_FIELD_LEN { tip.len() } else { TIP_FIELD_LEN };
    let copy_len = capped.saturating_sub(1);
    let mut out: Vec<u16> = Vec::new();
    let mut i: usize = 0;
    while i < TIP_FIELD_LEN
        invariant
            i <= TIP_FIELD_LEN,
            copy_len == tip_copy_len(tip@.len() as nat),
            out@.len() == i,
            forall|j: int| 0 <= j < i && j < copy_len ==> out@[j] == tip@[j],
            forall|j: int| copy_len <= j < i ==> out@[j] == 0,
        decreases TIP_FIELD_LEN - i,
    {
        if i < copy_len {
            out.push(tip[i]);
        } else {
            out.push(0);
        }
        i = i + 1;
    }
    out
}

} // verus!
