//! Points, rectangles and the parts of the title bar.
use vstd::prelude::*;

verus! {

/// The second parameter of a window message.
#[derive(Clone, Copy, Debug, PartialEq, Eq, Structural)]
pub struct LParam(pub isize);

/// A point, in pixels.
#[derive(Clone, Copy, Debug, PartialEq, Eq, Structural)]
pub struct Point {
    pub x: i32,
    pub y: i32,
}

/// The number that the last 16 bits of `v` are, as a signed number.
pub open spec fn signed16(v: int) -> int {
    if v % 65536 < 32768 {
        v % 65536
    } else {
        v % 65536 - 65536
    }
}

/// The number that the last 32 bits of `v` are, as a signed number.
pub open spec fn signed32(v: int) -> int {
    if v % 0x1_0000_0000 < 0x8000_0000 {
        v % 0x1_0000_0000
    } else {
        v % 0x1_0000_0000 - 0x1_0000_0000
    }
}

proof fn lemma_low_word(l: isize)
    ensures
        (l as i16) as int == signed16(l as int),
{
    assert((l as u16) as int == l as int % 65536) by (bit_vector);
    let u = l as u16;
    assert((l as i16) == (l as u16) as i16) by (bit_vector);
    assert(u < 32768 ==> (u as i16) as int == u as int) by (bit_vector);
    assert(u >= 32768 ==> (u as i16) as int == u as int - 65536) by (bit_vector);
}

pub(crate) proof fn lemma_unsigned_low_word(l: isize)
    ensures
        (l as u16) as int == l as int % 65536,
{
    assert((l as u16) as int == l as int % 65536) by (bit_vector);
}

proof fn lemma_signed32(u: u32)
    ensures
        (u as i32) as int == signed32(u as int),
{
    assert(u < 0x8000_0000 ==> (u as i32) as int == u as int) by (bit_vector);
    assert(u >= 0x8000_0000 ==> (u as i32) as int == u as int - 0x1_0000_0000) by (bit_vector);
}

pub(crate) proof fn lemma_low_half(l: isize)
    ensures
        (l as i32) as int == signed32(l as int),
{
    lemma_signed32(l as u32);
    assert((l as u32) as int == l as int % 0x1_0000_0000) by (bit_vector);
    assert(l as i32 == (l as u32) as i32) by (bit_vector);
}

pub(crate) proof fn lemma_unsigned_low_half(w: usize)
    ensures
        (w as i32) as int == signed32(w as int),
{
    lemma_signed32(w as u32);
    assert((w as u32) as int == w as int % 0x1_0000_0000) by (bit_vector);
    assert(w as i32 == (w as u32) as i32) by (bit_vector);
}

/// The point that a mouse message names: the two low words of its parameter,
/// both signed.
pub open spec fn mouse_point(lparam: LParam) -> (int, int) {
    (signed16(lparam.0 as int), signed16(lparam.0 as int / 65536))
}

/// Reads the point that a mouse message names.
pub fn point_of(lparam: LParam) -> (point: Point)
    ensures
        (point.x as int, point.y as int) == mouse_point(lparam),
{
    let l = lparam.0;
    let high: isize = l >> 16;
    proof {
        lemma_low_word(l);
        lemma_low_word(high);
        assert((l >> 16) as int == l as int / 65536) by (bit_vector);
    }
    Point { x: (l as i16) as i32, y: (high as i16) as i32 }
}

/// The parameter of a mouse message that names the point (`x`, `y`): the
/// first in the low word, the second in the next, the sign in the rest.
pub open spec fn point_lparam(x: int, y: int) -> int {
    65536 * signed16(y) + x % 65536
}

/// Writes a point as the parameter of a mouse message.
pub fn mouse_lparam(x: i32, y: i32) -> (lparam: LParam)
    ensures
        lparam.0 == point_lparam(x as int, y as int),
{
    let packed: u32 = (x as u32 & 0xffff) | ((y as u32 & 0xffff) << 16);
    proof {
        let low = x as u32 & 0xffff;
        let high = y as u32 & 0xffff;
        assert((x as u32 & 0xffff) as int == x as int % 65536) by (bit_vector);
        assert((y as u32 & 0xffff) as int == y as int % 65536) by (bit_vector);
        assert(low <= 0xffff && high <= 0xffff) by (bit_vector)
            requires
                low == x as u32 & 0xffff,
                high == y as u32 & 0xffff,
        ;
        assert((low | (high << 16)) as int == low as int + high as int * 65536) by (bit_vector)
            requires
                low <= 0xffff,
                high <= 0xffff,
        ;
        lemma_signed32(packed);
    }
    LParam(packed as i32 as isize)
}

/// Screen coordinates of 16 bits, negative ones too, survive the way through
/// the parameter of a mouse message.
pub proof fn law_mouse_lparam_preserves_coordinates(x: i16, y: i16, lparam: LParam)
    requires
        lparam.0 == point_lparam(x as int, y as int),
    ensures
        mouse_point(lparam) == (x as int, y as int),
{
    let low = x as int % 65536;
    let l = 65536 * signed16(y as int) + low;
    assert(signed16(y as int) == y);
    assert(signed16(x as int) == x);
    assert(l % 65536 == low);
    assert(l / 65536 == y);
}

/// Of larger coordinates the last 16 bits survive.
pub proof fn law_mouse_lparam_keeps_low_words(x: int, y: int, lparam: LParam)
    requires
        lparam.0 == point_lparam(x, y),
    ensures
        mouse_point(lparam) == (signed16(x), signed16(y)),
{
    let low = x % 65536;
    let l = 65536 * signed16(y) + low;
    assert(l % 65536 == low);
    assert(l / 65536 == signed16(y));
}

/// Width of what stands before the title bar's free part, at 96 dots per inch.
pub const TITLEBAR_LEADING_WIDTH: i32 = 68;

/// Height of the title bar, at 96 dots per inch.
pub const TITLEBAR_HEIGHT: i32 = 28;

/// Width of a caption button, at 96 dots per inch.
pub const CAPTION_BUTTON_WIDTH: i32 = 42;

/// A rectangle, in pixels.
#[derive(Clone, Copy, Debug, PartialEq, Eq, Structural)]
pub struct Rect {
    pub left: i32,
    pub top: i32,
    pub right: i32,
    pub bottom: i32,
}

/// How far the frame reaches into the client area, in pixels.
#[derive(Clone, Copy, Debug, PartialEq, Eq, Structural)]
pub struct Margins {
    pub left: i32,
    pub right: i32,
    pub top: i32,
    pub bottom: i32,
}

/// The frame takes the title bar from the client area, and nothing else.
pub fn frame_margins() -> (margins: Margins)
    ensures
        margins == (Margins { left: 0, right: 0, top: TITLEBAR_HEIGHT, bottom: 0 }),
{
    Margins { left: 0, right: 0, top: TITLEBAR_HEIGHT, bottom: 0 }
}

/// The resolution that is reckoned with: at least 96 dots per inch.
pub open spec fn effective_dpi(dpi: u32) -> int {
    if dpi < 96 {
        96
    } else {
        signed32(dpi as int)
    }
}

fn at_least_96(dpi: u32) -> (raised: u32)
    ensures
        signed32(raised as int) == effective_dpi(dpi),
{
    if dpi < 96 {
        96
    } else {
        dpi
    }
}

/// A length at 96 dots per inch, at another resolution: rounded up to whole
/// pixels (towards zero where it is negative).
pub open spec fn scaled_length(value: int, dpi: int) -> int {
    let raised = value * dpi + 95;
    if raised >= 0 {
        raised / 96
    } else {
        -((-raised) / 96)
    }
}

/// Scales a length to a resolution, which is taken as a signed number.
pub fn scaled(value: i32, dpi: u32) -> (length: i64)
    ensures
        length == scaled_length(value as int, signed32(dpi as int)),
        -0x100_0000_0000_0000 <= length <= 0x100_0000_0000_0000,
{
    proof {
        lemma_signed32(dpi);
    }
    let dots: i64 = (dpi as i32) as i64;
    proof {
        assert(-0x4000_0000_0000_0000 <= value as i64 * dots <= 0x4000_0000_0000_0000)
            by (nonlinear_arith)
            requires
                -0x8000_0000 <= value <= 0x7fff_ffff,
                -0x8000_0000 <= dots <= 0x7fff_ffff,
        ;
    }
    let raised: i64 = value as i64 * dots + 95;
    if raised >= 0 {
        raised / 96
    } else {
        -((-raised) / 96)
    }
}

/// A scaled length is the exact one rounded up to whole pixels, the least
/// number of pixels that is not too short; at 96 dots per inch it is the
/// length itself.
pub proof fn law_scaling_rounds_up(value: int, dpi: int)
    requires
        value >= 0,
        dpi >= 0,
    ensures
        value * dpi <= 96 * scaled_length(value, dpi) < value * dpi + 96,
        forall|pixels: int|
            #![trigger 96 * pixels]
            96 * pixels >= value * dpi ==> pixels >= scaled_length(value, dpi),
        scaled_length(value, 96) == value,
{
    assert(value * dpi >= 0) by (nonlinear_arith)
        requires
            value >= 0,
            dpi >= 0,
    ;
}

/// A scaled length never shrinks when the length or the resolution grows.
pub proof fn law_scaling_is_monotonic(value: int, longer: int, dpi: int, finer: int)
    requires
        0 <= value <= longer,
        0 <= dpi <= finer,
    ensures
        scaled_length(value, dpi) <= scaled_length(longer, finer),
{
    assert(0 <= value * dpi <= longer * finer) by (nonlinear_arith)
        requires
            0 <= value <= longer,
            0 <= dpi <= finer,
    ;
}

/// Where a top-level window stands on the screen, and its resolution.
#[derive(Clone, Copy, Debug, PartialEq, Eq, Structural)]
pub struct WindowFrame {
    pub rect: Rect,
    pub dpi: u32,
}

/// Whether the point is in the part of the title bar that the frame answers
/// for: all of its height, and all of its width but the leading part.
pub open spec fn in_frame_region(x: int, y: int, frame: WindowFrame) -> bool {
    let dpi = effective_dpi(frame.dpi);
    &&& frame.rect.top <= y < frame.rect.top + scaled_length(TITLEBAR_HEIGHT as int, dpi)
    &&& frame.rect.left + scaled_length(TITLEBAR_LEADING_WIDTH as int, dpi) <= x < frame.rect.right
}

/// Whether the point of a mouse message is one that the frame answers for.
/// No point is while the window's place is not known.
pub fn native_frame_region(lparam: LParam, frame: Option<WindowFrame>) -> (inside: bool)
    ensures
        inside == match frame {
            Some(frame) => in_frame_region(mouse_point(lparam).0, mouse_point(lparam).1, frame),
            None => false,
        },
{
    let point = point_of(lparam);
    let frame = match frame {
        Some(frame) => frame,
        None => return false,
    };
    let dpi: u32 = at_least_96(frame.dpi);
    let leading_width: i64 = scaled(TITLEBAR_LEADING_WIDTH, dpi);
    let titlebar_height: i64 = scaled(TITLEBAR_HEIGHT, dpi);
    let x: i64 = point.x as i64;
    let y: i64 = point.y as i64;
    y >= frame.rect.top as i64 && y < frame.rect.top as i64 + titlebar_height && x
        >= frame.rect.left as i64 + leading_width && x < frame.rect.right as i64
}

/// The point is in the client area.
pub const HTCLIENT: i32 = 1;

/// The point is in the title bar.
pub const HTCAPTION: i32 = 2;

/// The point is on the button that minimizes the window.
pub const HTMINBUTTON: i32 = 8;

/// The point is on the button that maximizes the window.
pub const HTMAXBUTTON: i32 = 9;

/// The point is on the button that closes the window.
pub const HTCLOSE: i32 = 20;

/// The point belongs to a window below.
pub const HTTRANSPARENT: i32 = -1;

/// The client area of a window: its upper left corner on the screen, its
/// width, and the window's resolution.
#[derive(Clone, Copy, Debug, PartialEq, Eq, Structural)]
pub struct ClientArea {
    pub origin: Point,
    pub width: i32,
    pub dpi: u32,
}

/// What a point of the client area is. From the right the title bar shows
/// three buttons: to close, to maximize and to minimize. The first and the
/// third are drawn and handled by the page, and so is the leading part; the
/// second is the window's, and the rest moves the window.
pub open spec fn caption_part(x: int, y: int, area: ClientArea) -> i32 {
    let dpi = effective_dpi(area.dpi);
    let button = scaled_length(CAPTION_BUTTON_WIDTH as int, dpi);
    let right = area.origin.x + area.width;
    let in_bar = area.origin.y <= y < area.origin.y + scaled_length(TITLEBAR_HEIGHT as int, dpi)
        && area.origin.x <= x < right;
    let in_leading = x < area.origin.x + scaled_length(TITLEBAR_LEADING_WIDTH as int, dpi);
    let on_close = right - x < button;
    let on_maximize = button <= right - x < 2 * button;
    let on_minimize = 2 * button <= right - x < 3 * button;
    if !in_bar || in_leading || on_close || on_minimize {
        HTCLIENT
    } else if on_maximize {
        HTMAXBUTTON
    } else {
        HTCAPTION
    }
}

/// Says what the point of a mouse message is; part of the client area while
/// the window's place is not known.
pub fn custom_caption_hit_test(lparam: LParam, area: Option<ClientArea>) -> (part: i32)
    ensures
        part == match area {
            Some(area) => caption_part(mouse_point(lparam).0, mouse_point(lparam).1, area),
            None => HTCLIENT,
        },
{
    let point = point_of(lparam);
    let area = match area {
        Some(area) => area,
        None => return HTCLIENT,
    };
    let dpi: u32 = at_least_96(area.dpi);
    let leading_width: i64 = scaled(TITLEBAR_LEADING_WIDTH, dpi);
    let titlebar_height: i64 = scaled(TITLEBAR_HEIGHT, dpi);
    let button_width: i64 = scaled(CAPTION_BUTTON_WIDTH, dpi);
    let x: i64 = point.x as i64;
    let y: i64 = point.y as i64;
    let left: i64 = area.origin.x as i64;
    let right: i64 = left + area.width as i64;
    let top: i64 = area.origin.y as i64;

    if y < top || y >= top + titlebar_height || x < left || x >= right {
        return HTCLIENT;
    }
    let distance_from_right: i64 = right - x;
    if distance_from_right < button_width || (distance_from_right >= button_width * 2
        && distance_from_right < button_width * 3) || x < left + leading_width {
        return HTCLIENT;
    }
    if distance_from_right < button_width * 2 {
        return HTMAXBUTTON;
    }
    HTCAPTION
}

/// Where the window itself would answer for a point of its title bar, the
/// child windows on top of it let the point through: it is in the frame's
/// region, if the client area begins at the window's top and is no wider than
/// the window.
pub proof fn law_children_let_the_caption_through(
    x: int,
    y: int,
    area: ClientArea,
    frame: WindowFrame,
)
    requires
        frame.dpi == area.dpi,
        frame.rect.left <= area.origin.x,
        frame.rect.top == area.origin.y,
        frame.rect.right >= area.origin.x + area.width,
        caption_part(x, y, area) != HTCLIENT,
    ensures
        in_frame_region(x, y, frame),
{
}

/// The three buttons and the rest of the bar: what moves the window is at
/// least three buttons away from the right edge, what maximizes it is the
/// second button, and all else is the page's.
pub proof fn law_caption_parts(x: int, y: int, area: ClientArea)
    ensures
        ({
            let button = scaled_length(CAPTION_BUTTON_WIDTH as int, effective_dpi(area.dpi));
            let from_right = area.origin.x + area.width - x;
            let part = caption_part(x, y, area);
            &&& part == HTMAXBUTTON ==> button <= from_right < 2 * button
            &&& part == HTCAPTION ==> from_right >= 3 * button
            &&& part == HTMAXBUTTON || part == HTCAPTION || part == HTCLIENT
        }),
{
}

/// The point of a mouse message is made of the two low words of its parameter,
/// each between -32768 and 32767; the other bits make no difference.
pub proof fn law_mouse_point_is_in_the_low_words(lparam: LParam)
    ensures
        ({
            let (x, y) = mouse_point(lparam);
            &&& -32768 <= x <= 32767
            &&& -32768 <= y <= 32767
            &&& (lparam.0 - x) % 65536 == 0
            &&& (lparam.0 as int / 65536 - y) % 65536 == 0
        }),
{
}

/// A point goes into the two low words of the parameter of a mouse message,
/// which is a number of 32 bits with a sign.
pub proof fn law_point_goes_into_the_low_words(x: int, y: int)
    ensures
        ({
            let lparam = point_lparam(x, y);
            &&& -0x8000_0000 <= lparam <= 0x7fff_ffff
            &&& (lparam - x) % 65536 == 0
            &&& (lparam / 65536 - y) % 65536 == 0
        }),
{
    let lparam = point_lparam(x, y);
    assert(lparam / 65536 == signed16(y));
}

/// The number in the low half of a word: 32 bits with a sign.
pub proof fn law_low_half(v: int)
    ensures
        -0x8000_0000 <= signed32(v) <= 0x7fff_ffff,
        (signed32(v) - v) % 0x1_0000_0000 == 0,
{
}

/// Windows are reckoned with at 96 dots per inch at least, and at their own
/// resolution from there on.
pub proof fn law_resolution(dpi: u32)
    ensures
        dpi <= 96 ==> effective_dpi(dpi) == 96,
        96 <= dpi <= 0x7fff_ffff ==> effective_dpi(dpi) == dpi,
        dpi > 0x7fff_ffff ==> effective_dpi(dpi) == dpi - 0x1_0000_0000,
{
}

/// A scaled length, negative or not, is the exact one plus 95 of 96 parts of a
/// pixel, cut to whole pixels towards zero.
pub proof fn law_scaling_cuts_towards_zero(value: int, dpi: int)
    ensures
        value * dpi + 95 >= 0 ==> scaled_length(value, dpi) >= 0 && 0 <= value * dpi + 95 - 96
            * scaled_length(value, dpi) < 96,
        value * dpi + 95 < 0 ==> scaled_length(value, dpi) <= 0 && -96 < value * dpi + 95 - 96
            * scaled_length(value, dpi) <= 0,
{
}

/// At a resolution that is negative as a signed number no point is in the title
/// bar.
pub proof fn law_no_title_bar_without_resolution(
    x: int,
    y: int,
    frame: WindowFrame,
    area: ClientArea,
)
    ensures
        frame.dpi > 0x7fff_ffff ==> !in_frame_region(x, y, frame),
        area.dpi > 0x7fff_ffff ==> caption_part(x, y, area) == 1,
{
}

/// The frame answers for a point if and only if it is below the window's top
/// edge by less than 28 units and right of its left edge by at least 68, where
/// 96 units are an inch, and left of its right edge.
pub proof fn law_frame_region(x: int, y: int, frame: WindowFrame, dpi: int)
    requires
        frame.dpi <= 0x7fff_ffff,
        dpi == if frame.dpi < 96 {
            96
        } else {
            frame.dpi as int
        },
    ensures
        in_frame_region(x, y, frame) <==> {
            &&& frame.rect.top <= y
            &&& 96 * (y - frame.rect.top) < 28 * dpi
            &&& 96 * (x - frame.rect.left) >= 68 * dpi
            &&& x < frame.rect.right
        },
{
}

/// What every point is. `button` is the width of a button: 42 units, where 96
/// are an inch, rounded up to whole pixels. The title bar is 28 units high and
/// begins with 68 that are the page's. Counted from its right edge, the second
/// button maximizes the window, and what is three buttons or more away moves
/// it. Every other point is the page's.
pub proof fn law_every_point_of_the_title_bar(
    x: int,
    y: int,
    area: ClientArea,
    dpi: int,
    button: int,
)
    requires
        area.dpi <= 0x7fff_ffff,
        dpi == if area.dpi < 96 {
            96
        } else {
            area.dpi as int
        },
        42 * dpi <= 96 * button < 42 * dpi + 96,
    ensures
        ({
            let from_right = area.origin.x + area.width - x;
            let free = {
                &&& area.origin.y <= y
                &&& 96 * (y - area.origin.y) < 28 * dpi
                &&& 96 * (x - area.origin.x) >= 68 * dpi
                &&& from_right > 0
            };
            &&& caption_part(x, y, area) == 9 <==> free && button <= from_right < 2 * button
            &&& caption_part(x, y, area) == 2 <==> free && 3 * button <= from_right
            &&& caption_part(x, y, area) == 1 <==> !free || from_right < button || 2 * button
                <= from_right < 3 * button
        }),
{
}

} // verus!
