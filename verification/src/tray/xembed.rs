//! The icon docked as a plain window, where there is no host to describe it to.

use vstd::prelude::*;

use crate::player::State;
use crate::tray::{scroll_action, TrayAction};

verus! {

/// Size the icon is rendered at, in pixels. Only sets the ceiling on quality: it is rescaled to
/// whatever size the tray grants.
pub const ICON_RENDER_SIZE: i32 = 48;

/// Names of the bundled icons: these are resolved by the program itself, so they are guaranteed
/// to be there however complete the system theme is.
pub fn icon_name_for_state(state: State) -> (r: &'static str)
    ensures
        r@ == (match state {
            State::Playing => "trayplay-play-symbolic"@,
            State::Paused => "trayplay-pause-symbolic"@,
            State::Stopped => "trayplay-music-symbolic"@,
        }),
{
    match state {
        State::Playing => "trayplay-play-symbolic",
        State::Paused => "trayplay-pause-symbolic",
        State::Stopped => "trayplay-music-symbolic",
    }
}

/// A button of the mouse.
#[derive(Debug, Clone, Copy, PartialEq, Eq, Structural)]
pub enum MouseButton {
    Left,
    Middle,
    Right,
}

/// What is done to the icon.
#[derive(Debug, Clone, Copy, PartialEq, Eq, Structural)]
pub enum Input {
    /// A button was pressed, or released where `released`.
    Click { button: MouseButton, released: bool },
    /// The wheel was turned: negative is up.
    Scroll { delta: i32 },
    Other,
}

/// What an input does. Only the release of a button counts. There is no menu to open, so the
/// right button is a second left one.
pub fn input_action(input: Input) -> (r: Option<TrayAction>)
    ensures
        r == (match input {
            Input::Click { button, released } => if !released {
                None
            } else if button == MouseButton::Middle {
                Some(TrayAction::PlayPause)
            } else {
                Some(TrayAction::TogglePopup)
            },
            Input::Scroll { delta } => if delta < 0 {
                Some(TrayAction::Next)
            } else if delta > 0 {
                Some(TrayAction::Previous)
            } else {
                None
            },
            Input::Other => None,
        }),
{
    match input {
        Input::Click { button, released } => {
            if !released {
                return None;
            }
            match button {
                MouseButton::Left => Some(TrayAction::TogglePopup),
                MouseButton::Middle => Some(TrayAction::PlayPause),
                MouseButton::Right => Some(TrayAction::TogglePopup),
            }
        },
        Input::Scroll { delta } => scroll_action(delta),
        Input::Other => None,
    }
}

/// A colour channel with its alpha divided out again.
pub open spec fn straight(c: u8, a: u8) -> u8 {
    if a == 0 {
        0
    } else if c * 255 / a as int > 255 {
        255
    } else {
        (c * 255 / a as int) as u8
    }
}

/// The pixel at offset `at`: blue, green, red and alpha with the alpha multiplied in, made red,
/// green, blue and alpha without.
pub open spec fn pixel_at(data: Seq<u8>, at: int) -> Seq<u8> {
    let a = data[at + 3];
    seq![straight(data[at + 2], a), straight(data[at + 1], a), straight(data[at], a), a]
}

/// `width` pixels from offset `start` on.
pub open spec fn row_at(data: Seq<u8>, start: int, width: nat) -> Seq<u8>
    decreases width,
{
    if width == 0 {
        Seq::empty()
    } else {
        row_at(data, start, (width - 1) as nat) + pixel_at(data, start + (width - 1) * 4)
    }
}

/// `height` rows of `width` pixels, each `stride` bytes behind the one before.
pub open spec fn image_of(data: Seq<u8>, width: nat, height: nat, stride: nat) -> Seq<u8>
    decreases height,
{
    if height == 0 {
        Seq::empty()
    } else {
        image_of(data, width, (height - 1) as nat, stride) + row_at(
            data,
            (height - 1) * stride,
            width,
        )
    }
}

fn unpremultiply(c: u8, a: u8) -> (r: u8)
    ensures
        r == straight(c, a),
{
    if a == 0 {
        return 0;
    }
    let v = c as u32 * 255 / a as u32;
    if v > 255 {
        255
    } else {
        v as u8
    }
}

/// The pixels of a rendered icon as a tray wants them: red, green, blue and alpha, not multiplied
/// together. The rendered ones are blue, green, red and alpha, multiplied, in rows of `stride`
/// bytes.
pub fn rgba_of(data: &[u8], width: usize, height: usize, stride: usize) -> (r: Vec<u8>)
    requires
        height > 0 ==> (height - 1) * stride + width * 4 <= data@.len(),
    ensures
        r@ == image_of(data@, width as nat, height as nat, stride as nat),
{
    let size = data.len();
    let mut rgba: Vec<u8> = Vec::new();
    let mut row: usize = 0;
    let mut start: usize = 0;
    while row < height
        invariant
            row <= height,
            size == data@.len(),
            height > 0 ==> (height - 1) * stride + width * 4 <= size,
            row < height ==> start == row * stride,
            rgba@ == image_of(data@, width as nat, row as nat, stride as nat),
        decreases height - row,
    {
        proof {
            assert(row * stride <= (height - 1) * stride) by (nonlinear_arith)
                requires
                    row <= height - 1,
                    stride >= 0,
            ;
        }
        let ghost above = rgba@;
        let mut col: usize = 0;
        while col < width
            invariant
                col <= width,
                size == data@.len(),
                start + width * 4 <= size,
                rgba@ == above + row_at(data@, start as int, col as nat),
            decreases width - col,
        {
            let px = start + col * 4;
            let a = data[px + 3];
            rgba.push(unpremultiply(data[px + 2], a));
            rgba.push(unpremultiply(data[px + 1], a));
            rgba.push(unpremultiply(data[px], a));
            rgba.push(a);
            col += 1;
            assert(rgba@ =~= above + row_at(data@, start as int, col as nat));
        }
        row += 1;
        if row < height {
            proof {
                assert(row * stride == (row - 1) * stride + stride) by (nonlinear_arith);
                assert(row * stride <= (height - 1) * stride) by (nonlinear_arith)
                    requires
                        row <= height - 1,
                        stride >= 0,
                ;
            }
            start = start + stride;
        }
    }
    rgba
}

/// An opaque pixel keeps its colour, and a transparent one has none.
pub proof fn law_opaque_pixels_keep_their_colour(c: u8)
    ensures
        straight(c, 255) == c,
        straight(c, 0) == 0,
{
}

/// A colour is undone from its transparency: what is transparent has none, and otherwise it is as
/// much brighter as it was made darker, to the step below and no brighter than full.
pub proof fn law_transparency_is_undone(c: u8, a: u8)
    ensures
        a == 0 ==> straight(c, a) == 0,
        a > 0 && c <= a ==> straight(c, a) * a <= c * 255 < (straight(c, a) + 1) * a,
        a > 0 && c >= a ==> straight(c, a) == 255,
{
    if a > 0 {
        let q = c * 255 / a as int;
        assert(q * a <= c * 255 < (q + 1) * a) by (nonlinear_arith)
            requires
                a > 0,
                q == (c * 255) / (a as int),
        ;
        if c <= a {
            assert(q <= 255) by (nonlinear_arith)
                requires
                    q * a <= c * 255,
                    c <= a,
                    a > 0,
            ;
        }
        if c >= a {
            assert(q >= 255) by (nonlinear_arith)
                requires
                    c * 255 < (q + 1) * a,
                    c >= a,
                    a > 0,
            ;
        }
    }
}

/// A picture is turned pixel by pixel: the one in column `x` of row `y` comes from where that stands
/// in the rows of the source, with blue, green and red the other way round.
pub proof fn law_every_pixel_comes_from_its_place(
    data: Seq<u8>,
    width: nat,
    height: nat,
    stride: nat,
    x: nat,
    y: nat,
)
    requires
        x < width,
        y < height,
    ensures
        image_of(data, width, height, stride).len() == width * height * 4,
        ({
            let image = image_of(data, width, height, stride);
            let to = ((y * width + x) * 4) as int;
            let from = (y * stride + x * 4) as int;
            let a = data[from + 3];
            &&& 0 <= to && to + 4 <= image.len()
            &&& image[to as int] == straight(data[from + 2], a)
            &&& image[to + 1] == straight(data[from + 1], a)
            &&& image[to + 2] == straight(data[from as int], a)
            &&& image[to + 3] == a
        }),
    decreases height,
{
    let above = image_of(data, width, (height - 1) as nat, stride);
    let row = row_at(data, (height - 1) * stride, width);
    let image = image_of(data, width, height, stride);
    lemma_image_len(data, width, (height - 1) as nat, stride);
    lemma_row_pixel(data, (height - 1) * stride, width, x);
    assert(width * height * 4 == width * ((height - 1) as nat) * 4 + width * 4) by (
        nonlinear_arith)
        requires
            height > 0,
    ;
    let to = ((y * width + x) * 4) as int;
    if y < height - 1 {
        law_every_pixel_comes_from_its_place(data, width, (height - 1) as nat, stride, x, y);
        assert(image[to as int] == above[to as int]);
        assert(image[to + 1] == above[to + 1]);
        assert(image[to + 2] == above[to + 2]);
        assert(image[to + 3] == above[to + 3]);
    } else {
        assert(y == height - 1);
        assert(to == above.len() + x * 4) by (nonlinear_arith)
            requires
                to == (y * width + x) * 4,
                above.len() == width * y * 4,
        ;
        assert(image[to as int] == row[x as int * 4]);
        assert(image[to + 1] == row[x as int * 4 + 1]);
        assert(image[to + 2] == row[x as int * 4 + 2]);
        assert(image[to + 3] == row[x as int * 4 + 3]);
    }
}

proof fn lemma_image_len(data: Seq<u8>, width: nat, height: nat, stride: nat)
    ensures
        image_of(data, width, height, stride).len() == width * height * 4,
    decreases height,
{
    if height > 0 {
        lemma_image_len(data, width, (height - 1) as nat, stride);
        lemma_row_len(data, (height - 1) * stride, width);
        assert(width * height * 4 == width * ((height - 1) as nat) * 4 + width * 4) by (
            nonlinear_arith)
            requires
                height > 0,
        ;
    } else {
        assert(width * height * 4 == 0) by (nonlinear_arith)
            requires
                height == 0,
        ;
    }
}

proof fn lemma_row_len(data: Seq<u8>, start: int, width: nat)
    ensures
        row_at(data, start, width).len() == width * 4,
    decreases width,
{
    if width > 0 {
        lemma_row_len(data, start, (width - 1) as nat);
    }
}

proof fn lemma_row_pixel(data: Seq<u8>, start: int, width: nat, x: nat)
    requires
        x < width,
    ensures
        row_at(data, start, width).len() == width * 4,
        ({
            let row = row_at(data, start, width);
            let from = start + x * 4;
            let a = data[from + 3];
            &&& row[x as int * 4] == straight(data[from + 2], a)
            &&& row[x as int * 4 + 1] == straight(data[from + 1], a)
            &&& row[x as int * 4 + 2] == straight(data[from], a)
            &&& row[x as int * 4 + 3] == a
        }),
    decreases width,
{
    lemma_row_len(data, start, width);
    lemma_row_len(data, start, (width - 1) as nat);
    if x < width - 1 {
        lemma_row_pixel(data, start, (width - 1) as nat, x);
    }
}

} // verus!
