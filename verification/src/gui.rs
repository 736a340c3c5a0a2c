//! The button on the screen: its picture, and what the mouse does to it.
use vstd::prelude::*;

verus! {

// ---------------------------------------------------------------------------
// Sprites
// ---------------------------------------------------------------------------

/// The number in four bytes, low byte first.
pub open spec fn number_at(data: Seq<u8>, at: int) -> int {
    data[at] + 0x100 * data[at + 1] + 0x10000 * data[at + 2] + 0x1000000 * data[at + 3]
}

/// Takes a sprite apart: width, height, and four bytes for each pixel (red, green, blue and
/// alpha).
pub fn load_sprite<'a>(data: &'a [u8]) -> (sprite: (u32, u32, &'a [u8]))
    requires
        data@.len() >= 8,
    ensures
        sprite.0 == number_at(data@, 0),
        sprite.1 == number_at(data@, 4),
        sprite.2@ == data@.skip(8),
{
    let w: u32 = data[0] as u32 + 0x100 * (data[1] as u32) + 0x10000 * (data[2] as u32) + 0x1000000
        * (data[3] as u32);
    let h: u32 = data[4] as u32 + 0x100 * (data[5] as u32) + 0x10000 * (data[6] as u32) + 0x1000000
        * (data[7] as u32);
    let pixels = vstd::slice::slice_subrange(data, 8, data.len());
    assert(pixels@ =~= data@.skip(8));
    (w, h, pixels)
}

/// How much larger than the sprite the window is, in each direction.
pub const WINDOW_PADDING: u32 = 40;

/// The size of the window for a sprite.
pub fn window_size(sprite_w: u32, sprite_h: u32) -> (size: (u32, u32))
    requires
        sprite_w <= u32::MAX - WINDOW_PADDING,
        sprite_h <= u32::MAX - WINDOW_PADDING,
    ensures
        size.0 == sprite_w + WINDOW_PADDING,
        size.1 == sprite_h + WINDOW_PADDING,
        size.0 - sprite_w == 40,
        size.1 - sprite_h == 40,
{
    (sprite_w + WINDOW_PADDING, sprite_h + WINDOW_PADDING)
}

// ---------------------------------------------------------------------------
// The picture
// ---------------------------------------------------------------------------

/// What is drawn: a red button in the middle of the window, with the sprite on top of it.
pub struct Scene<'a> {
    /// Size of the window in pixels.
    pub width: u32,
    pub height: u32,
    /// Size of the button in pixels.
    pub scaled_w: u32,
    pub scaled_h: u32,
    /// Size of the sprite.
    pub sprite_w: u32,
    pub sprite_h: u32,
    pub pixels: &'a [u8],
    /// Which column of the sprite stands for a column of the button; a number behind the last
    /// one stands for the last one.
    pub columns: &'a [u32],
    /// Which row of the sprite stands for a row of the button.
    pub rows: &'a [u32],
}

/// Behind the button.
pub const BACKGROUND: u32 = 0xFF2D2D2D;

/// Red, green and blue.
pub struct Rgb {
    pub r: int,
    pub g: int,
    pub b: int,
}

pub open spec fn packed(c: Rgb) -> int {
    c.r * 0x10000 + c.g * 0x100 + c.b
}

pub open spec fn background() -> Rgb {
    Rgb { r: 0x2D, g: 0x2D, b: 0x2D }
}

pub open spec fn button_red() -> Rgb {
    Rgb { r: 200, g: 30, b: 30 }
}

/// One colour channel of the sprite over what lies below.
pub open spec fn blend(over: int, under: int, alpha: int) -> int {
    (over * alpha + under * (255 - alpha)) / 255
}

pub open spec fn centered(outer: u32, inner: u32) -> int {
    if outer >= inner {
        (outer - inner) / 2
    } else {
        0
    }
}

pub open spec fn clamped(n: u32, count: u32) -> int {
    if n < count {
        n as int
    } else {
        count - 1
    }
}

impl<'a> Scene<'a> {
    pub open spec fn wf(self) -> bool {
        &&& self.columns@.len() == self.scaled_w
        &&& self.rows@.len() == self.scaled_h
        &&& self.scaled_w > 0 ==> self.sprite_w > 0
        &&& self.scaled_h > 0 ==> self.sprite_h > 0
    }

    /// Where the button begins.
    pub open spec fn left(self) -> int {
        centered(self.width, self.scaled_w)
    }

    pub open spec fn top(self) -> int {
        centered(self.height, self.scaled_h)
    }

    /// Whether a point lies in the ellipse that fills the button's rectangle.
    pub open spec fn in_button(self, x: int, y: int) -> bool {
        let dx = x - (self.left() + self.scaled_w / 2);
        let dy = y - (self.top() + self.scaled_h / 2);
        let rx = self.scaled_w as int / 2;
        let ry = self.scaled_h as int / 2;
        (dx * ry) * (dx * ry) + (dy * rx) * (dy * rx) <= (rx * ry) * (rx * ry)
    }

    /// Whether a point lies in the button's rectangle.
    pub open spec fn in_rectangle(self, x: int, y: int) -> bool {
        self.left() <= x < self.left() + self.scaled_w && self.top() <= y < self.top()
            + self.scaled_h
    }

    /// Where the sprite's pixel for a point of the rectangle begins.
    pub open spec fn source(self, x: int, y: int) -> int {
        let sx = clamped(self.columns@[x - self.left()], self.sprite_w);
        let sy = clamped(self.rows@[y - self.top()], self.sprite_h);
        (sy * self.sprite_w + sx) * 4
    }

    /// The alpha of the sprite at a point: none outside of it.
    pub open spec fn alpha(self, x: int, y: int) -> int {
        if self.in_rectangle(x, y) && self.source(x, y) + 3 < self.pixels@.len() {
            self.pixels@[self.source(x, y) + 3] as int
        } else {
            0
        }
    }

    /// The colour of a point of the window.
    pub open spec fn pixel(self, x: int, y: int) -> int {
        let under = if self.in_button(x, y) {
            button_red()
        } else {
            background()
        };
        let a = self.alpha(x, y);
        if a == 0 {
            if self.in_button(x, y) {
                packed(button_red())
            } else {
                BACKGROUND as int
            }
        } else {
            let at = self.source(x, y);
            packed(
                Rgb {
                    r: blend(self.pixels@[at] as int, under.r, a),
                    g: blend(self.pixels@[at + 1] as int, under.g, a),
                    b: blend(self.pixels@[at + 2] as int, under.b, a),
                },
            )
        }
    }
}

/// The square of a distance times a radius.
fn scaled_square(d: i64, r: u32) -> (p: i128)
    requires
        -0x1_0000_0000 < d < 0x1_0000_0000,
        r < 0x8000_0000,
    ensures
        p == (d * r) * (d * r),
        0 <= p < 0x4000_0000_0000_0000_0000_0000_0000_0000,
{
    let a: i128 = d as i128;
    let b: i128 = r as i128;
    assert(-0x8000_0000_0000_0000 < a * b < 0x8000_0000_0000_0000) by (nonlinear_arith)
        requires
            -0x1_0000_0000 < a < 0x1_0000_0000,
            0 <= b < 0x8000_0000,
    ;
    let m: i128 = a * b;
    assert(0 <= m * m < 0x4000_0000_0000_0000_0000_0000_0000_0000) by (nonlinear_arith)
        requires
            -0x8000_0000_0000_0000 < m < 0x8000_0000_0000_0000,
    ;
    m * m
}

fn center(outer: u32, inner: u32) -> (at: u32)
    ensures
        at == centered(outer, inner),
{
    if outer >= inner {
        (outer - inner) / 2
    } else {
        0
    }
}

fn clamp(n: u32, count: u32) -> (c: u32)
    requires
        count > 0,
    ensures
        c == clamped(n, count),
        c < count,
{
    if n < count {
        n
    } else {
        count - 1
    }
}

fn blend_channel(over: u8, under: u32, alpha: u8) -> (c: u32)
    requires
        under <= 255,
    ensures
        c == blend(over as int, under as int, alpha as int),
        c <= 255,
{
    let o: u32 = over as u32;
    let a: u32 = alpha as u32;
    let inv: u32 = 255 - a;
    assert(0 <= o * a <= 255 * a) by (nonlinear_arith)
        requires
            o <= 255,
    ;
    assert(0 <= under * inv <= 255 * inv) by (nonlinear_arith)
        requires
            under <= 255,
    ;
    (o * a + under * inv) / 255
}

fn pack(r: u32, g: u32, b: u32) -> (c: u32)
    requires
        r <= 255,
        g <= 255,
        b <= 255,
    ensures
        c == packed(Rgb { r: r as int, g: g as int, b: b as int }),
{
    r * 0x10000 + g * 0x100 + b
}

impl<'a> Scene<'a> {
    fn is_in_button(&self, x: u32, y: u32) -> (b: bool)
        ensures
            b == self.in_button(x as int, y as int),
    {
        let rx: u32 = self.scaled_w / 2;
        let ry: u32 = self.scaled_h / 2;
        let cx: i64 = center(self.width, self.scaled_w) as i64 + rx as i64;
        let cy: i64 = center(self.height, self.scaled_h) as i64 + ry as i64;
        let dx: i64 = x as i64 - cx;
        let dy: i64 = y as i64 - cy;
        scaled_square(dx, ry) + scaled_square(dy, rx) <= scaled_square(rx as i64, ry)
    }

    /// Where the sprite's pixel for a point of the window begins, where it has one.
    fn source_of(&self, x: u32, y: u32) -> (at: Option<usize>)
        requires
            self.wf(),
        ensures
            match at {
                Some(i) => {
                    &&& self.in_rectangle(x as int, y as int)
                    &&& i == self.source(x as int, y as int)
                    &&& i + 3 < self.pixels@.len()
                },
                None => !(self.in_rectangle(x as int, y as int) && self.source(x as int, y as int)
                    + 3 < self.pixels@.len()),
            },
    {
        let left: u32 = center(self.width, self.scaled_w);
        let top: u32 = center(self.height, self.scaled_h);
        if x < left || y < top || x - left >= self.scaled_w || y - top >= self.scaled_h {
            return None;
        }
        let sx: u32 = clamp(self.columns[(x - left) as usize], self.sprite_w);
        let sy: u32 = clamp(self.rows[(y - top) as usize], self.sprite_h);
        let sw: u32 = self.sprite_w;
        assert(0 <= sy * sw < 0x1_0000_0000_0000_0000) by (nonlinear_arith)
            requires
                0 <= sy < 0x1_0000_0000,
                0 <= sw < 0x1_0000_0000,
        ;
        let at: u128 = ((sy as u128) * (sw as u128) + sx as u128) * 4;
        let len: usize = self.pixels.len();
        if at + 3 < len as u128 {
            Some(at as usize)
        } else {
            None
        }
    }

    /// The colour of a point of the window.
    fn pixel_at(&self, x: u32, y: u32) -> (c: u32)
        requires
            self.wf(),
        ensures
            c == self.pixel(x as int, y as int),
    {
        let in_button = self.is_in_button(x, y);
        if let Some(at) = self.source_of(x, y) {
            let a: u8 = self.pixels[at + 3];
            if a != 0 {
                let (r, g, b): (u32, u32, u32) = if in_button {
                    (200, 30, 30)
                } else {
                    (0x2D, 0x2D, 0x2D)
                };
                return pack(
                    blend_channel(self.pixels[at], r, a),
                    blend_channel(self.pixels[at + 1], g, a),
                    blend_channel(self.pixels[at + 2], b, a),
                );
            }
        }
        if in_button {
            pack(200, 30, 30)
        } else {
            BACKGROUND
        }
    }

    /// Draws the window, row by row.
    pub fn draw(&self) -> (buffer: Vec<u32>)
        requires
            self.wf(),
        ensures
            buffer@.len() == self.width * self.height,
            forall|i: int|
                0 <= i < buffer@.len() ==> #[trigger] buffer@[i] == self.pixel(
                    i % self.width as int,
                    i / self.width as int,
                ),
    {
        let mut buffer: Vec<u32> = Vec::new();
        let w: u32 = self.width;
        let mut y: u32 = 0;
        while y < self.height
            invariant
                self.wf(),
                w == self.width,
                y <= self.height,
                buffer@.len() == y * w,
                forall|i: int|
                    0 <= i < buffer@.len() ==> #[trigger] buffer@[i] == self.pixel(
                        i % w as int,
                        i / w as int,
                    ),
            decreases self.height - y,
        {
            let mut x: u32 = 0;
            while x < w
                invariant
                    self.wf(),
                    w == self.width,
                    x <= w,
                    buffer@.len() == y * w + x,
                    forall|i: int|
                        0 <= i < buffer@.len() ==> #[trigger] buffer@[i] == self.pixel(
                            i % w as int,
                            i / w as int,
                        ),
                decreases w - x,
            {
                proof {
                    vstd::arithmetic::div_mod::lemma_fundamental_div_mod_converse(
                        y * w + x,
                        w as int,
                        y as int,
                        x as int,
                    );
                }
                buffer.push(self.pixel_at(x, y));
                x += 1;
            }
            assert((y + 1) * w == y * w + w) by (nonlinear_arith);
            y += 1;
        }
        assert(self.width * self.height == self.height * self.width) by (nonlinear_arith);
        buffer
    }
}

// ---------------------------------------------------------------------------
// The mouse
// ---------------------------------------------------------------------------

/// What happens to the window.
#[derive(Debug, Clone, Copy, PartialEq, Eq, Structural)]
pub enum GuiEvent {
    /// The left mouse button went down, or up.
    LeftButton { pressed: bool },
    /// The window has to be drawn again.
    RedrawRequested,
    /// The window is to be closed.
    CloseRequested,
    /// Anything else.
    Other,
}

/// What the window does about it.
#[derive(Debug, Clone, Copy, PartialEq, Eq, Structural)]
pub struct GuiResponse {
    /// Whether the button on the screen is down from now on.
    pub is_down: bool,
    /// What the radio is told of the button, if anything.
    pub pressed: Option<bool>,
    pub redraw: bool,
    pub exit: bool,
}

pub open spec fn gui_response(is_down: bool, event: GuiEvent) -> GuiResponse {
    match event {
        GuiEvent::LeftButton { pressed } => GuiResponse {
            is_down: pressed,
            pressed: if pressed || is_down {
                Some(pressed)
            } else {
                None
            },
            redraw: true,
            exit: false,
        },
        GuiEvent::RedrawRequested => GuiResponse {
            is_down,
            pressed: None,
            redraw: true,
            exit: false,
        },
        GuiEvent::CloseRequested => GuiResponse {
            is_down,
            pressed: None,
            redraw: false,
            exit: true,
        },
        GuiEvent::Other => GuiResponse { is_down, pressed: None, redraw: false, exit: false },
    }
}

/// Handles an event of the window. A release counts only where a press came before it.
pub fn window_event(is_down: bool, event: GuiEvent) -> (response: GuiResponse)
    ensures
        response == gui_response(is_down, event),
{
    let mut response = GuiResponse { is_down, pressed: None, redraw: false, exit: false };
    match event {
        GuiEvent::LeftButton { pressed } => {
            if pressed {
                response.pressed = Some(true);
                response.is_down = true;
            } else if is_down {
                response.pressed = Some(false);
                response.is_down = false;
            }
            response.redraw = true;
        },
        GuiEvent::RedrawRequested => {
            response.redraw = true;
        },
        GuiEvent::CloseRequested => {
            response.exit = true;
        },
        GuiEvent::Other => {},
    }
    response
}

// ---------------------------------------------------------------------------
// Laws
// ---------------------------------------------------------------------------

/// What the radio has been told of the button is what the screen shows.
pub proof fn radio_knows_what_is_shown(told: bool, is_down: bool, event: GuiEvent)
    requires
        told == is_down,
    ensures
        ({
            let response = gui_response(is_down, event);
            let now_told = match response.pressed {
                Some(pressed) => pressed,
                None => told,
            };
            now_told == response.is_down
        }),
{
}

/// An opaque pixel of the sprite hides what lies below it.
pub proof fn opaque_pixel_is_shown(over: int, under: int)
    ensures
        blend(over, under, 255) == over,
{
}

/// A blended colour lies between the colours that it was made of.
pub proof fn blend_lies_between(over: int, under: int, alpha: int)
    requires
        0 <= alpha <= 255,
        over <= under,
    ensures
        over <= blend(over, under, alpha) <= under,
        over <= blend(under, over, alpha) <= under,
{
    let sum = over * alpha + under * (255 - alpha);
    assert(255 * over <= sum <= 255 * under) by (nonlinear_arith)
        requires
            sum == over * alpha + under * (255 - alpha),
            0 <= alpha <= 255,
            over <= under,
    ;
    let mirrored = under * alpha + over * (255 - alpha);
    assert(255 * over <= mirrored <= 255 * under) by (nonlinear_arith)
        requires
            mirrored == under * alpha + over * (255 - alpha),
            0 <= alpha <= 255,
            over <= under,
    ;
}

/// Four bytes give the number that was written in them, its low byte first.
pub proof fn numbers_are_read_as_written(data: Seq<u8>, at: int, n: int)
    requires
        0 <= n < 0x1_0000_0000,
        data[at] as int == n % 256,
        data[at + 1] as int == (n / 256) % 256,
        data[at + 2] as int == (n / 0x10000) % 256,
        data[at + 3] as int == n / 0x1000000,
    ensures
        number_at(data, at) == n,
{
}

/// A colour keeps its parts: red in the third byte from the right, green in the second and blue
/// in the last. Behind the button all is dark grey, and the button is red.
pub proof fn colours_keep_their_parts(c: Rgb)
    requires
        0 <= c.r < 256,
        0 <= c.g < 256,
        0 <= c.b < 256,
    ensures
        packed(c) / 0x10000 == c.r,
        packed(c) / 0x100 % 0x100 == c.g,
        packed(c) % 0x100 == c.b,
        background() == (Rgb { r: 45, g: 45, b: 45 }),
        button_red() == (Rgb { r: 200, g: 30, b: 30 }),
        BACKGROUND == 0xFF000000 + packed(background()),
{
}

/// Something is in the middle if as much is left on one side as on the other, but for one; what
/// is too large begins at the edge.
pub proof fn middle_leaves_equal_margins(outer: u32, inner: u32)
    ensures
        outer >= inner ==> 0 <= (outer - inner - centered(outer, inner)) - centered(outer, inner)
            <= 1,
        outer < inner ==> centered(outer, inner) == 0,
{
}

/// A number behind the last stands for the last one.
pub proof fn last_one_stands_for_those_behind(n: u32, count: u32)
    requires
        count > 0,
    ensures
        0 <= clamped(n, count) < count,
        n < count ==> clamped(n, count) == n,
        n >= count ==> clamped(n, count) == count - 1,
{
}

/// A blended colour is the mean of the two, weighted by alpha, without its fraction; without
/// alpha it is what lies below.
pub proof fn blend_is_the_weighted_mean(over: int, under: int, alpha: int)
    ensures
        ({
            let weighted = over * alpha + under * (255 - alpha);
            255 * blend(over, under, alpha) <= weighted < 255 * blend(over, under, alpha) + 255
        }),
        blend(over, under, 0) == under,
{
    assert(over * 0 == 0);
}

/// The button is the ellipse that fills its rectangle, which is in the middle of the window.
pub proof fn button_is_an_ellipse_in_the_middle(scene: Scene, x: int, y: int)
    ensures
        ({
            let w = scene.scaled_w as int / 2;
            let h = scene.scaled_h as int / 2;
            let dx = x - centered(scene.width, scene.scaled_w) - w;
            let dy = y - centered(scene.height, scene.scaled_h) - h;
            scene.in_button(x, y) <==> (dx * h) * (dx * h) + (dy * w) * (dy * w) <= (w * h) * (w
                * h)
        }),
        scene.in_rectangle(x, y) <==> 0 <= x - centered(scene.width, scene.scaled_w)
            < scene.scaled_w && 0 <= y - centered(scene.height, scene.scaled_h) < scene.scaled_h,
{
    let w = scene.scaled_w as int / 2;
    let h = scene.scaled_h as int / 2;
    assert(x - centered(scene.width, scene.scaled_w) - w == x - (scene.left() + scene.scaled_w
        / 2));
    assert(y - centered(scene.height, scene.scaled_h) - h == y - (scene.top() + scene.scaled_h
        / 2));
}

/// Each point of the rectangle shows the pixel of the sprite in the column and the row that stand
/// for it. Four bytes make a pixel, of which the last is its alpha; outside of the rectangle, and
/// where the sprite has no such pixel, there is none.
pub proof fn sprite_fills_the_rectangle(scene: Scene, i: int, j: int, x: int, y: int)
    requires
        scene.wf(),
        0 <= i < scene.scaled_w,
        0 <= j < scene.scaled_h,
    ensures
        ({
            let left = centered(scene.width, scene.scaled_w);
            let top = centered(scene.height, scene.scaled_h);
            let column = clamped(scene.columns@[i], scene.sprite_w);
            let row = clamped(scene.rows@[j], scene.sprite_h);
            let at = scene.source(left + i, top + j);
            &&& at == 4 * (scene.sprite_w * row + column)
            &&& at + 3 < scene.pixels@.len() ==> scene.alpha(left + i, top + j)
                == scene.pixels@[at + 3]
            &&& at + 3 >= scene.pixels@.len() ==> scene.alpha(left + i, top + j) == 0
        }),
        !scene.in_rectangle(x, y) ==> scene.alpha(x, y) == 0,
{
    let left = centered(scene.width, scene.scaled_w);
    let top = centered(scene.height, scene.scaled_h);
    assert(scene.in_rectangle(left + i, top + j));
    assert(left + i - scene.left() == i && top + j - scene.top() == j);
    let row = clamped(scene.rows@[j], scene.sprite_h);
    assert(scene.sprite_w * row == row * scene.sprite_w) by (nonlinear_arith);
}

/// A point without sprite shows the button where it lies in it, and else the background. With
/// sprite it shows the sprite's colour over that, each part blended by itself.
pub proof fn sprite_is_drawn_over_the_button(scene: Scene, x: int, y: int)
    ensures
        ({
            let at = scene.source(x, y);
            let a = scene.alpha(x, y);
            let (r, g, b) = if scene.in_button(x, y) {
                (200int, 30int, 30int)
            } else {
                (45int, 45int, 45int)
            };
            &&& a == 0 && scene.in_button(x, y) ==> scene.pixel(x, y) == 0xC81E1E
            &&& a == 0 && !scene.in_button(x, y) ==> scene.pixel(x, y) == 0xFF2D2D2D
            &&& a != 0 ==> scene.pixel(x, y) == 0x10000 * blend(scene.pixels@[at] as int, r, a)
                + 0x100 * blend(scene.pixels@[at + 1] as int, g, a) + blend(
                scene.pixels@[at + 2] as int,
                b,
                a,
            )
        }),
{
}

/// The mouse holds the button on the screen down from press to release; the radio is told of both,
/// and of nothing else. Closing the window ends it, and nothing else does.
pub proof fn mouse_holds_the_button(is_down: bool, event: GuiEvent)
    ensures
        gui_response(is_down, GuiEvent::LeftButton { pressed: true }) == (GuiResponse {
            is_down: true,
            pressed: Some(true),
            redraw: true,
            exit: false,
        }),
        gui_response(true, GuiEvent::LeftButton { pressed: false }) == (GuiResponse {
            is_down: false,
            pressed: Some(false),
            redraw: true,
            exit: false,
        }),
        gui_response(false, GuiEvent::LeftButton { pressed: false }) == (GuiResponse {
            is_down: false,
            pressed: None,
            redraw: true,
            exit: false,
        }),
        !(event is LeftButton) ==> {
            &&& gui_response(is_down, event).is_down == is_down
            &&& gui_response(is_down, event).pressed is None
            &&& gui_response(is_down, event).redraw == (event == GuiEvent::RedrawRequested)
            &&& gui_response(is_down, event).exit == (event == GuiEvent::CloseRequested)
        },
{
}

/// A scene can be drawn if every column and every row of the button has one of the sprite that
/// stands for it.
pub proof fn scenes_say_what_stands_for_what(scene: Scene)
    requires
        scene.columns@.len() == scene.scaled_w,
        scene.rows@.len() == scene.scaled_h,
        scene.sprite_w > 0 || scene.scaled_w == 0,
        scene.sprite_h > 0 || scene.scaled_h == 0,
    ensures
        scene.wf(),
{
}

} // verus!
