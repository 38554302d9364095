//! The side of a client: what it does with what the window manager sends.
//!
//! Events and replies come over the same connection. A client that waits for
//! the reply to a request puts the events that come first into a queue, and
//! takes them from there when it next asks for an event.

use vstd::prelude::*;
use crate::canvas::{painted, round_rect_strokes, DrawingCanvas};
use crate::com::request::{CreateWindow, DamageWindow, Request};
use crate::com::response::error::ResponseError;
use crate::com::response::event::Event;
use crate::com::response::{CreateWindowResp, OkResponse, Response};
use crate::fb::Pixel;

verus! {

/// The events that came while the client waited for a reply.
pub struct EventsQueue {
    events: Vec<Event>,
}

impl EventsQueue {
    /// The events in the queue, oldest first.
    pub closed spec fn view(&self) -> Seq<Event> {
        self.events@
    }

    /// A queue without events.
    pub fn new() -> (queue: Self)
        ensures
            queue@ == Seq::<Event>::empty(),
    {
        Self { events: Vec::new() }
    }

    /// Takes a response that came while the client waits for the reply to a
    /// request: an event goes to the end of the queue and the wait goes on,
    /// anything else is the reply.
    pub fn sort_response(&mut self, response: Response) -> (reply: Option<Response>)
        ensures
            match response {
                Response::Event(event) => reply is None && final(self)@ == old(self)@.push(event),
                other => reply == Some(other) && final(self)@ == old(self)@,
            },
    {
        match response {
            Response::Event(event) => {
                self.events.push(event);
                None
            },
            other => Some(other),
        }
    }

    /// Takes the event that was queued last out of the queue, if there is
    /// one.
    pub fn pop_event(&mut self) -> (event: Option<Event>)
        ensures
            match event {
                Some(event) => old(self)@.len() > 0 && event == old(self)@.last() && final(self)@
                    == old(self)@.drop_last(),
                None => old(self)@.len() == 0 && final(self)@ == old(self)@,
            },
    {
        self.events.pop()
    }
}

/// Whether `response` is the reply that a ping asks for.
pub fn ping_succeeded(response: &Response) -> (succeeded: bool)
    ensures
        succeeded == (*response == Response::Accepted(OkResponse::Success)),
{
    match response {
        Response::Accepted(OkResponse::Success) => true,
        _ => false,
    }
}

/// Why a request for a window did not give a window.
#[derive(Debug, Clone, Copy, PartialEq, Eq, Structural)]
pub enum CreateFailure {
    /// The window manager refused the request.
    Refused(ResponseError),
    /// The window manager sent something that is no reply to the request.
    Unexpected(Response),
}

/// What the reply to a request for a window gives: the window that was
/// created, or why there is none.
pub fn created_window(response: Response) -> (created: Result<CreateWindowResp, CreateFailure>)
    ensures
        created == match response {
            Response::Accepted(OkResponse::WindowCreated(w)) => Ok(w),
            Response::Rejected(e) => Err(CreateFailure::Refused(e)),
            other => Err(CreateFailure::Unexpected(other)),
        },
{
    match response {
        Response::Accepted(OkResponse::WindowCreated(w)) => Ok(w),
        Response::Rejected(e) => Err(CreateFailure::Refused(e)),
        other => Err(CreateFailure::Unexpected(other)),
    }
}

/// The colour that a new window is filled with: black, half transparent.
pub open spec fn spec_new_window_pixel() -> Pixel {
    Pixel { blue: 0, green: 0, red: 0, alpha: 0x80 }
}

/// The pixels of a window, in rows.
pub struct Canvas {
    width: u32,
    height: u32,
    pixels: Vec<Pixel>,
}

impl Canvas {
    /// The pixels, row by row.
    pub closed spec fn view(&self) -> Seq<Pixel> {
        self.pixels@
    }

    /// There are `width * height` pixels.
    #[verifier::type_invariant]
    pub closed spec fn wf(&self) -> bool {
        self.pixels@.len() == self.width * self.height
    }

    /// A canvas of `width` by `height` pixels, all of them `fill`; `None`
    /// when that many pixels cannot be held in memory.
    pub fn new(width: u32, height: u32, fill: Pixel) -> (canvas: Option<Self>)
        ensures
            canvas is Some <==> width * height <= usize::MAX,
            canvas matches Some(c) ==> {
                &&& c.spec_width() == width
                &&& c.spec_height() == height
                &&& c@ == Seq::new((width * height) as nat, |i: int| fill)
            },
    {
        assert(width * height <= 0xFFFF_FFFF * 0xFFFF_FFFF) by (nonlinear_arith)
            requires
                0 <= width <= 0xFFFF_FFFF,
                0 <= height <= 0xFFFF_FFFF,
        ;
        let wanted: u64 = width as u64 * height as u64;
        if wanted > usize::MAX as u64 {
            return None;
        }
        let pixels_required: usize = wanted as usize;
        let mut pixels: Vec<Pixel> = Vec::new();
        let mut i: usize = 0;
        while i < pixels_required
            invariant
                i <= pixels_required,
                pixels@ == Seq::new(i as nat, |j: int| fill),
            decreases pixels_required - i,
        {
            pixels.push(fill);
            i += 1;
            assert(pixels@ =~= Seq::new(i as nat, |j: int| fill));
        }
        Some(Self { width, height, pixels })
    }

    /// The pixels, row by row.
    pub fn pixels(&self) -> (pixels: &Vec<Pixel>)
        ensures
            pixels@ == self@,
    {
        &self.pixels
    }

    /// The pixel in column `x` of row `y` is the one at `y * width + x` of
    /// the pixels.
    pub proof fn lemma_pixel(&self, x: int, y: int)
        requires
            0 <= x < self.spec_width(),
            0 <= y < self.spec_height(),
        ensures
            self.spec_pixel(x, y) == self@[y * self.spec_width() + x],
    {
    }
}

impl DrawingCanvas for Canvas {
    closed spec fn spec_width(&self) -> u32 {
        self.width
    }

    closed spec fn spec_height(&self) -> u32 {
        self.height
    }

    closed spec fn spec_pixel(&self, x: int, y: int) -> Pixel {
        if 0 <= x < self.width && 0 <= y < self.height {
            self.pixels@[y * self.width + x]
        } else {
            Pixel { blue: 0, green: 0, red: 0, alpha: 0 }
        }
    }

    fn draw_pixel(&mut self, x: u32, y: u32, pixel: Pixel) {
        let len = self.pixels.len();
        let ghost stride = self.width as int;
        proof {
            use_type_invariant(&*self);
            assert(y * stride + x < stride * self.height) by (nonlinear_arith)
                requires
                    0 <= x < stride,
                    0 <= y < self.height,
            ;
            assert(0 <= y * stride) by (nonlinear_arith)
                requires
                    0 <= y,
                    0 <= stride,
            ;
        }
        let index: usize = y as usize * self.width as usize + x as usize;
        self.pixels[index] = pixel;
        proof {
            assert forall|i: int, j: int|
                #[trigger] self.spec_pixel(i, j) == if i == x && j == y {
                    pixel
                } else {
                    old(self).spec_pixel(i, j)
                } by {
                if 0 <= i < stride && 0 <= j < self.height {
                    assert(j * stride + i < stride * self.height) by (nonlinear_arith)
                        requires
                            0 <= i < stride,
                            0 <= j < self.height,
                    ;
                    assert(0 <= j * stride) by (nonlinear_arith)
                        requires
                            0 <= j,
                            0 <= stride,
                    ;
                    if j < y {
                        assert(j * stride + stride <= y * stride) by (nonlinear_arith)
                            requires
                                j + 1 <= y,
                                0 <= stride,
                        ;
                    } else if j > y {
                        assert(y * stride + stride <= j * stride) by (nonlinear_arith)
                            requires
                                y + 1 <= j,
                                0 <= stride,
                        ;
                    }
                }
            }
        }
    }

    fn height(&self) -> (h: u32) {
        self.height
    }

    fn width(&self) -> (w: u32) {
        self.width
    }
}

/// A window as its client holds it: the id that the window manager gave it
/// and the pixels that the client draws.
pub struct Window {
    pub win_id: u16,
    pub canvas: Canvas,
}

impl Window {
    /// The request that asks the window manager for a window of `width` by
    /// `height` pixels at (`x`, `y`).
    pub fn create_request(x: u32, y: u32, width: u32, height: u32) -> (request: Request)
        ensures
            request == Request::CreateWindow(CreateWindow { flags: 0, x, y, width, height }),
    {
        Request::CreateWindow(CreateWindow::new(0, width, height, x, y))
    }

    /// The window that the window manager has created in reply to a request
    /// for `width` by `height` pixels, filled with the colour of a new
    /// window; `None` when that many pixels cannot be held in memory.
    pub fn create(created: CreateWindowResp, width: u32, height: u32) -> (window: Option<Self>)
        ensures
            window is Some <==> width * height <= usize::MAX,
            window matches Some(w) ==> {
                &&& w.win_id == created.win_id
                &&& w.canvas.spec_width() == width
                &&& w.canvas.spec_height() == height
                &&& w.canvas@ == Seq::new((width * height) as nat, |i: int| spec_new_window_pixel())
            },
    {
        match Canvas::new(width, height, Pixel::from_rgba(0, 0, 0, 0x80)) {
            Some(canvas) => Some(Self { win_id: created.window_id(), canvas }),
            None => None,
        }
    }

    /// The request that asks the window manager to draw the rectangle of
    /// `width` by `height` pixels at (`from_x`, `from_y`) of the window
    /// again.
    pub fn redraw(&self, from_x: u32, from_y: u32, width: u32, height: u32) -> (request: Request)
        ensures
            request == Request::DamageWindow(
                DamageWindow { x: from_x, y: from_y, width, height, win_id: self.win_id, pad: 0 },
            ),
    {
        Request::DamageWindow(DamageWindow::new(self.win_id, from_x, from_y, width, height))
    }

    /// The pixels, row by row.
    pub fn pixels(&self) -> (pixels: &Vec<Pixel>)
        ensures
            pixels@ == self.canvas@,
    {
        self.canvas.pixels()
    }
}

impl DrawingCanvas for Window {
    open spec fn spec_width(&self) -> u32 {
        self.canvas.spec_width()
    }

    open spec fn spec_height(&self) -> u32 {
        self.canvas.spec_height()
    }

    open spec fn spec_pixel(&self, x: int, y: int) -> Pixel {
        self.canvas.spec_pixel(x, y)
    }

    fn draw_pixel(&mut self, x: u32, y: u32, pixel: Pixel) {
        self.canvas.draw_pixel(x, y, pixel)
    }

    fn height(&self) -> (h: u32) {
        self.canvas.height()
    }

    fn width(&self) -> (w: u32) {
        self.canvas.width()
    }
}

/// The radius of the corners of a decorated window.
pub const CORNER_RADIUS: u32 = 8;

/// The height of the title bar of a decorated window.
pub const TITLE_HEIGHT: u32 = 20;

/// The colour of the border of a decorated window.
pub open spec fn spec_border_color() -> Pixel {
    Pixel { blue: 0xC0, green: 0xB0, red: 0xFD, alpha: 0xFF }
}

/// The colour of the inside of a decorated window.
pub open spec fn spec_bg_color() -> Pixel {
    Pixel { blue: 0, green: 0, red: 0, alpha: 0x80 }
}

/// A window with its decoration: a border with rounded corners around the
/// area that belongs to the program.
pub struct RootContainer {
    root: Window,
    width: u32,
    height: u32,
    window_x: u32,
    window_y: u32,
}

impl RootContainer {
    /// The window that is decorated.
    pub closed spec fn spec_root(&self) -> Window {
        self.root
    }

    /// The width and the height of the area of the program.
    pub closed spec fn spec_size(&self) -> (u32, u32) {
        (self.width, self.height)
    }

    /// Where in the window the area of the program starts.
    pub closed spec fn spec_origin(&self) -> (u32, u32) {
        (self.window_x, self.window_y)
    }

    /// The size of the window that holds an area of `width` by `height`
    /// pixels and its decoration; `None` when the size is beyond the range
    /// of 32 bits.
    pub fn real_size(width: u32, height: u32) -> (size: Option<(u32, u32)>)
        ensures
            size == if width + CORNER_RADIUS <= u32::MAX && height + TITLE_HEIGHT <= u32::MAX {
                Some(((width + CORNER_RADIUS) as u32, (height + TITLE_HEIGHT) as u32))
            } else {
                None
            },
    {
        if width > u32::MAX - CORNER_RADIUS || height > u32::MAX - TITLE_HEIGHT {
            None
        } else {
            Some((width + CORNER_RADIUS, height + TITLE_HEIGHT))
        }
    }

    /// Decorates the window `win`, which has the real size of an area of
    /// `width` by `height` pixels: paints the rounded border and the inside
    /// over all of it. Returns the container and the request that asks the
    /// window manager to draw the window again.
    pub fn new(win: Window, width: u32, height: u32) -> (made: (Self, Request))
        requires
            width >= 11,
            win.spec_width() == width + CORNER_RADIUS,
            win.spec_height() == height + TITLE_HEIGHT,
            win.spec_width() + CORNER_RADIUS < u32::MAX,
            win.spec_height() + CORNER_RADIUS < u32::MAX,
        ensures
            made.0.spec_size() == (width, height),
            made.0.spec_origin() == ((CORNER_RADIUS / 2) as u32, TITLE_HEIGHT),
            made.0.spec_root().win_id == win.win_id,
            made.0.spec_root().spec_width() == win.spec_width(),
            made.0.spec_root().spec_height() == win.spec_height(),
            forall|i: int, j: int|
                #[trigger] made.0.spec_root().spec_pixel(i, j) == painted(
                    i,
                    j,
                    round_rect_strokes(
                        0,
                        0,
                        win.spec_width() as int,
                        win.spec_height() as int,
                        CORNER_RADIUS as int,
                        spec_border_color(),
                        spec_bg_color(),
                    ),
                    win.spec_pixel(i, j),
                ),
            made.1 == Request::DamageWindow(
                DamageWindow {
                    x: 0,
                    y: 0,
                    width: win.spec_width(),
                    height: win.spec_height(),
                    win_id: win.win_id,
                    pad: 0,
                },
            ),
    {
        let real_width = width + CORNER_RADIUS;
        let real_height = height + TITLE_HEIGHT;
        let window_x = CORNER_RADIUS / 2;
        let window_y = TITLE_HEIGHT;

        let Window { win_id, canvas } = win;
        let mut canvas = canvas;
        canvas.draw_round_rect(
            0,
            0,
            real_width,
            real_height,
            CORNER_RADIUS,
            Pixel::from_rgba(0xFD, 0xB0, 0xC0, 0xFF),
            Pixel::from_rgba(0, 0, 0, 0x80),
        );
        let win = Window { win_id, canvas };
        let request = win.redraw(0, 0, real_width, real_height);
        (Self { root: win, width, height, window_x, window_y }, request)
    }

    /// The window that is decorated.
    pub fn root(&self) -> (root: &Window)
        ensures
            *root == self.spec_root(),
    {
        &self.root
    }
}

} // verus!
