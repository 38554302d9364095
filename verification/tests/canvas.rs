use opal_wm::canvas::DrawingCanvas;
use opal_wm::client::{
    created_window, ping_succeeded, Canvas, CreateFailure, EventsQueue, RootContainer, Window,
    CORNER_RADIUS, TITLE_HEIGHT,
};
use opal_wm::com::request::{CreateWindow, DamageWindow, Request};
use opal_wm::com::response::error::ResponseError;
use opal_wm::com::response::event::Event;
use opal_wm::com::response::{CreateWindowResp, OkResponse, Response};
use opal_wm::fb::Pixel;

const BLANK: Pixel = Pixel { blue: 0, green: 0, red: 0, alpha: 0 };
const RED: Pixel = Pixel { blue: 0, green: 0, red: 255, alpha: 255 };
const BLUE: Pixel = Pixel { blue: 255, green: 0, red: 0, alpha: 255 };

/// The canvas as lines of text: `#` for red, `o` for blue, `.` for blank.
fn picture(canvas: &Canvas) -> Vec<String> {
    let w = canvas.width() as usize;
    canvas
        .pixels()
        .chunks(w)
        .map(|row| {
            row.iter()
                .map(|p| if *p == RED { '#' } else if *p == BLUE { 'o' } else if *p == BLANK { '.' } else { '?' })
                .collect()
        })
        .collect()
}

#[test]
fn pixels_rectangles_and_lines() {
    let mut canvas = Canvas::new(6, 4, BLANK).unwrap();
    assert_eq!((canvas.width(), canvas.height()), (6, 4));
    canvas.draw_pixel(5, 3, RED);
    canvas.draw_rect(1, 1, 3, 2, BLUE);
    canvas.draw_line(0, 0, 4, 0, RED);
    canvas.draw_rect_points(0, 2, 0, 3, RED);
    canvas.draw_rect(2, 2, 0, 0, RED);
    assert_eq!(picture(&canvas), vec!["#####.", ".ooo..", "#ooo..", "#....#"]);
}

#[test]
fn circle_of_radius_four() {
    // the walk passes the points (1, 4), (2, 3) and (3, 3) from the centre (5, 4)
    let mut canvas = Canvas::new(11, 10, BLANK).unwrap();
    canvas.draw_circle(1, 0, 4, RED, BLUE);
    assert_eq!(
        picture(&canvas),
        vec![
            "....#.#....",
            "..##...##..",
            "..#.....#..",
            ".#.......#.",
            "...........",
            ".#.......#.",
            "..#.....#..",
            "..##...##..",
            "....#.#....",
            "...........",
        ]
    );
    // nothing is drawn for the radius 0
    let mut canvas = Canvas::new(3, 3, BLANK).unwrap();
    canvas.draw_circle(1, 1, 0, RED, BLUE);
    assert_eq!(picture(&canvas), vec!["...", "...", "..."]);
}

#[test]
fn rounded_rectangle() {
    let mut canvas = Canvas::new(13, 9, BLANK).unwrap();
    canvas.draw_round_rect(1, 0, 11, 9, 3, RED, BLUE);
    assert_eq!(
        picture(&canvas),
        vec![
            "...#######...",
            "..#ooooooo#..",
            ".#ooooooooo#.",
            ".#ooooooooo#.",
            ".#ooooooooo#.",
            ".#ooooooooo#.",
            ".#ooooooooo#.",
            "..#ooooooo#..",
            "...#######...",
        ]
    );
    // without corners: a framed rectangle
    let mut canvas = Canvas::new(5, 4, BLANK).unwrap();
    canvas.draw_round_rect(0, 0, 5, 4, 0, RED, BLUE);
    assert_eq!(picture(&canvas), vec!["#ooo#", "#ooo#", "#ooo#", "#ooo#"]);
}

#[test]
fn client_window_requests() {
    assert_eq!(
        Window::create_request(1, 2, 30, 40),
        Request::CreateWindow(CreateWindow::new(0, 30, 40, 1, 2))
    );
    let mut window = Window::create(CreateWindowResp::new(9, 77), 3, 2).unwrap();
    assert_eq!(window.win_id, 9);
    assert_eq!((window.width(), window.height()), (3, 2));
    assert_eq!(window.pixels(), &vec![Pixel::from_rgba(0, 0, 0, 0x80); 6]);
    assert_eq!(window.redraw(1, 2, 3, 4), Request::DamageWindow(DamageWindow::new(9, 1, 2, 3, 4)));
    window.draw_pixel(2, 1, RED);
    assert_eq!(window.pixels()[5], RED);
    assert_eq!(window.pixels()[4], Pixel::from_rgba(0, 0, 0, 0x80));
    if usize::BITS < 64 {
        assert!(Window::create(CreateWindowResp::new(1, 1), u32::MAX, u32::MAX).is_none());
    }
}

#[test]
fn events_wait_in_the_queue() {
    let mut queue = EventsQueue::new();
    assert_eq!(queue.pop_event(), None);
    assert_eq!(queue.sort_response(Response::Event(Event::WindowFocused)), None);
    assert_eq!(queue.sort_response(Response::Event(Event::WindowUnfocused)), None);
    let reply = Response::Accepted(OkResponse::Success);
    assert_eq!(queue.sort_response(reply), Some(reply));
    let refused = Response::Rejected(ResponseError::UnknownWindow);
    assert_eq!(queue.sort_response(refused), Some(refused));
    // the event that came last is handed out first
    assert_eq!(queue.pop_event(), Some(Event::WindowUnfocused));
    assert_eq!(queue.pop_event(), Some(Event::WindowFocused));
    assert_eq!(queue.pop_event(), None);
}

#[test]
fn replies_are_told_apart() {
    assert!(ping_succeeded(&Response::Accepted(OkResponse::Success)));
    assert!(!ping_succeeded(&Response::Rejected(ResponseError::InvalidData)));
    assert!(!ping_succeeded(&Response::Event(Event::WindowFocused)));
    let created = CreateWindowResp::new(4, 5);
    assert_eq!(created_window(Response::Accepted(OkResponse::WindowCreated(created))), Ok(created));
    assert_eq!(
        created_window(Response::Rejected(ResponseError::UnknownFatalError)),
        Err(CreateFailure::Refused(ResponseError::UnknownFatalError))
    );
    let other = Response::Accepted(OkResponse::Success);
    assert_eq!(created_window(other), Err(CreateFailure::Unexpected(other)));
}

#[test]
fn decorated_window() {
    assert_eq!(RootContainer::real_size(100, 50), Some((108, 70)));
    assert_eq!(RootContainer::real_size(u32::MAX - 7, 0), None);
    assert_eq!(RootContainer::real_size(0, u32::MAX - 19), None);
    assert_eq!((CORNER_RADIUS, TITLE_HEIGHT), (8, 20));
    let window = Window::create(CreateWindowResp::new(3, 1), 40, 40).unwrap();
    let (container, request) = RootContainer::new(window, 32, 20);
    assert_eq!(request, Request::DamageWindow(DamageWindow::new(3, 0, 0, 40, 40)));
    let root = container.root();
    let border = Pixel::from_rgba(0xFD, 0xB0, 0xC0, 0xFF);
    let inside = Pixel::from_rgba(0, 0, 0, 0x80);
    let at = |x: usize, y: usize| root.pixels()[x + y * 40];
    // the corners stay as they were, the border runs between them, the inside is filled
    assert_eq!(at(0, 0), inside);
    assert_eq!(at(8, 0), border);
    assert_eq!(at(31, 0), border);
    assert_eq!(at(0, 8), border);
    assert_eq!(at(39, 31), border);
    assert_eq!(at(20, 39), border);
    assert_eq!(at(20, 20), inside);
    assert_eq!(at(1, 20), inside);
    assert_eq!(root.pixels().iter().filter(|p| **p == border).count() > 100, true);
}
