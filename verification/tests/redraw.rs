use opal_wm::fb::Pixel;
use opal_wm::framebuffer::{bg_pixel, Framebuffer};
use opal_wm::window::{redraw, DamageRegion, IntersectionPoint, Window, WindowKind, Windows};

fn at(fb: &Framebuffer, x: usize, y: usize) -> Pixel {
    fb.pixels()[x + y * fb.width()]
}

#[test]
fn redraw_without_damage_does_nothing() {
    let mut store = Windows::new(8, 6);
    let start = Pixel::from_rgba(1, 2, 3, 4);
    let mut fb = Framebuffer::new(8, 6, start);
    assert!(store.damage_redraw(&mut fb).is_empty());
    assert!(redraw(&mut store, &mut fb).is_empty());
    assert!(fb.pixels().iter().all(|p| *p == start));
}

#[test]
fn damage_list_is_empty_after_a_redraw() {
    let mut store = Windows::new(8, 6);
    let mut fb = Framebuffer::new(8, 6, Pixel::from_hex(0));
    store.add_window(Window::new_filled_with(1, 1, 2, 2, Pixel::from_hex(0xFF00FF00)), WindowKind::Normal);
    store.damage_window(0, 0, 0, 1, 1).unwrap();
    assert!(store.should_redraw());
    let mended = store.damage_redraw(&mut fb);
    assert_eq!(mended, vec![DamageRegion::new(1, 1, 2, 2), DamageRegion::new(1, 1, 1, 1)]);
    assert!(store.damaged_regions().is_empty());
    assert!(!store.should_redraw());
    assert!(store.damage_redraw(&mut fb).is_empty());
}

#[test]
fn create_then_damage_shows_the_pixels_over_the_background() {
    let mut store = Windows::new(200, 150);
    let start = Pixel::from_rgba(9, 9, 9, 9);
    let mut fb = Framebuffer::new(200, 150, start);
    let k = store
        .add_window(
            Window::new_filled_with(10, 20, 100, 80, Pixel::from_rgba(0, 0, 0, 0xFF)).with_com_pipe(1),
            WindowKind::Normal,
        )
        .unwrap();
    // the client draws: a gradient, opaque
    let drawn: Vec<Pixel> =
        (0..8000u32).map(|i| Pixel::from_rgba((i % 100) as u8, (i / 100) as u8, 7, 255)).collect();
    store.update_pixels(k, drawn.clone()).unwrap();
    store.damage_window(k, 0, 0, 100, 80).unwrap();
    let mended = redraw(&mut store, &mut fb);
    assert_eq!(mended.len(), 2);
    for y in 0..150 {
        for x in 0..200 {
            let inside = (10..110).contains(&x) && (20..100).contains(&y);
            let expect = if inside {
                drawn[(x - 10) + (y - 20) * 100].blend(&bg_pixel())
            } else {
                start
            };
            assert_eq!(at(&fb, x, y), expect);
        }
    }
    assert_eq!(at(&fb, 10, 20), Pixel::from_rgba(0, 0, 7, 255));
    assert_eq!(at(&fb, 109, 99), Pixel::from_rgba(99, 79, 7, 255));
}

#[test]
fn only_the_damaged_part_is_drawn() {
    let mut store = Windows::new(20, 20);
    let start = Pixel::from_rgba(9, 9, 9, 9);
    let mut fb = Framebuffer::new(20, 20, start);
    let red = Pixel::from_rgba(255, 0, 0, 255);
    let k = store.add_window(Window::new_filled_with(5, 5, 10, 10, red), WindowKind::Normal).unwrap();
    store.damage_redraw(&mut fb);
    // wipe the surface, then damage a corner of the window and an area outside of it
    let mut fb = Framebuffer::new(20, 20, start);
    store.damage_window(k, 8, 8, 5, 5).unwrap();
    let mended = store.damage_redraw(&mut fb);
    assert_eq!(mended, vec![DamageRegion::new(13, 13, 2, 2)]);
    for y in 0..20 {
        for x in 0..20 {
            let expect = if (13..15).contains(&x) && (13..15).contains(&y) { red } else { start };
            assert_eq!(at(&fb, x, y), expect);
        }
    }
}

#[test]
fn removed_window_leaves_background() {
    let mut store = Windows::new(20, 20);
    let mut fb = Framebuffer::new(20, 20, Pixel::from_hex(0));
    let red = Pixel::from_rgba(255, 0, 0, 255);
    let blue = Pixel::from_rgba(0, 0, 255, 255);
    let a = store.add_window(Window::new_filled_with(0, 0, 10, 10, red), WindowKind::Normal).unwrap();
    let b = store.add_window(Window::new_filled_with(5, 5, 10, 10, blue), WindowKind::Normal).unwrap();
    store.damage_redraw(&mut fb);
    assert_eq!(at(&fb, 2, 2), red);
    assert_eq!(at(&fb, 7, 7), blue);
    assert_eq!(at(&fb, 12, 12), blue);
    store.remove_window(b).unwrap();
    store.damage_redraw(&mut fb);
    assert_eq!(at(&fb, 2, 2), red);
    assert_eq!(at(&fb, 7, 7), red);
    assert_eq!(at(&fb, 12, 12), bg_pixel());
    assert_eq!(at(&fb, 17, 17), Pixel::from_hex(0));
    store.remove_window(a).unwrap();
    store.damage_redraw(&mut fb);
    assert_eq!(at(&fb, 2, 2), bg_pixel());
}

#[test]
fn overlays_are_drawn_over_normal_windows() {
    let mut store = Windows::new(20, 20);
    let mut fb = Framebuffer::new(20, 20, Pixel::from_hex(0));
    let red = Pixel::from_rgba(255, 0, 0, 255);
    let white = Pixel::from_rgba(255, 255, 255, 255);
    let cursor = store.add_window(Window::new_filled_with(4, 4, 3, 3, white), WindowKind::Overlay).unwrap();
    // the normal window is added later and still drawn below
    store.add_window(Window::new_filled_with(0, 0, 10, 10, red), WindowKind::Normal).unwrap();
    store.damage_redraw(&mut fb);
    assert_eq!(at(&fb, 5, 5), white);
    assert_eq!(at(&fb, 3, 3), red);
    // moving the cursor mends the place it left
    assert_eq!(store.add_cord(cursor, 10, 0), Some((14, 4)));
    let mended = store.damage_redraw(&mut fb);
    assert_eq!(mended, vec![DamageRegion::new(4, 4, 3, 3), DamageRegion::new(14, 4, 3, 3)]);
    assert_eq!(at(&fb, 5, 5), red);
    assert_eq!(at(&fb, 15, 5), white);
}

#[test]
fn the_window_in_front_is_drawn_last() {
    let mut store = Windows::new(20, 20);
    let mut fb = Framebuffer::new(20, 20, Pixel::from_hex(0));
    let red = Pixel::from_rgba(255, 0, 0, 255);
    let blue = Pixel::from_rgba(0, 0, 255, 255);
    let a = store.add_window(Window::new_filled_with(0, 0, 10, 10, red), WindowKind::Normal).unwrap();
    store.add_window(Window::new_filled_with(5, 5, 10, 10, blue), WindowKind::Normal).unwrap();
    store.damage_redraw(&mut fb);
    assert_eq!(at(&fb, 7, 7), blue);
    store.set_focused(a);
    store.damage_redraw(&mut fb);
    assert_eq!(at(&fb, 7, 7), red);
    assert_eq!(at(&fb, 12, 12), blue);
}

#[test]
fn draw_at_draws_a_part_or_the_whole() {
    let start = Pixel::from_rgba(9, 9, 9, 9);
    let pixels: Vec<Pixel> = (0..12u8).map(|i| Pixel::from_rgba(i, 0, 0, 255)).collect();
    let win = Window::new_from_pixels(2, 1, 4, 3, pixels.clone());
    let part = DamageRegion::new(3, 2, 2, 1).overlaps_with(&win).unwrap();
    assert_eq!((part.x(), part.y(), part.width(), part.height()), (1, 1, 2, 1));
    let mut fb = Framebuffer::new(8, 5, start);
    win.draw_at(&mut fb, part);
    for y in 0..5 {
        for x in 0..8 {
            let expect = if y == 2 && (x == 3 || x == 4) { pixels[(x - 2) + (y - 1) * 4] } else { start };
            assert_eq!(at(&fb, x, y), expect);
        }
    }
    let whole = DamageRegion::new(0, 0, 100, 100).overlaps_with(&win).unwrap();
    let mut fb = Framebuffer::new(8, 5, start);
    win.draw_at(&mut fb, whole);
    let mut other = Framebuffer::new(8, 5, start);
    win.draw(&mut other);
    assert_eq!(fb.pixels(), other.pixels());
    assert_eq!(at(&fb, 2, 1), pixels[0]);
    assert_eq!(at(&fb, 5, 3), pixels[11]);
    assert_eq!(at(&fb, 6, 3), start);
    // "no intersection" as a part draws nothing of a window that holds pixels
    let mut fb = Framebuffer::new(8, 5, start);
    win.draw_at(&mut fb, IntersectionPoint::none());
    assert!(fb.pixels().iter().all(|p| *p == start));
}
