use opal_wm::fb::Pixel;
use opal_wm::framebuffer::{
    bg_pixel, clear, pages_required, Framebuffer, FramebufferDevInfo, CMD_RECEIVE_FB_INFO,
    CMD_SYNC_PIXELS,
};

#[test]
fn from_rgba_reorders_channels() {
    let p = Pixel::from_rgba(1, 2, 3, 4);
    assert_eq!((p.red, p.green, p.blue, p.alpha), (1, 2, 3, 4));
    assert_eq!(p, Pixel { blue: 3, green: 2, red: 1, alpha: 4 });
}

#[test]
fn from_hex_takes_bytes_low_first() {
    let p = Pixel::from_hex(0x8011_2233);
    assert_eq!(p, Pixel::from_rgba(0x11, 0x22, 0x33, 0x80));
    assert_eq!(Pixel::from_hex(0x282828), Pixel::from_rgba(0x28, 0x28, 0x28, 0));
    assert_eq!(Pixel::from_hex(0), Pixel::from_rgba(0, 0, 0, 0));
    assert_eq!(Pixel::from_hex(u32::MAX), Pixel::from_rgba(255, 255, 255, 255));
}

#[test]
fn opaque_source_replaces_destination() {
    let src = Pixel::from_rgba(10, 200, 30, 255);
    for dst in [
        Pixel::from_rgba(0, 0, 0, 0),
        Pixel::from_rgba(255, 255, 255, 255),
        Pixel::from_rgba(9, 8, 7, 100),
    ] {
        assert_eq!(src.blend(&dst), src);
    }
}

#[test]
fn transparent_source_keeps_destination_alpha() {
    let src = Pixel::from_rgba(10, 200, 30, 0);
    let dst = Pixel::from_rgba(9, 8, 7, 1);
    assert_eq!(src.blend(&dst), dst);
    let dst = Pixel::from_rgba(9, 8, 7, 0);
    assert_eq!(src.blend(&dst), Pixel::from_rgba(0, 0, 0, 0));
    let dst = Pixel::from_rgba(9, 8, 7, 77);
    assert_eq!(src.blend(&dst).alpha, 77);
}

#[test]
fn blend_formula_values() {
    // (100 * 128 + 0) / 255 = 50, alpha 128 + 0 - 0 = 128
    let src = Pixel::from_rgba(100, 200, 255, 128);
    let dst = Pixel::from_rgba(40, 40, 40, 0);
    assert_eq!(src.blend(&dst), Pixel::from_rgba(50, 100, 128, 128));
    // over a destination of alpha 1: (100 * 128 + 40 * 1 * 127) / 255 = 70
    let dst = Pixel::from_rgba(40, 40, 40, 1);
    assert_eq!(src.blend(&dst), Pixel::from_rgba(70, 120, 147, 129));
    // the weighted sum wraps at 16 bits: 40 * 255 * 127 = 1295400 = 19 * 65536 + 50216,
    // (12800 + 50216) % 65536 = 63016, 63016 / 255 = 247
    let dst = Pixel::from_rgba(40, 0, 0, 255);
    let out = src.blend(&dst);
    assert_eq!(out.red, 247);
    assert_eq!(out.green, 100);
    assert_eq!(out.alpha, 255);
}

#[test]
fn blend_matches_sixteen_bit_arithmetic() {
    let mut seed: u32 = 99;
    let mut next = || {
        seed = seed.wrapping_mul(1_103_515_245).wrapping_add(12345);
        (seed >> 16) as u8
    };
    for _ in 0..5000 {
        let s = Pixel::from_rgba(next(), next(), next(), next());
        let d = Pixel::from_rgba(next(), next(), next(), next());
        let channel = |sc: u8, dc: u8| -> u8 {
            let sa = s.alpha as u16;
            let da = d.alpha as u16;
            let sum = (sc as u16)
                .wrapping_mul(sa)
                .wrapping_add((dc as u16).wrapping_mul(da).wrapping_mul(255 - sa));
            (sum / 255) as u8
        };
        let out = s.blend(&d);
        assert_eq!(out.red, channel(s.red, d.red));
        assert_eq!(out.green, channel(s.green, d.green));
        assert_eq!(out.blue, channel(s.blue, d.blue));
        let alpha = s.alpha as u16 + d.alpha as u16 - (s.alpha as u16 * d.alpha as u16) / 255;
        assert_eq!(out.alpha as u16, alpha);
    }
}

#[test]
fn background_is_opaque_grey() {
    assert_eq!(bg_pixel(), Pixel::from_rgba(0x28, 0x28, 0x28, 0xFF));
}

#[test]
fn device_layout_support() {
    let info = FramebufferDevInfo { width: 4, height: 3, bpp: 32, bgr: false };
    assert!(info.is_supported());
    assert!(!FramebufferDevInfo { bpp: 24, ..info }.is_supported());
    assert!(!FramebufferDevInfo { bgr: true, ..info }.is_supported());
}

#[test]
fn fill_overwrites_rows_and_stops_at_the_end() {
    let black = Pixel::from_rgba(0, 0, 0, 0);
    let red = Pixel::from_rgba(255, 0, 0, 255);
    let mut fb = Framebuffer::new(4, 3, black);
    assert_eq!((fb.width(), fb.height()), (4, 3));
    fb.draw_rect_filled_with(1, 1, 2, 1, red);
    let expect = [
        black, black, black, black, //
        black, red, red, black, //
        black, black, black, black,
    ];
    assert_eq!(fb.pixels().as_slice(), &expect);

    // rows past the end are dropped, and the last row is cut where the surface ends
    let mut fb = Framebuffer::new(4, 3, black);
    fb.draw_rect_filled_with(2, 2, 4, 5, red);
    let expect = [
        black, black, black, black, //
        black, black, black, black, //
        black, black, red, red,
    ];
    assert_eq!(fb.pixels().as_slice(), &expect);

    // a row that is not cut at the right edge runs on into the next row
    let mut fb = Framebuffer::new(4, 3, black);
    fb.draw_rect_filled_with(3, 0, 2, 2, red);
    let expect = [
        black, black, black, red, //
        red, black, black, red, //
        red, black, black, black,
    ];
    assert_eq!(fb.pixels().as_slice(), &expect);

    // far out of range: nothing happens
    let mut fb = Framebuffer::new(4, 3, black);
    fb.draw_rect_filled_with(usize::MAX, usize::MAX, usize::MAX, usize::MAX, red);
    assert!(fb.pixels().iter().all(|p| *p == black));
    fb.draw_rect_filled_with(0, 3, 4, 1, red);
    assert!(fb.pixels().iter().all(|p| *p == black));
}

#[test]
fn clear_fills_everything() {
    let mut fb = Framebuffer::new(5, 2, Pixel::from_rgba(1, 2, 3, 4));
    clear(&mut fb);
    assert_eq!(fb.pixels().len(), 10);
    assert!(fb.pixels().iter().all(|p| *p == bg_pixel()));
    let mut empty = Framebuffer::new(0, 7, Pixel::from_rgba(1, 2, 3, 4));
    clear(&mut empty);
    assert_eq!(empty.pixels().len(), 0);
}

#[test]
fn blend_rectangle_within_source() {
    let black = Pixel::from_rgba(0, 0, 0, 0);
    // a source of 3 by 2 opaque pixels, each with its index as red
    let src: Vec<Pixel> = (0..6u8).map(|i| Pixel::from_rgba(i + 1, 0, 0, 255)).collect();
    let mut fb = Framebuffer::new(4, 3, black);
    // the 2 by 1 rectangle at (1, 1) of the source goes to (2, 0) of the surface
    fb.draw_rect_within(2, 0, 2, 1, &src, 3, 2, 1, 1);
    let expect = [
        black, black, src[4], src[5], //
        black, black, black, black, //
        black, black, black, black,
    ];
    assert_eq!(fb.pixels().as_slice(), &expect);

    // cut to the source and to the surface
    let mut fb = Framebuffer::new(4, 3, black);
    fb.draw_rect_within(3, 2, 10, 10, &src, 3, 2, 0, 0);
    let mut expect = [black; 12];
    expect[11] = src[0];
    assert_eq!(fb.pixels().as_slice(), &expect);

    // nothing is left of the source from (3, 0) on, and nothing of the surface from x = 4
    let mut fb = Framebuffer::new(4, 3, black);
    fb.draw_rect_within(0, 0, 2, 2, &src, 3, 2, 3, 0);
    fb.draw_rect_within(4, 0, 2, 2, &src, 3, 2, 0, 0);
    fb.draw_rect_within(0, 9, 2, 2, &src, 3, 2, 0, 0);
    assert!(fb.pixels().iter().all(|p| *p == black));

    // the whole source, blended
    let mut fb = Framebuffer::new(4, 3, Pixel::from_rgba(0, 9, 0, 1));
    let half = vec![Pixel::from_rgba(255, 0, 0, 128); 2];
    fb.draw_rect(1, 1, 2, 1, &half);
    let under = Pixel::from_rgba(0, 9, 0, 1);
    let over = Pixel::from_rgba(255, 0, 0, 128).blend(&under);
    assert_eq!(over, Pixel::from_rgba(128, 4, 0, 129));
    let expect = [
        under, under, under, under, //
        under, over, over, under, //
        under, under, under, under,
    ];
    assert_eq!(fb.pixels().as_slice(), &expect);
}

#[test]
fn pages_for_pixels() {
    assert_eq!(pages_required(0, 0), Some(0));
    assert_eq!(pages_required(1, 1), Some(1));
    assert_eq!(pages_required(32, 32), Some(1));
    assert_eq!(pages_required(32, 33), Some(2));
    assert_eq!(pages_required(1024, 768), Some(768));
    assert_eq!(pages_required(1000, 700), Some(684));
    assert_eq!(pages_required(usize::MAX, 2), None);
    assert_eq!(pages_required(usize::MAX / 2, 1), None);
    assert_eq!((CMD_RECEIVE_FB_INFO, CMD_SYNC_PIXELS), (1, 2));
}

#[test]
fn pixels_are_ordered_by_their_fields() {
    // blue counts first, then green, red and alpha
    assert!(Pixel::from_rgba(9, 9, 1, 9) < Pixel::from_rgba(0, 0, 2, 0));
    assert!(Pixel::from_rgba(9, 1, 5, 9) < Pixel::from_rgba(0, 2, 5, 0));
    assert!(Pixel::from_rgba(1, 5, 5, 9) < Pixel::from_rgba(2, 5, 5, 0));
    assert!(Pixel::from_rgba(5, 5, 5, 1) < Pixel::from_rgba(5, 5, 5, 2));
    assert!(Pixel::from_hex(0x01000000) < Pixel::from_hex(0x00000100));
    assert!(Pixel::from_hex(0x00000001) > Pixel::from_hex(0xFFFFFF00));
    assert_eq!(Pixel::from_hex(7).max(Pixel::from_hex(8)), Pixel::from_hex(8));
    let mut pixels = vec![Pixel::from_hex(3), Pixel::from_hex(0x0100), Pixel::from_hex(1)];
    pixels.sort();
    assert_eq!(pixels, vec![Pixel::from_hex(0x0100), Pixel::from_hex(1), Pixel::from_hex(3)]);
}

#[test]
fn draw_rect_takes_more_pixels_than_it_needs() {
    let black = Pixel::from_rgba(0, 0, 0, 0);
    let src: Vec<Pixel> = (0..10u8).map(|i| Pixel::from_rgba(i + 1, 0, 0, 255)).collect();
    let mut fb = Framebuffer::new(4, 3, black);
    // two rows of two pixels: the first four source pixels
    fb.draw_rect(1, 1, 2, 2, &src);
    let expect = [
        black, black, black, black, //
        black, src[0], src[1], black, //
        black, src[2], src[3], black,
    ];
    assert_eq!(fb.pixels().as_slice(), &expect);
    let mut fb = Framebuffer::new(4, 3, black);
    fb.draw_rect_within(0, 0, 2, 1, &src, 3, 2, 1, 1);
    assert_eq!(fb.pixels()[0], src[4]);
    assert_eq!(fb.pixels()[1], src[5]);
}
