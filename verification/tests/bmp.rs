use opal_wm::bmp::{BMPBitmasks, BMPImage, BMPParseError, UnsupportedFeature};
use opal_wm::fb::Pixel;
use opal_wm::window::Window;

/// A bitmap file: the two headers of 14 and `dib_size` bytes, then the stored pixels.
fn file(width: i32, height: i32, compression: u32, dib_size: u32, masks: Option<[u32; 4]>, stored: &[u32]) -> Vec<u8> {
    let pixels_off = 14 + dib_size;
    let size = pixels_off + 4 * stored.len() as u32;
    let mut out = Vec::new();
    out.extend_from_slice(b"BM");
    out.extend_from_slice(&size.to_le_bytes());
    out.extend_from_slice(&[0; 4]);
    out.extend_from_slice(&pixels_off.to_le_bytes());
    out.extend_from_slice(&dib_size.to_le_bytes());
    out.extend_from_slice(&width.to_le_bytes());
    out.extend_from_slice(&height.to_le_bytes());
    out.extend_from_slice(&1u16.to_le_bytes());
    out.extend_from_slice(&32u16.to_le_bytes());
    out.extend_from_slice(&compression.to_le_bytes());
    out.extend_from_slice(&(4 * stored.len() as u32).to_le_bytes());
    out.extend_from_slice(&[0; 8]);
    out.extend_from_slice(&0u32.to_le_bytes());
    out.extend_from_slice(&0u32.to_le_bytes());
    if let Some(masks) = masks {
        for mask in masks {
            out.extend_from_slice(&mask.to_le_bytes());
        }
    }
    while out.len() < pixels_off as usize {
        out.push(0);
    }
    for pixel in stored {
        out.extend_from_slice(&pixel.to_le_bytes());
    }
    out
}

#[test]
fn default_masks() {
    assert_eq!(
        BMPBitmasks::default(),
        BMPBitmasks { red_channel: 0xFF0000, green_channel: 0xFF00, blue_channel: 0xFF, alpha_channel: 0 }
    );
}

#[test]
fn uncompressed_image_is_read_bottom_row_first() {
    // 2 by 3: the file stores the bottom row first
    let stored = [0x00_01_02_03, 0x00_11_12_13, 0x00_21_22_23, 0x00_31_32_33, 0x00_41_42_43, 0xFF_51_52_53];
    let bytes = file(2, 3, 0, 40, None, &stored);
    let image = BMPImage::from_slice(&bytes).unwrap();
    assert_eq!((image.width(), image.height()), (2, 3));
    let expect = vec![
        Pixel::from_rgba(0x41, 0x42, 0x43, 0),
        Pixel::from_rgba(0x51, 0x52, 0x53, 0),
        Pixel::from_rgba(0x21, 0x22, 0x23, 0),
        Pixel::from_rgba(0x31, 0x32, 0x33, 0),
        Pixel::from_rgba(0x01, 0x02, 0x03, 0),
        Pixel::from_rgba(0x11, 0x12, 0x13, 0),
    ];
    assert_eq!(image.to_pixels(), expect);
    assert_eq!(image.pixel_at(0, 1), expect[1]);
    assert_eq!(image.pixel_at(2, 0), expect[4]);
    let mut walk = image.pixels();
    for pixel in &expect {
        assert_eq!(walk.next(), Some(*pixel));
    }
    assert_eq!(walk.next(), None);
    assert_eq!(walk.next(), None);
}

#[test]
fn bitfield_masks_pick_the_channels() {
    // alpha in the low byte, then blue, green, red
    let masks = [0xFF00_0000, 0x00FF_0000, 0x0000_FF00, 0x0000_00FF];
    let stored = [0xAA_BB_CC_DD, 0x01_02_03_04];
    let bytes = file(2, 1, 3, 56, Some(masks), &stored);
    let image = BMPImage::from_slice(&bytes).unwrap();
    assert_eq!(
        image.to_pixels(),
        vec![Pixel::from_rgba(0xAA, 0xBB, 0xCC, 0xDD), Pixel::from_rgba(1, 2, 3, 4)]
    );
    // a mask of 12 bits: the channel is cut to its low byte
    let wide = [0x0FFF_0000, 0, 0, 0];
    let bytes = file(1, 1, 3, 56, Some(wide), &[0x0ABC_0000]);
    let image = BMPImage::from_slice(&bytes).unwrap();
    assert_eq!(image.to_pixels(), vec![Pixel::from_rgba(0xBC, 0, 0, 0)]);
    // longer information headers are skipped
    let bytes = file(2, 1, 3, 124, Some(masks), &stored);
    assert_eq!(bytes.len(), 14 + 124 + 8);
    assert_eq!(BMPImage::from_slice(&bytes).unwrap().to_pixels().len(), 2);
}

#[test]
fn empty_images() {
    let bytes = file(0, 5, 0, 40, None, &[]);
    let image = BMPImage::from_slice(&bytes).unwrap();
    assert_eq!((image.width(), image.height()), (0, 5));
    assert!(image.to_pixels().is_empty());
    assert_eq!(image.pixels().next(), None);
    let bytes = file(5, 0, 0, 40, None, &[]);
    assert!(BMPImage::from_slice(&bytes).unwrap().to_pixels().is_empty());
}

#[test]
fn each_error() {
    let err = |bytes: &[u8]| BMPImage::from_slice(bytes).err();
    let good = file(1, 1, 0, 40, None, &[0]);
    assert!(BMPImage::from_slice(&good).is_ok());

    assert_eq!(err(&[]), Some(BMPParseError::InvalidSize));
    assert_eq!(err(&good[..13]), Some(BMPParseError::InvalidSize));
    let mut bad = good.clone();
    bad[0] = b'X';
    assert_eq!(err(&bad), Some(BMPParseError::UnsupportedMagic));
    // shorter than the file says
    assert_eq!(err(&good[..57]), Some(BMPParseError::Corrupted));
    // the size is right, the information header is cut
    let mut short = good[..30].to_vec();
    short[2..6].copy_from_slice(&30u32.to_le_bytes());
    assert_eq!(err(&short), Some(BMPParseError::InvalidSize));
    // a colour table
    let mut table = good.clone();
    table[46] = 1;
    assert_eq!(err(&table), Some(BMPParseError::Unsupported(UnsupportedFeature::ColorTable)));
    // 24 bits per pixel
    let mut bpp = good.clone();
    bpp[28] = 24;
    assert_eq!(err(&bpp), Some(BMPParseError::UnsupportedBPP));
    // run-length compression
    let mut rle = good.clone();
    rle[30] = 1;
    assert_eq!(err(&rle), Some(BMPParseError::UnsupportedComperssion));
    // bit fields without room for the masks
    let mut fields = good.clone();
    fields[30] = 3;
    assert_eq!(err(&fields), Some(BMPParseError::UnsupportedComperssion));
    // an information header that says it is shorter than it is, or longer than the file
    let mut tiny = good.clone();
    tiny[14] = 39;
    assert_eq!(err(&tiny), Some(BMPParseError::InvalidSize));
    let mut long = good.clone();
    long[14..18].copy_from_slice(&500u32.to_le_bytes());
    assert_eq!(err(&long), Some(BMPParseError::InvalidSize));
    // negative sizes
    let wide = file(-1, 1, 0, 40, None, &[0]);
    assert_eq!(err(&wide), Some(BMPParseError::Unsupported(UnsupportedFeature::NegativeWidth)));
    let tall = file(1, -1, 0, 40, None, &[0]);
    assert_eq!(err(&tall), Some(BMPParseError::Unsupported(UnsupportedFeature::NegativeHeight)));
    // more pixels than bytes
    let mut many = file(2, 2, 0, 40, None, &[0, 0, 0]);
    many[2..6].copy_from_slice(&10u32.to_le_bytes());
    assert_eq!(err(&many), Some(BMPParseError::InvalidSize));
    let vast = file(i32::MAX, i32::MAX, 0, 40, None, &[0]);
    assert_eq!(err(&vast), Some(BMPParseError::InvalidSize));
}

#[test]
fn window_from_an_image() {
    let stored = [0x00_0A_0B_0C, 0x00_1A_1B_1C];
    let bytes = file(1, 2, 0, 40, None, &stored);
    let image = BMPImage::from_slice(&bytes).unwrap();
    let win = Window::new_from_bmp(3, 4, image);
    assert_eq!((win.pos_x(), win.pos_y(), win.width(), win.height()), (3, 4, 1, 2));
    assert_eq!(
        win.pixels(),
        &vec![Pixel::from_rgba(0x1A, 0x1B, 0x1C, 0), Pixel::from_rgba(0x0A, 0x0B, 0x0C, 0)]
    );
}
