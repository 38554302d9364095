//! A reader for bitmap images with 32 bits per pixel, such as the image of
//! the cursor.

use vstd::prelude::*;
use vstd::std_specs::bits::{axiom_u32_trailing_zeros, u32_trailing_zeros};
use crate::com::packet::{le_u16_at, le_u32_at, u16_at, u32_at};
use crate::fb::Pixel;

verus! {

/// The length of the header at the start of a bitmap file.
pub const BMP_HEADER_SIZE: usize = 14;

/// The length of the information header that follows the file header.
pub const DIB_HEADER_SIZE: usize = 40;

/// The compression kind of pixels that are stored by channel masks.
pub const COMPRESS_B_BITFIELDS: u32 = 0x3;

/// The compression kind of uncompressed pixels.
pub const COMPRESS_B_RGB: u32 = 0x0;

/// The bits of a stored pixel that hold each channel.
#[derive(Debug, Clone, Copy, PartialEq, Eq, Structural)]
pub struct BMPBitmasks {
    pub red_channel: u32,
    pub green_channel: u32,
    pub blue_channel: u32,
    pub alpha_channel: u32,
}

impl BMPBitmasks {
    /// The masks of a bitmap that names none: red, green, blue from the
    /// third byte down, and no alpha.
    pub open spec fn spec_default() -> BMPBitmasks {
        BMPBitmasks {
            red_channel: 0xFF0000,
            green_channel: 0xFF00,
            blue_channel: 0xFF,
            alpha_channel: 0x00,
        }
    }
}

impl Default for BMPBitmasks {
    fn default() -> (masks: Self)
        ensures
            masks == Self::spec_default(),
    {
        Self { red_channel: 0xFF0000, green_channel: 0xFF00, blue_channel: 0xFF, alpha_channel: 0x00 }
    }
}

/// What a bitmap file can do that this reader does not support.
#[derive(Debug, Clone, Copy, PartialEq, Eq, Structural)]
pub enum UnsupportedFeature {
    ColorTable,
    NegativeWidth,
    NegativeHeight,
}

/// Why a bitmap file could not be read.
#[derive(Debug, Clone, Copy, PartialEq, Eq, Structural)]
pub enum BMPParseError {
    /// The file does not start with "BM".
    UnsupportedMagic,
    /// The file is shorter than its headers or its pixels need.
    InvalidSize,
    /// The pixels have another size than 32 bits.
    UnsupportedBPP,
    /// The pixels are compressed.
    UnsupportedComperssion,
    /// The file is shorter than it says.
    Corrupted,
    /// The file uses what this reader does not support.
    Unsupported(UnsupportedFeature),
}

/// What the headers of a bitmap file say about its pixels.
#[derive(Debug, Clone, Copy, PartialEq, Eq, Structural)]
pub struct BMPLayout {
    pub bitmasks: BMPBitmasks,
    pub width: u32,
    pub height: u32,
    /// Where in the file the pixels start.
    pub pixels_off: u32,
}

/// The channel masks of a file whose headers have been found in order: those
/// that the file names behind its information header, or the default ones.
pub open spec fn spec_bitmasks(bytes: Seq<u8>) -> Result<BMPBitmasks, BMPParseError> {
    let dib_size = le_u32_at(bytes, 14);
    let compression = le_u32_at(bytes, 30);
    if dib_size < 40 {
        Err(BMPParseError::InvalidSize)
    } else if compression == COMPRESS_B_BITFIELDS && dib_size - 40 >= 16 {
        if bytes.len() < 14 + dib_size {
            Err(BMPParseError::InvalidSize)
        } else {
            Ok(
                BMPBitmasks {
                    red_channel: le_u32_at(bytes, 54),
                    green_channel: le_u32_at(bytes, 58),
                    blue_channel: le_u32_at(bytes, 62),
                    alpha_channel: le_u32_at(bytes, 66),
                },
            )
        }
    } else if compression == COMPRESS_B_RGB {
        if bytes.len() < 14 + dib_size {
            Err(BMPParseError::InvalidSize)
        } else {
            Ok(BMPBitmasks::spec_default())
        }
    } else {
        Err(BMPParseError::UnsupportedComperssion)
    }
}

/// What the headers of the file `bytes` say, or why the file cannot be read.
/// The checks are made in this order, and the first that fails decides.
pub open spec fn spec_layout(bytes: Seq<u8>) -> Result<BMPLayout, BMPParseError> {
    if bytes.len() < 14 {
        Err(BMPParseError::InvalidSize)
    } else if bytes[0] != 0x42 || bytes[1] != 0x4D {
        Err(BMPParseError::UnsupportedMagic)
    } else if bytes.len() < le_u32_at(bytes, 2) {
        Err(BMPParseError::Corrupted)
    } else if bytes.len() < 54 {
        Err(BMPParseError::InvalidSize)
    } else if le_u32_at(bytes, 46) != 0 {
        Err(BMPParseError::Unsupported(UnsupportedFeature::ColorTable))
    } else if le_u16_at(bytes, 28) != 32 {
        Err(BMPParseError::UnsupportedBPP)
    } else {
        match spec_bitmasks(bytes) {
            Err(e) => Err(e),
            Ok(bitmasks) => {
                let width = le_u32_at(bytes, 18);
                let height = le_u32_at(bytes, 22);
                let pixels_off = le_u32_at(bytes, 10);
                if width >= 0x8000_0000 {
                    Err(BMPParseError::Unsupported(UnsupportedFeature::NegativeWidth))
                } else if height >= 0x8000_0000 {
                    Err(BMPParseError::Unsupported(UnsupportedFeature::NegativeHeight))
                } else if bytes.len() < pixels_off + width * height * 4 {
                    Err(BMPParseError::InvalidSize)
                } else {
                    Ok(BMPLayout { bitmasks, width, height, pixels_off })
                }
            },
        }
    }
}

/// One channel of a stored pixel: the bits under `mask`, moved down to bit
/// 0 and cut to a byte. A channel without a mask is 0.
pub open spec fn spec_channel(stored: u32, mask: u32) -> u8 {
    if mask == 0 {
        0
    } else {
        (((stored & mask) >> u32_trailing_zeros(mask)) % 0x100) as u8
    }
}

/// The pixel that the four bytes from `bytes[at]` store under `masks`.
pub open spec fn spec_stored_pixel(bytes: Seq<u8>, at: int, masks: BMPBitmasks) -> Pixel {
    let stored = le_u32_at(bytes, at);
    Pixel {
        red: spec_channel(stored, masks.red_channel),
        green: spec_channel(stored, masks.green_channel),
        blue: spec_channel(stored, masks.blue_channel),
        alpha: spec_channel(stored, masks.alpha_channel),
    }
}

/// A bitmap image that has been read.
pub struct BMPImage<'a> {
    bitmasks: BMPBitmasks,
    width: u32,
    height: u32,
    bpp: u16,
    pixels: &'a [u8],
}

impl<'a> BMPImage<'a> {
    /// The channel masks.
    pub closed spec fn spec_bitmasks(&self) -> BMPBitmasks {
        self.bitmasks
    }

    /// The number of columns.
    pub closed spec fn spec_width(&self) -> u32 {
        self.width
    }

    /// The number of rows.
    pub closed spec fn spec_height(&self) -> u32 {
        self.height
    }

    /// The stored pixels: four bytes each, row by row from the bottom row.
    pub closed spec fn spec_stored(&self) -> Seq<u8> {
        self.pixels@
    }

    /// There are four bytes for each pixel, and 32 bits per pixel.
    #[verifier::type_invariant]
    pub closed spec fn wf(&self) -> bool {
        &&& self.pixels@.len() == self.width * self.height * 4
        &&& self.bpp == 32
    }

    /// What well-formedness says in terms of the public accessors.
    pub proof fn lemma_wf(&self)
        ensures
            self.wf() ==> self.spec_stored().len() == self.spec_width() * self.spec_height() * 4,
    {
    }

    /// The pixel in column `col` of row `row`, rows counted from the top:
    /// the file stores the bottom row first.
    pub open spec fn spec_pixel_at(&self, row: int, col: int) -> Pixel {
        spec_stored_pixel(
            self.spec_stored(),
            (col + (self.spec_height() - 1 - row) * self.spec_width()) * 4,
            self.spec_bitmasks(),
        )
    }

    /// The pixels of the image, row by row from the top.
    pub open spec fn spec_pixels(&self) -> Seq<Pixel> {
        Seq::new(
            (self.spec_width() * self.spec_height()) as nat,
            |i: int| self.spec_pixel_at(i / (self.spec_width() as int), i % (self.spec_width() as int)),
        )
    }

    pub fn width(&self) -> (w: usize)
        ensures
            w == self.spec_width(),
    {
        self.width as usize
    }

    pub fn height(&self) -> (h: usize)
        ensures
            h == self.spec_height(),
    {
        self.height as usize
    }

    /// Reads a bitmap image from the bytes of a file.
    pub fn from_slice(slice: &'a [u8]) -> (image: Result<Self, BMPParseError>)
        ensures
            match spec_layout(slice@) {
                Err(e) => image == Err::<Self, BMPParseError>(e),
                Ok(layout) => {
                    &&& image is Ok
                    &&& image.unwrap().wf()
                    &&& image.unwrap().spec_bitmasks() == layout.bitmasks
                    &&& image.unwrap().spec_width() == layout.width
                    &&& image.unwrap().spec_height() == layout.height
                    &&& image.unwrap().spec_stored() == slice@.subrange(
                        layout.pixels_off as int,
                        layout.pixels_off + layout.width * layout.height * 4,
                    )
                },
            },
    {
        let len = slice.len();
        if len < BMP_HEADER_SIZE {
            return Err(BMPParseError::InvalidSize);
        }
        if slice[0] != 0x42 || slice[1] != 0x4D {
            return Err(BMPParseError::UnsupportedMagic);
        }
        let file_size = u32_at(slice, 2);
        let pixels_off = u32_at(slice, 10);
        if (len as u64) < file_size as u64 {
            return Err(BMPParseError::Corrupted);
        }
        if len < BMP_HEADER_SIZE + DIB_HEADER_SIZE {
            return Err(BMPParseError::InvalidSize);
        }
        let dib_size = u32_at(slice, 14);
        let width = u32_at(slice, 18);
        let height = u32_at(slice, 22);
        let bpp = u16_at(slice, 28);
        let compression = u32_at(slice, 30);
        let color_platte_colors = u32_at(slice, 46);
        if color_platte_colors != 0 {
            return Err(BMPParseError::Unsupported(UnsupportedFeature::ColorTable));
        }
        if bpp != 32 {
            return Err(BMPParseError::UnsupportedBPP);
        }
        if dib_size < 40 {
            return Err(BMPParseError::InvalidSize);
        }
        let unread = dib_size - 40;
        let bitmasks = if compression == COMPRESS_B_BITFIELDS && unread >= 16 {
            if (len as u64) < 14 + dib_size as u64 {
                return Err(BMPParseError::InvalidSize);
            }
            BMPBitmasks {
                red_channel: u32_at(slice, 54),
                green_channel: u32_at(slice, 58),
                blue_channel: u32_at(slice, 62),
                alpha_channel: u32_at(slice, 66),
            }
        } else if compression == COMPRESS_B_RGB {
            if (len as u64) < 14 + dib_size as u64 {
                return Err(BMPParseError::InvalidSize);
            }
            BMPBitmasks::default()
        } else {
            return Err(BMPParseError::UnsupportedComperssion);
        };
        if width >= 0x8000_0000 {
            return Err(BMPParseError::Unsupported(UnsupportedFeature::NegativeWidth));
        }
        if height >= 0x8000_0000 {
            return Err(BMPParseError::Unsupported(UnsupportedFeature::NegativeHeight));
        }
        assert(width * height * 4 <= 0x8000_0000 * 0x8000_0000 * 4) by (nonlinear_arith)
            requires
                0 <= width < 0x8000_0000,
                0 <= height < 0x8000_0000,
        ;
        assert(0 <= width * height) by (nonlinear_arith)
            requires
                0 <= width,
                0 <= height,
        ;
        let pixels_bytes: u128 = (width as u128) * (height as u128) * 4;
        let end: u128 = pixels_off as u128 + pixels_bytes;
        if (len as u128) < end {
            return Err(BMPParseError::InvalidSize);
        }
        let pixels = vstd::slice::slice_subrange(slice, pixels_off as usize, end as usize);
        Ok(Self { bitmasks, width, height, bpp, pixels })
    }

    /// The pixel in column `col` of row `row`, rows counted from the top.
    pub fn pixel_at(&self, row: usize, col: usize) -> (pixel: Pixel)
        requires
            row < self.spec_height(),
            col < self.spec_width(),
        ensures
            pixel == self.spec_pixel_at(row as int, col as int),
    {
        proof {
            use_type_invariant(self);
        }
        let width = self.width as usize;
        let height = self.height as usize;
        let len = self.pixels.len();
        let line = height - 1 - row;
        proof {
            assert(col + line * width < width * height) by (nonlinear_arith)
                requires
                    0 <= col < width,
                    0 <= line < height,
            ;
            assert(0 <= line * width) by (nonlinear_arith)
                requires
                    0 <= width,
                    0 <= line,
            ;
            assert(len == width * height * 4);
        }
        let start = (col + line * width) * 4;
        let stored = u32_at(self.pixels, start);
        Pixel::from_rgba(
            channel(stored, self.bitmasks.red_channel),
            channel(stored, self.bitmasks.green_channel),
            channel(stored, self.bitmasks.blue_channel),
            channel(stored, self.bitmasks.alpha_channel),
        )
    }

    /// The pixels of the image, row by row from the top.
    pub fn to_pixels(&self) -> (pixels: Vec<Pixel>)
        ensures
            pixels@ == self.spec_pixels(),
    {
        proof {
            use_type_invariant(self);
        }
        let width = self.width as usize;
        let height = self.height as usize;
        let mut pixels: Vec<Pixel> = Vec::new();
        let mut row: usize = 0;
        while row < height
            invariant
                row <= height,
                width == self.spec_width(),
                height == self.spec_height(),
                pixels@.len() == row * width,
                forall|i: int| 0 <= i < pixels@.len() ==> pixels@[i] == self.spec_pixels()[i],
                self.spec_pixels().len() == width * height,
            decreases height - row,
        {
            let mut col: usize = 0;
            while col < width
                invariant
                    row < height,
                    col <= width,
                    width == self.spec_width(),
                    height == self.spec_height(),
                    pixels@.len() == row * width + col,
                    forall|i: int| 0 <= i < pixels@.len() ==> pixels@[i] == self.spec_pixels()[i],
                    self.spec_pixels().len() == width * height,
                decreases width - col,
            {
                let pixel = self.pixel_at(row, col);
                proof {
                    let i = row * width + col;
                    assert(i < width * height) by (nonlinear_arith)
                        requires
                            i == row * width + col,
                            0 <= col < width,
                            0 <= row < height,
                    ;
                    assert(row * width == width * row) by (nonlinear_arith);
                    vstd::arithmetic::div_mod::lemma_fundamental_div_mod_converse(
                        i as int,
                        width as int,
                        row as int,
                        col as int,
                    );
                }
                pixels.push(pixel);
                col += 1;
            }
            proof {
                assert(row * width + width == (row + 1) * width) by (nonlinear_arith);
            }
            row += 1;
        }
        proof {
            assert(height * width == width * height) by (nonlinear_arith);
            assert(pixels@ =~= self.spec_pixels());
        }
        pixels
    }

    /// A walk over the pixels of the image, row by row from the top.
    pub fn pixels(&'a self) -> (walk: BMPPixels<'a>)
        ensures
            walk.spec_image() == self,
            walk.spec_done() == 0,
    {
        BMPPixels { image: self, done: 0 }
    }
}

/// One channel of a stored pixel.
fn channel(stored: u32, mask: u32) -> (value: u8)
    ensures
        value == spec_channel(stored, mask),
{
    if mask == 0 {
        0
    } else {
        proof {
            axiom_u32_trailing_zeros(mask);
        }
        let shift = mask.trailing_zeros();
        (((stored & mask) >> shift) % 0x100) as u8
    }
}

/// A walk over the pixels of a bitmap image, row by row from the top.
pub struct BMPPixels<'a> {
    image: &'a BMPImage<'a>,
    /// The number of pixels that have been handed out.
    done: usize,
}

impl<'a> BMPPixels<'a> {
    /// The image that is walked over.
    pub closed spec fn spec_image(&self) -> &'a BMPImage<'a> {
        self.image
    }

    /// The number of pixels that have been handed out.
    pub closed spec fn spec_done(&self) -> usize {
        self.done
    }

    /// The next pixel of the image, or `None` when all have been handed out.
    pub fn next(&mut self) -> (pixel: Option<Pixel>)
        ensures
            final(self).spec_image() == old(self).spec_image(),
            pixel == if old(self).spec_done() < old(self).spec_image().spec_pixels().len() {
                Some(old(self).spec_image().spec_pixels()[old(self).spec_done() as int])
            } else {
                None
            },
            final(self).spec_done() == if pixel is Some {
                old(self).spec_done() + 1
            } else {
                old(self).spec_done() as int
            },
    {
        proof {
            use_type_invariant(self.image);
        }
        let width = self.image.width();
        let height = self.image.height();
        if width == 0 {
            assert(width * height == 0) by (nonlinear_arith)
                requires
                    width == 0,
            ;
            return None;
        }
        let row = self.done / width;
        let col = self.done % width;
        proof {
            vstd::arithmetic::div_mod::lemma_fundamental_div_mod(self.done as int, width as int);
            assert(width * (self.done / width) as int == (self.done / width) * width)
                by (nonlinear_arith);
            if row >= height {
                assert(row * width >= height * width) by (nonlinear_arith)
                    requires
                        row >= height,
                        width >= 0,
                ;
                assert(height * width == width * height) by (nonlinear_arith);
            } else {
                assert(row * width + col < width * height) by (nonlinear_arith)
                    requires
                        0 <= col < width,
                        0 <= row < height,
                ;
            }
        }
        if row >= height {
            return None;
        }
        let stored = self.image.pixels.len();
        assert(self.done < width * height);
        assert(stored == width * height * 4);
        let pixel = self.image.pixel_at(row, col);
        self.done = self.done + 1;
        Some(pixel)
    }
}

} // verus!
