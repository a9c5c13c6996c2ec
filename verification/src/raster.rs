//! Raster images held as rows of pixels with an alpha channel.

use vstd::arithmetic::div_mod::lemma_fundamental_div_mod_converse;
use vstd::prelude::*;

verus! {

/// One pixel: red, green, blue and alpha, eight bits each.
#[derive(Clone, Copy, Debug, PartialEq, Eq, Structural)]
pub struct Pixel {
    pub red: u8,
    pub green: u8,
    pub blue: u8,
    pub alpha: u8,
}

/// A raster image. The pixels stand row after row, the top row first, each
/// row from left to right.
#[derive(Debug)]
pub struct Raster {
    width: u32,
    height: u32,
    pixels: Vec<Pixel>,
}

/// What a `Raster` holds, as mathematical values.
pub struct RasterView {
    pub width: nat,
    pub height: nat,
    pub pixels: Seq<Pixel>,
}

impl RasterView {
    /// There is one pixel for each place of the image.
    pub open spec fn wf(self) -> bool {
        self.pixels.len() == self.width * self.height
    }

    /// Whether the image has a pixel in column `x` of row `y`.
    pub open spec fn has(self, x: int, y: int) -> bool {
        0 <= x < self.width && 0 <= y < self.height
    }

    /// The pixel in column `x` of row `y`.
    pub open spec fn at(self, x: int, y: int) -> Pixel {
        self.pixels[y * self.width + x]
    }
}

/// The pixels that a buffer of bytes holds, four bytes to the pixel: red,
/// green, blue, alpha.
pub open spec fn pixels_of(bytes: Seq<u8>) -> Seq<Pixel> {
    Seq::new(
        (bytes.len() / 4) as nat,
        |i: int|
            Pixel {
                red: bytes[4 * i],
                green: bytes[4 * i + 1],
                blue: bytes[4 * i + 2],
                alpha: bytes[4 * i + 3],
            },
    )
}

/// The channel of a pixel at position `k` of its four bytes.
pub open spec fn channel(pixel: Pixel, k: int) -> u8 {
    if k == 0 {
        pixel.red
    } else if k == 1 {
        pixel.green
    } else if k == 2 {
        pixel.blue
    } else {
        pixel.alpha
    }
}

/// The bytes of a row of pixels, four bytes to the pixel: red, green, blue,
/// alpha.
pub open spec fn bytes_of(pixels: Seq<Pixel>) -> Seq<u8> {
    Seq::new(4 * pixels.len(), |k: int| channel(pixels[k / 4], k % 4))
}

/// Reading back the bytes of a row of pixels gives the pixels.
pub proof fn lemma_pixels_of_bytes_of(pixels: Seq<Pixel>)
    ensures
        pixels_of(bytes_of(pixels)) == pixels,
        bytes_of(pixels).len() == 4 * pixels.len(),
{
    assert(pixels_of(bytes_of(pixels)) =~= pixels);
}

/// The place of column `x` in row `y` lies within the pixels, and is the
/// only place whose row is `y` and whose column is `x`.
pub proof fn lemma_place(width: int, height: int, x: int, y: int)
    requires
        0 <= x < width,
        0 <= y < height,
    ensures
        0 <= y * width + x < width * height,
        (y * width + x) / width == y,
        (y * width + x) % width == x,
{
    assert(y * width + width <= height * width) by (nonlinear_arith)
        requires
            0 <= y < height,
            0 < width,
    ;
    assert(0 <= y * width) by (nonlinear_arith)
        requires
            0 <= y,
            0 < width,
    ;
    assert(height * width == width * height) by (nonlinear_arith);
    lemma_fundamental_div_mod_converse(y * width + x, width, y, x);
}

/// A place within the pixels has its row and its column within the image.
pub proof fn lemma_row_and_column(width: int, height: int, i: int)
    requires
        0 <= i < width * height,
        0 <= width,
        0 <= height,
    ensures
        0 < width,
        0 <= i % width < width,
        0 <= i / width < height,
        (i / width) * width + i % width == i,
{
    assert(0 < width) by (nonlinear_arith)
        requires
            0 <= i < width * height,
            0 <= width,
    ;
    assert(0 <= i / width < height && 0 <= i % width < width && (i / width) * width + i % width
        == i) by (nonlinear_arith)
        requires
            0 <= i < width * height,
            0 < width,
    ;
}

/// The pixels that a buffer of bytes holds, four bytes to the pixel.
pub(crate) fn read_pixels(bytes: &Vec<u8>) -> (pixels: Vec<Pixel>)
    requires
        bytes@.len() % 4 == 0,
    ensures
        pixels@ == pixels_of(bytes@),
        4 * pixels@.len() == bytes@.len(),
{
    let mut pixels: Vec<Pixel> = Vec::new();
    let mut i: usize = 0;
    while i < bytes.len() / 4
        invariant
            bytes@.len() % 4 == 0,
            i <= bytes@.len() / 4,
            pixels@ == pixels_of(bytes@).take(i as int),
        decreases bytes.len() / 4 - i,
    {
        let pixel = Pixel {
            red: bytes[4 * i],
            green: bytes[4 * i + 1],
            blue: bytes[4 * i + 2],
            alpha: bytes[4 * i + 3],
        };
        pixels.push(pixel);
        assert(pixels@ =~= pixels_of(bytes@).take(i + 1));
        i += 1;
    }
    assert(pixels@ =~= pixels_of(bytes@));
    pixels
}

impl View for Raster {
    type V = RasterView;

    closed spec fn view(&self) -> RasterView {
        RasterView {
            width: self.width as nat,
            height: self.height as nat,
            pixels: self.pixels@,
        }
    }
}

impl Raster {
    #[verifier::type_invariant]
    spec fn one_pixel_per_place(self) -> bool {
        self.pixels@.len() == self.width * self.height
    }

    /// The image of the given width and height whose pixels are read from
    /// `bytes`, four bytes to the pixel. There is no such image unless the
    /// buffer holds exactly four bytes for each place.
    pub fn from_rgba8(width: u32, height: u32, bytes: &Vec<u8>) -> (image: Option<Raster>)
        ensures
            image is Some <==> bytes@.len() == 4 * width * height,
            image matches Some(raster) ==> {
                &&& raster@.width == width
                &&& raster@.height == height
                &&& raster@.pixels == pixels_of(bytes@)
                &&& raster@.wf()
            },
    {
        assert(0 <= width * height <= 0xffff_ffff * 0xffff_ffff) by (nonlinear_arith)
            requires
                0 <= width <= 0xffff_ffff,
                0 <= height <= 0xffff_ffff,
        ;
        assert(4 * width * height == 4 * (width * height)) by (nonlinear_arith);
        let places: u64 = (width as u64) * (height as u64);
        if bytes.len() as u128 != 4 * (places as u128) {
            return None;
        }
        let pixels = read_pixels(bytes);
        Some(Raster { width, height, pixels })
    }

    /// The image of the given width and height with the given pixels.
    pub(crate) fn assemble(width: u32, height: u32, pixels: Vec<Pixel>) -> (image: Raster)
        requires
            pixels@.len() == width * height,
        ensures
            image@ == (RasterView { width: width as nat, height: height as nat, pixels: pixels@ }),
            image@.wf(),
    {
        Raster { width, height, pixels }
    }

    /// The pixels of the image, row after row.
    pub fn pixels(&self) -> (pixels: &Vec<Pixel>)
        ensures
            pixels@ == self@.pixels,
            self@.wf(),
    {
        proof {
            use_type_invariant(self);
        }
        &self.pixels
    }

    /// The bytes of the image, four bytes to the pixel.
    pub fn to_rgba8(&self) -> (bytes: Vec<u8>)
        ensures
            bytes@ == bytes_of(self@.pixels),
            bytes@.len() == 4 * self@.width * self@.height,
    {
        proof {
            use_type_invariant(self);
        }
        let mut bytes: Vec<u8> = Vec::new();
        let mut i: usize = 0;
        while i < self.pixels.len()
            invariant
                i <= self.pixels.len(),
                bytes@ == bytes_of(self.pixels@.take(i as int)),
            decreases self.pixels.len() - i,
        {
            let pixel = self.pixels[i];
            bytes.push(pixel.red);
            bytes.push(pixel.green);
            bytes.push(pixel.blue);
            bytes.push(pixel.alpha);
            assert(bytes@ =~= bytes_of(self.pixels@.take(i + 1)));
            i += 1;
        }
        assert(self.pixels@.take(self.pixels@.len() as int) =~= self.pixels@);
        assert(4 * (self.width * self.height) == 4 * self.width * self.height) by (nonlinear_arith);
        bytes
    }

    /// The number of columns.
    pub fn width(&self) -> (width: u32)
        ensures
            width == self@.width,
            self@.wf(),
    {
        proof {
            use_type_invariant(self);
        }
        self.width
    }

    /// The number of rows.
    pub fn height(&self) -> (height: u32)
        ensures
            height == self@.height,
            self@.wf(),
    {
        proof {
            use_type_invariant(self);
        }
        self.height
    }

    /// The pixel in column `x` of row `y`, if the image has one there.
    pub fn get_pixel(&self, x: u32, y: u32) -> (pixel: Option<Pixel>)
        ensures
            pixel == if self@.has(x as int, y as int) {
                Some(self@.at(x as int, y as int))
            } else {
                None::<Pixel>
            },
    {
        proof {
            use_type_invariant(self);
        }
        if x < self.width && y < self.height {
            let count = self.pixels.len();
            proof {
                lemma_place(self.width as int, self.height as int, x as int, y as int);
                assert(y * self.width + x < count);
                assert(0 <= y * self.width) by (nonlinear_arith)
                    requires
                        0 <= y,
                        0 <= self.width,
                ;
            }
            let place = (y as usize) * (self.width as usize) + (x as usize);
            Some(self.pixels[place])
        } else {
            None
        }
    }
}

} // verus!
