//! RGBA pixel grids stored row-major, one `Rgba` per pixel.

use vstd::prelude::*;

verus! {

/// One pixel: red, green, blue and alpha channels, eight bits each.
#[derive(Clone, Copy, Debug, PartialEq, Eq, Structural)]
pub struct Rgba {
    pub r: u8,
    pub g: u8,
    pub b: u8,
    pub a: u8,
}

/// The fully transparent black pixel.
pub open spec fn transparent() -> Rgba {
    Rgba { r: 0, g: 0, b: 0, a: 0 }
}

/// An opaque gray pixel whose three color channels are `level`.
pub open spec fn gray(level: u8) -> Rgba {
    Rgba { r: level, g: level, b: level, a: 255 }
}

/// The `c`-th channel of `p`, in the order red, green, blue, alpha.
pub open spec fn channel(p: Rgba, c: int) -> u8 {
    if c == 0 {
        p.r
    } else if c == 1 {
        p.g
    } else if c == 2 {
        p.b
    } else {
        p.a
    }
}

/// Pixels packed as four bytes each, in the order red, green, blue, alpha.
pub open spec fn rgba_bytes(pixels: Seq<Rgba>) -> Seq<u8> {
    Seq::new(4 * pixels.len(), |j: int| channel(pixels[j / 4], j % 4))
}

/// The pixels that a buffer of packed RGBA bytes holds, four bytes each.
pub open spec fn pixels_of(bytes: Seq<u8>) -> Seq<Rgba> {
    Seq::new(
        bytes.len() / 4,
        |i: int| Rgba { r: bytes[4 * i], g: bytes[4 * i + 1], b: bytes[4 * i + 2], a: bytes[4 * i + 3] },
    )
}

/// A grid of `width` x `height` pixels; pixel `(x, y)` is at `y * width + x`.
#[derive(Clone, Debug)]
pub struct Image {
    pub width: u32,
    pub height: u32,
    pub pixels: Vec<Rgba>,
}

/// What an image denotes: its width, its height and its row-major pixels.
pub type Raster = (u32, u32, Seq<Rgba>);

/// The pixel at column `x` of row `y` of a row-major grid `width` wide.
pub open spec fn pixel_at(pixels: Seq<Rgba>, width: int, x: int, y: int) -> Rgba {
    pixels[y * width + x]
}

/// The area of a grid of `u32` sides fits in a `u64`.
pub proof fn lemma_area_fits_u64(width: u32, height: u32)
    ensures
        width * height <= u64::MAX,
{
    assert(width * height <= 0xffff_ffffu64 * 0xffff_ffffu64) by (nonlinear_arith)
        requires
            width <= 0xffff_ffffu64,
            height <= 0xffff_ffffu64,
    ;
}

impl View for Image {
    type V = Raster;

    open spec fn view(&self) -> Raster {
        (self.width, self.height, self.pixels@)
    }
}

/// A raster whose pixel count matches its dimensions.
pub open spec fn raster_wf(img: Raster) -> bool {
    img.2.len() == img.0 * img.1
}

impl Image {
    /// The image holds exactly one pixel per cell of its grid.
    pub open spec fn wf(&self) -> bool {
        raster_wf(self@)
    }

    /// A fully transparent image of the given size.
    pub fn new(width: u32, height: u32) -> (r: Image)
        requires
            width * height <= usize::MAX,
        ensures
            r.wf(),
            r.width == width,
            r.height == height,
            forall|i: int| 0 <= i < r.pixels@.len() ==> r.pixels@[i] == transparent(),
    {
        let n: usize = (width as usize) * (height as usize);
        let mut pixels: Vec<Rgba> = Vec::with_capacity(n);
        let mut i: usize = 0;
        while i < n
            invariant
                i <= n,
                pixels@.len() == i,
                forall|k: int| 0 <= k < i ==> pixels@[k] == transparent(),
            decreases n - i,
        {
            pixels.push(Rgba { r: 0, g: 0, b: 0, a: 0 });
            i = i + 1;
        }
        Image { width, height, pixels }
    }

    /// The image of the given size held by a buffer of packed RGBA bytes, or
    /// `None` when the buffer's length is not four bytes per pixel.
    pub fn from_rgba_bytes(width: u32, height: u32, bytes: &Vec<u8>) -> (r: Option<Image>)
        ensures
            r.is_some() <==> bytes@.len() == 4 * (width * height),
            r matches Some(img) ==> img@ == (width, height, pixels_of(bytes@)) && img.wf(),
    {
        proof {
            lemma_area_fits_u64(width, height);
        }
        let n: u64 = (width as u64) * (height as u64);
        let len = bytes.len();
        if n > (usize::MAX / 4) as u64 || len != 4 * (n as usize) {
            return None;
        }
        Some(Image::from_packed(width, height, bytes))
    }

    /// The image of the given size held by a buffer of packed RGBA bytes of
    /// exactly four bytes per pixel.
    pub fn from_packed(width: u32, height: u32, bytes: &Vec<u8>) -> (r: Image)
        requires
            bytes@.len() == 4 * (width * height),
        ensures
            r@ == (width, height, pixels_of(bytes@)),
            r.wf(),
    {
        let len = bytes.len();
        let n: usize = len / 4;
        let mut pixels: Vec<Rgba> = Vec::with_capacity(n);
        let mut i: usize = 0;
        while i < n
            invariant
                i <= n,
                n == width * height,
                4 * n <= usize::MAX,
                bytes@.len() == 4 * n,
                pixels@.len() == i,
                forall|k: int| 0 <= k < i ==> pixels@[k] == pixels_of(bytes@)[k],
            decreases n - i,
        {
            let p = Rgba {
                r: bytes[4 * i],
                g: bytes[4 * i + 1],
                b: bytes[4 * i + 2],
                a: bytes[4 * i + 3],
            };
            pixels.push(p);
            i = i + 1;
        }
        assert(pixels@ =~= pixels_of(bytes@));
        Image { width, height, pixels }
    }

    /// The pixels packed as four bytes each, in the order red, green, blue, alpha.
    pub fn to_rgba_bytes(&self) -> (r: Vec<u8>)
        requires
            4 * self.pixels@.len() <= usize::MAX,
        ensures
            r@ == rgba_bytes(self.pixels@),
            pixels_of(r@) == self.pixels@,
    {
        let n = self.pixels.len();
        let mut bytes: Vec<u8> = Vec::with_capacity(4 * n);
        let mut i: usize = 0;
        while i < n
            invariant
                i <= n,
                n == self.pixels@.len(),
                4 * n <= usize::MAX,
                bytes@.len() == 4 * i,
                forall|j: int| 0 <= j < 4 * i ==> bytes@[j] == rgba_bytes(self.pixels@)[j],
            decreases n - i,
        {
            let p = self.pixels[i];
            bytes.push(p.r);
            bytes.push(p.g);
            bytes.push(p.b);
            bytes.push(p.a);
            proof {
                assert forall|j: int| 4 * i <= j < 4 * i + 4 implies bytes@[j] == rgba_bytes(
                    self.pixels@,
                )[j] by {
                    assert(j / 4 == i as int);
                    assert(j % 4 == j - 4 * i);
                }
            }
            i = i + 1;
        }
        assert(bytes@ =~= rgba_bytes(self.pixels@));
        proof {
            assert forall|k: int| 0 <= k < n implies pixels_of(bytes@)[k] == self.pixels@[k] by {
                assert((4 * k) / 4 == k && (4 * k) % 4 == 0);
                assert((4 * k + 1) / 4 == k && (4 * k + 1) % 4 == 1);
                assert((4 * k + 2) / 4 == k && (4 * k + 2) % 4 == 2);
                assert((4 * k + 3) / 4 == k && (4 * k + 3) % 4 == 3);
            }
            assert(pixels_of(bytes@) =~= self.pixels@);
        }
        bytes
    }
}

} // verus!
