//! Images made of red, green, blue and alpha values

use crate::types::ChunkCoords;
use vstd::prelude::*;

verus! {

/// An image
#[derive(Debug, PartialEq, Eq)]
pub struct Pixels {
    /// Width in pixels
    pub width: u32,
    /// Height in pixels
    pub height: u32,
    /// Red, green, blue and alpha of each pixel, row by row
    pub data: Vec<u8>,
}

impl Pixels {
    /// The image has all of its pixels
    pub open spec fn wf(&self) -> bool {
        self.data@.len() == 4 * (self.width * self.height)
    }

    /// The image has a pixel at the given position
    pub open spec fn has(&self, x: int, y: int) -> bool {
        0 <= x < self.width && 0 <= y < self.height
    }

    /// Red, green, blue and alpha of the pixel at the given position
    pub open spec fn pixel(&self, x: int, y: int) -> Seq<u8> {
        self.data@.subrange(4 * (y * self.width + x), 4 * (y * self.width + x) + 4)
    }
}

/// The color of a pixel that another one has been blended into
pub uninterp spec fn blended(bottom: Seq<u8>, top: Seq<u8>) -> Seq<u8>;

/// An image after another one has been laid over it at the position (x, y)
pub open spec fn overlaid(before: Pixels, top: Pixels, x: int, y: int, after: Pixels) -> bool {
    &&& after.wf()
    &&& after.width == before.width
    &&& after.height == before.height
    &&& forall|i: int, j: int|
        before.has(i, j) ==> #[trigger] after.pixel(i, j) == (if top.has(i - x, j - y) {
            if top.pixel(i - x, j - y)[3] == 0 {
                // A transparent pixel changes nothing
                before.pixel(i, j)
            } else if top.pixel(i - x, j - y)[3] == 255 {
                // An opaque pixel covers what is below
                top.pixel(i - x, j - y)
            } else {
                blended(before.pixel(i, j), top.pixel(i - x, j - y))
            }
        } else {
            before.pixel(i, j)
        })
}

/// `image::imageops::overlay` on RGBA images: each pixel of the upper image that lies inside
/// the lower image is blended into the pixel below; transparent pixels change nothing, and
/// opaque pixels cover what is below
#[verifier::external_body]
fn overlay(bottom: &mut Pixels, top: &Pixels, x: i64, y: i64)
    requires
        old(bottom).wf(),
        top.wf(),
        0 <= x,
        0 <= y,
    ensures
        overlaid(*old(bottom), *top, x as int, y as int, *final(bottom)),
        forall|i: int, j: int|
            old(bottom).has(i, j) && top.has(i - x, j - y) && top.pixel(i - x, j - y)[3] != 0
                && top.pixel(i - x, j - y)[3] != 255 ==> #[trigger] final(bottom).pixel(i, j)
                == blended(old(bottom).pixel(i, j), top.pixel(i - x, j - y)),
{
    let data = core::mem::take(&mut bottom.data);
    let mut lower = image::RgbaImage::from_raw(bottom.width, bottom.height, data).unwrap();
    let upper = image::RgbaImage::from_raw(top.width, top.height, top.data.clone()).unwrap();
    image::imageops::overlay(&mut lower, &upper, x, y);
    bottom.data = lower.into_raw();
}

/// Copies a chunk image into a region tile
pub fn overlay_chunk(image: &mut Pixels, chunk: &Pixels, coords: ChunkCoords)
    requires
        old(image).wf(),
        chunk.wf(),
    ensures
        overlaid(*old(image), *chunk, coords.x * 16, coords.z * 16, *final(image)),
{
    overlay(image, chunk, coords.x as i64 * 16, coords.z as i64 * 16);
}

/// Copying a chunk image that has no half-transparent pixels leaves the pixels of all other
/// chunks alone and shows the opaque pixels of the chunk
pub proof fn chunk_shown(
    before: Pixels,
    chunk: Pixels,
    coords: ChunkCoords,
    after: Pixels,
    x: int,
    y: int,
)
    requires
        before.wf(),
        chunk.wf(),
        chunk.width == 16,
        chunk.height == 16,
        overlaid(before, chunk, coords.x * 16, coords.z * 16, after),
        before.has(x, y),
    ensures
        (x / 16 != coords.x || y / 16 != coords.z) ==> after.pixel(x, y) == before.pixel(x, y),
        x / 16 == coords.x && y / 16 == coords.z && chunk.pixel(x % 16, y % 16)[3] == 255
            ==> after.pixel(x, y) == chunk.pixel(x % 16, y % 16),
{
    let dx = x - coords.x * 16;
    let dy = y - coords.z * 16;
    assert(after.pixel(x, y) == after.pixel(x, y));
    if x / 16 == coords.x && y / 16 == coords.z {
        assert(dx == x % 16 && dy == y % 16);
    } else {
        assert(!chunk.has(dx, dy));
    }
}

/// The pixels of an image are stored row by row, with four components each
pub proof fn pixels_stored(image: Pixels, x: int, y: int, k: int)
    requires
        image.wf(),
        image.has(x, y),
        0 <= k < 4,
    ensures
        image.pixel(x, y).len() == 4,
        image.pixel(x, y)[k] == image.data@[4 * (y * image.width + x) + k],
        0 <= x < image.width,
        0 <= y < image.height,
        image.data@.len() == 4 * (image.width * image.height),
{
    let w = image.width as int;
    let h = image.height as int;
    assert(0 <= y * w + x < w * h) by (nonlinear_arith)
        requires
            0 <= x < w,
            0 <= y < h,
    ;
}

/// A transparent pixel of an image that is laid over another one changes nothing
pub proof fn transparent_pixel_ignored(
    before: Pixels,
    top: Pixels,
    x: int,
    y: int,
    after: Pixels,
    i: int,
    j: int,
)
    requires
        overlaid(before, top, x, y, after),
        before.has(x + i, y + j),
        top.has(i, j),
    ensures
        top.pixel(i, j)[3] == 0 ==> after.pixel(x + i, y + j) == before.pixel(x + i, y + j),
        top.pixel(i, j)[3] == 255 ==> after.pixel(x + i, y + j) == top.pixel(i, j),
        after.width == before.width,
        after.height == before.height,
{
    assert(x + i - x == i && y + j - y == j);
    assert(after.pixel(x + i, y + j) == after.pixel(x + i, y + j));
}

} // verus!
