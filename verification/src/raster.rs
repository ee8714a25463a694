//! Owned RGBA pixel buffers, the upsample-only resizing policy, and the
//! final crop.  The resampling itself is delegated to the `image` crate;
//! everything around it is exact.

use vstd::prelude::*;
use crate::geometry::MAX_DIM;
use crate::errors::GeometryError;

verus! {

/// An owned image: an RGBA byte buffer of exactly `width * height * 4`
/// bytes, rows first.
#[derive(Debug)]
pub struct Image {
    width: u32,
    height: u32,
    data: Vec<u8>,
}

impl Image {
    pub closed spec fn spec_width(self) -> u32 {
        self.width
    }

    pub closed spec fn spec_height(self) -> u32 {
        self.height
    }

    pub closed spec fn spec_data(self) -> Seq<u8> {
        self.data@
    }

    /// The buffer holds exactly one RGBA byte quadruple per pixel, and the
    /// dimensions are small enough for subpixel coordinates.
    pub closed spec fn wf(self) -> bool {
        &&& self.data@.len() == self.width * self.height * 4
        &&& self.width <= MAX_DIM
        &&& self.height <= MAX_DIM
    }

    /// Channel `c` of the pixel at column `x` of row `y`.
    pub closed spec fn pixel(self, x: int, y: int, c: int) -> u8 {
        self.data@[(y * self.width + x) * 4 + c]
    }

    /// Wraps a raw RGBA buffer.  Accepts it exactly when the buffer length
    /// matches the dimensions and the dimensions are within bounds.
    pub fn new(width: u32, height: u32, data: Vec<u8>) -> (r: Option<Image>)
        ensures
            r is Some <==> (width <= MAX_DIM && height <= MAX_DIM && data@.len() == width * height
                * 4),
            r is Some ==> {
                let img = r.unwrap();
                &&& img.wf()
                &&& img.spec_width() == width
                &&& img.spec_height() == height
                &&& img.spec_data() == data@
            },
    {
        if width <= MAX_DIM && height <= MAX_DIM {
            proof {
                assert((width as int) * (height as int) * 4 <= 4_000_000_000_000int)
                    by (nonlinear_arith)
                    requires
                        width <= 1_000_000,
                        height <= 1_000_000,
                ;
            }
            if (data.len() as u64) == (width as u64) * (height as u64) * 4 {
                Some(Image { width, height, data })
            } else {
                None
            }
        } else {
            None
        }
    }

    pub fn width(&self) -> (r: u32)
        ensures
            r == self.spec_width(),
    {
        self.width
    }

    pub fn height(&self) -> (r: u32)
        ensures
            r == self.spec_height(),
    {
        self.height
    }

    pub fn bytes(&self) -> (r: &Vec<u8>)
        ensures
            r@ == self.spec_data(),
    {
        &self.data
    }

    pub fn into_bytes(self) -> (r: Vec<u8>)
        ensures
            r@ == self.spec_data(),
    {
        self.data
    }
}

/// What `image::imageops::resize` with the Lanczos3 filter returns for an
/// RGBA buffer: a fixed function of the buffer and the old and new
/// dimensions.
pub uninterp spec fn lanczos_resample(data: Seq<u8>, w: u32, h: u32, nw: u32, nh: u32) -> Seq<u8>;

/// Relies on `image::imageops::resize` (Lanczos3 filter) and
/// `image::ImageBuffer`: `from_raw` accepts a buffer of exactly `w * h * 4`
/// bytes, `resize` returns an image of exactly the requested dimensions,
/// and `into_raw` of an `nw` by `nh` RGBA image yields `nw * nh * 4` bytes.
/// The resampled pixels depend on the arguments alone.
#[verifier::external_body]
fn resample_rgba(data: &Vec<u8>, w: u32, h: u32, nw: u32, nh: u32) -> (r: Vec<u8>)
    requires
        data@.len() == w * h * 4,
        1 <= w,
        1 <= h,
        1 <= nw,
        1 <= nh,
        nw * nh * 4 <= usize::MAX,
    ensures
        r@.len() == nw * nh * 4,
        r@ == lanczos_resample(data@, w, h, nw, nh),
{
    let buf: image::RgbaImage = image::ImageBuffer::from_raw(w, h, data.clone()).unwrap();
    image::imageops::resize(&buf, nw, nh, image::imageops::FilterType::Lanczos3).into_raw()
}

/// Upsamples the image exactly to the requested size on each axis where it
/// is smaller, independently per axis; where the image is already at least
/// as large as the target on both axes it is returned unchanged, with no
/// copy or resample.
pub fn resize_if_larger(img: Image, target_width: u32, target_height: u32) -> (r: Image)
    requires
        img.wf(),
        1 <= img.spec_width(),
        1 <= img.spec_height(),
        1 <= target_width <= MAX_DIM,
        1 <= target_height <= MAX_DIM,
        (if img.spec_width() >= target_width {
            img.spec_width()
        } else {
            target_width
        }) * (if img.spec_height() >= target_height {
            img.spec_height()
        } else {
            target_height
        }) * 4 <= usize::MAX,
    ensures
        r.wf(),
        img.spec_width() >= target_width && img.spec_height() >= target_height ==> r == img,
        !(img.spec_width() >= target_width && img.spec_height() >= target_height) ==> {
            let nw = if img.spec_width() >= target_width {
                img.spec_width()
            } else {
                target_width
            };
            let nh = if img.spec_height() >= target_height {
                img.spec_height()
            } else {
                target_height
            };
            &&& r.spec_width() == nw
            &&& r.spec_height() == nh
            &&& r.spec_data() == lanczos_resample(
                img.spec_data(),
                img.spec_width(),
                img.spec_height(),
                nw,
                nh,
            )
        },
{
    if img.width >= target_width && img.height >= target_height {
        return img;
    }
    let nw = if img.width >= target_width {
        img.width
    } else {
        target_width
    };
    let nh = if img.height >= target_height {
        img.height
    } else {
        target_height
    };
    let data = resample_rgba(&img.data, img.width, img.height, nw, nh);
    Image { width: nw, height: nh, data }
}

/// Extracts the axis-aligned `width` by `height` rectangle anchored at the
/// origin.  Fails exactly when the source does not cover that rectangle.
pub fn crop(img: &Image, width: u32, height: u32) -> (r: Result<Image, GeometryError>)
    requires
        img.wf(),
    ensures
        match r {
            Ok(out) => {
                &&& width <= img.spec_width()
                &&& height <= img.spec_height()
                &&& out.wf()
                &&& out.spec_width() == width
                &&& out.spec_height() == height
                &&& forall|x: int, y: int, c: int|
                    0 <= x < width && 0 <= y < height && 0 <= c < 4 ==> out.pixel(x, y, c)
                        == img.pixel(x, y, c)
            },
            Err(e) => {
                &&& e == GeometryError::WarpSizeMismatch
                &&& !(width <= img.spec_width() && height <= img.spec_height())
            },
        },
{
    if width > img.width || height > img.height {
        return Err(GeometryError::WarpSizeMismatch);
    }
    let src_w = img.width as usize;
    let w = width as usize;
    let h = height as usize;
    let total = img.data.len();
    let mut data: Vec<u8> = Vec::new();
    let mut y: usize = 0;
    while y < h
        invariant
            img.wf(),
            total == img.spec_data().len(),
            w == width,
            h == height,
            src_w == img.spec_width(),
            w <= src_w,
            h <= img.spec_height(),
            y <= h,
            data@.len() == y * w * 4,
            forall|xx: int, yy: int, cc: int|
                0 <= xx < w && 0 <= yy < y && 0 <= cc < 4 ==> data@[(yy * w + xx) * 4 + cc]
                    == img.pixel(xx, yy, cc),
        decreases h - y,
    {
        let mut x: usize = 0;
        while x < w
            invariant
                img.wf(),
                total == img.spec_data().len(),
                w == width,
                h == height,
                src_w == img.spec_width(),
                w <= src_w,
                h <= img.spec_height(),
                y < h,
                x <= w,
                data@.len() == (y * w + x) * 4,
                forall|xx: int, yy: int, cc: int|
                    0 <= xx < w && 0 <= yy < y && 0 <= cc < 4 ==> data@[(yy * w + xx) * 4 + cc]
                        == img.pixel(xx, yy, cc),
                forall|xx: int, cc: int|
                    0 <= xx < x && 0 <= cc < 4 ==> data@[(y * w + xx) * 4 + cc] == img.pixel(
                        xx,
                        y as int,
                        cc,
                    ),
            decreases w - x,
        {
            proof {
                lemma_crop_index_bounds(
                    x as int,
                    y as int,
                    w as int,
                    h as int,
                    src_w as int,
                    img.spec_height() as int,
                );
            }
            let base = (y * src_w + x) * 4;
            data.push(img.data[base]);
            data.push(img.data[base + 1]);
            data.push(img.data[base + 2]);
            data.push(img.data[base + 3]);
            x = x + 1;
            proof {
                assert(data@.len() == (y * w + x) * 4);
                assert forall|xx: int, yy: int, cc: int|
                    0 <= xx < w && 0 <= yy < y && 0 <= cc < 4 implies data@[(yy * w + xx) * 4 + cc]
                    == img.pixel(xx, yy, cc) by {
                    lemma_crop_index_bounds(xx, yy, w as int, h as int, src_w as int, img.spec_height() as int);
                    assert((yy * w + xx) * 4 + cc < (y * w + (x - 1)) * 4) by (nonlinear_arith)
                        requires
                            0 <= xx < w,
                            0 <= yy < y,
                            0 <= cc < 4,
                            1 <= x,
                    ;
                }
            }
        }
        y = y + 1;
        proof {
            assert(y * w == (y - 1) * w + w) by (nonlinear_arith);
        }
    }
    let out = Image { width, height, data };
    proof {
        assert(out.spec_data().len() == (width as int) * (height as int) * 4) by (nonlinear_arith)
            requires
                out.spec_data().len() == (h as int) * (w as int) * 4,
                w == width,
                h == height,
        ;
    }
    Ok(out)
}

proof fn lemma_crop_index_bounds(x: int, y: int, w: int, h: int, src_w: int, src_h: int)
    requires
        0 <= x < w,
        0 <= y < h,
        w <= src_w,
        h <= src_h,
    ensures
        (y * w + x) * 4 + 3 < h * w * 4,
        (y * src_w + x) * 4 + 3 < src_w * src_h * 4,
        (y * w + x) * 4 + 4 == (y * w + (x + 1)) * 4,
        (y * src_w + x) >= 0,
        (y * w + x) >= 0,
{
    assert((y * w + x) * 4 + 3 < h * w * 4) by (nonlinear_arith)
        requires
            0 <= x < w,
            0 <= y < h,
    ;
    assert((y * src_w + x) * 4 + 3 < src_w * src_h * 4) by (nonlinear_arith)
        requires
            0 <= x < w,
            0 <= y < h,
            w <= src_w,
            h <= src_h,
    ;
    assert(y * w >= 0 && y * src_w >= 0) by (nonlinear_arith)
        requires
            y >= 0,
            w >= 0,
            src_w >= 0,
    ;
}

} // verus!
