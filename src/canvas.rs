//! Canvases: handles on rectangular regions of one shared pixel buffer.
use crate::pixels::{dims_ok, fill_region, solid_pixels, Rgb, BYTES_PER_PIXEL, MAX_PIXELS};
use crate::region::Region;
use std::rc::Rc;
use vstd::cell::invcell::InvCell;
use vstd::prelude::*;

verus! {

/// Width of a canvas created without one.
pub const DEFAULT_WIDTH: usize = 1000;

/// Height of a canvas created without one.
pub const DEFAULT_HEIGHT: usize = 800;

/// Why a canvas operation failed.
#[derive(Debug, PartialEq, Eq)]
pub enum CanvasError {
    /// A width or height of zero was asked for.
    InvalidArgument,
    /// The buffer would exceed what can be allocated and addressed.
    AllocationFailure,
    /// Only the root canvas of a buffer may save it.
    NonRootSave,
    /// Writing the image failed; the text names the path and the cause.
    Io(String),
}

/// The extent along one axis that a canvas is created with, given the
/// optional request and the axis's default.
pub open spec fn requested(dim: Option<usize>, default: usize) -> int {
    match dim {
        Some(d) => d as int,
        None => default as int,
    }
}

/// A whole RGB8 image: `width * height` pixels, row-major, three bytes each.
#[derive(Debug, PartialEq, Eq)]
pub struct RgbImage {
    pub width: u32,
    pub height: u32,
    pub pixels: Vec<u8>,
}

/// The owner of one RGB8 pixel buffer, shared by every canvas cut from the
/// same root. The buffer never changes its length.
pub struct Backend {
    width: u32,
    height: u32,
    pixels: InvCell<Vec<u8>, spec_fn(Vec<u8>) -> bool>,
}

impl Backend {
    /// Width of the buffer in pixels.
    pub closed spec fn spec_width(&self) -> int {
        self.width as int
    }

    /// Height of the buffer in pixels.
    pub closed spec fn spec_height(&self) -> int {
        self.height as int
    }

    /// The size is allocatable and the buffer always holds three bytes for
    /// each pixel.
    pub closed spec fn wf(&self) -> bool {
        &&& dims_ok(self.width as int, self.height as int)
        &&& forall|v: Vec<u8>|
            #[trigger] self.pixels.inv(v) <==> v@.len() == self.width * self.height * 3
    }

    /// A backend that owns `pixels`, a buffer of `width` by `height` pixels.
    fn new(width: u32, height: u32, pixels: Vec<u8>) -> (b: Backend)
        requires
            dims_ok(width as int, height as int),
            pixels@.len() == width * height * 3,
        ensures
            b.wf(),
            b.spec_width() == width,
            b.spec_height() == height,
    {
        let ghost n = width * height * 3;
        let pred = Ghost(|v: Vec<u8>| v@.len() == n);
        Backend { width, height, pixels: InvCell::new(pixels, pred) }
    }

    /// The buffer's width and height in pixels.
    pub fn size(&self) -> (r: (u32, u32))
        ensures
            r.0 == self.spec_width(),
            r.1 == self.spec_height(),
    {
        (self.width, self.height)
    }

    /// Number of bytes in the buffer.
    fn len(&self) -> (n: usize)
        requires
            self.wf(),
        ensures
            n == self.spec_width() * self.spec_height() * 3,
    {
        (self.width as usize) * (self.height as usize) * BYTES_PER_PIXEL
    }

    /// A copy of the whole buffer, row-major, three bytes per pixel.
    ///
    /// The cell is read, here and in `fill`, by moving the buffer out for a
    /// placeholder of the same length, the only kind of value that the
    /// cell's invariant admits, and moving it back afterwards.
    pub fn pixels(&self) -> (r: Vec<u8>)
        requires
            self.wf(),
        ensures
            r@.len() == self.spec_width() * self.spec_height() * 3,
    {
        let n = self.len();
        let held = self.pixels.replace(vec![0u8; n]);
        let copy = held.clone();
        let _ = self.pixels.replace(held);
        copy
    }

    /// Sets the pixels of `area` to `color`, in place.
    fn fill(&self, area: Region, color: Rgb)
        requires
            self.wf(),
            area.within(self.spec_width(), self.spec_height()),
    {
        let n = self.len();
        let mut held = self.pixels.replace(vec![0u8; n]);
        fill_region(&mut held, self.width, self.height, area, color);
        let _ = self.pixels.replace(held);
    }
}

/// A drawing region of a shared pixel buffer. Only the canvas that created
/// the buffer is its root, and only the root may save it.
pub struct Canvas {
    is_root: bool,
    backend: Rc<Backend>,
    area: Region,
}

impl Canvas {
    /// Whether the canvas created its buffer.
    pub closed spec fn spec_is_root(&self) -> bool {
        self.is_root
    }

    /// The region of the buffer that the canvas draws into.
    pub closed spec fn spec_area(&self) -> Region {
        self.area
    }

    /// The backend whose buffer the canvas draws into.
    pub closed spec fn spec_backend(&self) -> Backend {
        *self.backend
    }

    /// The region lies in the buffer, which is well formed.
    pub closed spec fn wf(&self) -> bool {
        &&& self.backend.wf()
        &&& self.area.wf()
        &&& self.area.within(self.backend.spec_width(), self.backend.spec_height())
    }

    /// `self` and `other` draw into the same buffer.
    pub open spec fn shares_buffer(&self, other: &Canvas) -> bool {
        self.spec_backend() == other.spec_backend()
    }

    /// Creates a root canvas of `width` by `height` pixels (1000 by 800 by
    /// default) over a fresh buffer filled with the background colour. The
    /// colour argument is accepted and not used.
    pub fn new(width: Option<usize>, height: Option<usize>, _color: Option<&str>) -> (r: Result<
        Canvas,
        CanvasError,
    >)
        ensures
            ({
                let w = requested(width, DEFAULT_WIDTH);
                let h = requested(height, DEFAULT_HEIGHT);
                match r {
                    Ok(c) => {
                        &&& dims_ok(w, h)
                        &&& c.wf()
                        &&& c.spec_is_root()
                        &&& c.spec_area() == (Region { x: 0, y: 0, width: w as u32, height: h as u32 })
                        &&& c.spec_backend().spec_width() == w
                        &&& c.spec_backend().spec_height() == h
                    },
                    Err(CanvasError::InvalidArgument) => w == 0 || h == 0,
                    Err(CanvasError::AllocationFailure) => w >= 1 && h >= 1 && !dims_ok(w, h),
                    Err(_) => false,
                }
            }),
    {
        let w: usize = match width {
            Some(v) => v,
            None => DEFAULT_WIDTH,
        };
        let h: usize = match height {
            Some(v) => v,
            None => DEFAULT_HEIGHT,
        };
        if w == 0 || h == 0 {
            return Err(CanvasError::InvalidArgument);
        }
        if w as u64 > MAX_PIXELS || h as u64 > MAX_PIXELS {
            proof {
                assert(w * h >= w && w * h >= h) by (nonlinear_arith)
                    requires
                        w >= 1,
                        h >= 1,
                ;
            }
            return Err(CanvasError::AllocationFailure);
        }
        proof {
            assert(w * h <= MAX_PIXELS * MAX_PIXELS) by (nonlinear_arith)
                requires
                    w <= MAX_PIXELS,
                    h <= MAX_PIXELS,
            ;
        }
        let count: u64 = (w as u64) * (h as u64);
        if count > MAX_PIXELS || count > (usize::MAX / BYTES_PER_PIXEL) as u64 {
            return Err(CanvasError::AllocationFailure);
        }
        let w32 = w as u32;
        let h32 = h as u32;
        let buf = solid_pixels(w32, h32, Rgb::background());
        let backend = Backend::new(w32, h32, buf);
        Ok(Canvas { is_root: true, backend: Rc::new(backend), area: Region::full(w32, h32) })
    }
    /// Splits the canvas into a left and a right part at column offset
    /// `pixel`, half the width (rounded down) when none is given; an offset
    /// past the right edge leaves the right part empty. Both parts are new
    /// non-root canvases on the same buffer; `self` stays usable.
    pub fn split_horizontally(&self, pixel: Option<u32>) -> (r: (Canvas, Canvas))
        requires
            self.wf(),
        ensures
            ({
                let p = match pixel {
                    Some(p) => p as int,
                    None => self.spec_area().width as int / 2,
                };
                let (a, b) = self.spec_area().spec_split_horizontally(p);
                &&& r.0.spec_area() == a
                &&& r.1.spec_area() == b
            }),
            r.0.wf(),
            r.1.wf(),
            !r.0.spec_is_root(),
            !r.1.spec_is_root(),
            r.0.shares_buffer(self),
            r.1.shares_buffer(self),
    {
        let p: u32 = match pixel {
            Some(p) => p,
            None => self.area.width / 2,
        };
        let (a, b) = self.area.split_horizontally(p);
        proof {
            crate::region::lemma_split_stays_within(
                self.area,
                p as int,
                self.backend.spec_width(),
                self.backend.spec_height(),
            );
        }
        (
            Canvas { is_root: false, backend: Rc::clone(&self.backend), area: a },
            Canvas { is_root: false, backend: Rc::clone(&self.backend), area: b },
        )
    }

    /// Splits the canvas into a top and a bottom part at row offset `pixel`,
    /// half the height (rounded down) when none is given; an offset past the
    /// bottom edge leaves the bottom part empty. Both parts are new non-root
    /// canvases on the same buffer; `self` stays usable.
    pub fn split_vertically(&self, pixel: Option<u32>) -> (r: (Canvas, Canvas))
        requires
            self.wf(),
        ensures
            ({
                let p = match pixel {
                    Some(p) => p as int,
                    None => self.spec_area().height as int / 2,
                };
                let (a, b) = self.spec_area().spec_split_vertically(p);
                &&& r.0.spec_area() == a
                &&& r.1.spec_area() == b
            }),
            r.0.wf(),
            r.1.wf(),
            !r.0.spec_is_root(),
            !r.1.spec_is_root(),
            r.0.shares_buffer(self),
            r.1.shares_buffer(self),
    {
        let p: u32 = match pixel {
            Some(p) => p,
            None => self.area.height / 2,
        };
        let (a, b) = self.area.split_vertically(p);
        proof {
            crate::region::lemma_split_stays_within(
                self.area,
                p as int,
                self.backend.spec_width(),
                self.backend.spec_height(),
            );
        }
        (
            Canvas { is_root: false, backend: Rc::clone(&self.backend), area: a },
            Canvas { is_root: false, backend: Rc::clone(&self.backend), area: b },
        )
    }
    /// Whether this canvas created its buffer and may save it.
    pub fn is_root(&self) -> (r: bool)
        ensures
            r == self.spec_is_root(),
    {
        self.is_root
    }

    /// The region of the buffer that this canvas draws into.
    pub fn area(&self) -> (r: Region)
        ensures
            r == self.spec_area(),
    {
        self.area
    }

    /// The width and height of this canvas's region, in pixels.
    pub fn dim_in_pixel(&self) -> (r: (u32, u32))
        ensures
            r.0 == self.spec_area().width,
            r.1 == self.spec_area().height,
    {
        (self.area.width, self.area.height)
    }

    /// The size of the whole shared buffer, in pixels.
    pub fn buffer_size(&self) -> (r: (u32, u32))
        ensures
            r.0 == self.spec_backend().spec_width(),
            r.1 == self.spec_backend().spec_height(),
    {
        self.backend.size()
    }

    /// A copy of the whole shared buffer, row-major, three bytes per pixel.
    pub fn pixels(&self) -> (r: Vec<u8>)
        requires
            self.wf(),
        ensures
            r@.len() == self.spec_backend().spec_width() * self.spec_backend().spec_height() * 3,
    {
        self.backend.pixels()
    }

    /// Paints every pixel of this canvas's region with `color`, in the shared
    /// buffer; pixels outside the region are kept.
    pub fn fill(&self, color: Rgb)
        requires
            self.wf(),
    {
        self.backend.fill(self.area, color)
    }

    /// The image that saving this canvas writes: the whole shared buffer
    /// with its width and height. Only a root canvas may be saved; any other
    /// gets `NonRootSave`.
    pub fn save_image(&self) -> (r: Result<RgbImage, CanvasError>)
        requires
            self.wf(),
        ensures
            self.spec_is_root() <==> r is Ok,
            match r {
                Ok(img) => {
                    &&& img.width == self.spec_backend().spec_width()
                    &&& img.height == self.spec_backend().spec_height()
                    &&& img.pixels@.len() == img.width * img.height * 3
                },
                Err(e) => e == CanvasError::NonRootSave,
            },
    {
        if !self.is_root {
            return Err(CanvasError::NonRootSave);
        }
        let (width, height) = self.backend.size();
        Ok(RgbImage { width, height, pixels: self.backend.pixels() })
    }
}

} // verus!
