//! The owned pixel buffer: width, height, and a contiguous sequence of
//! pixels of length `width * height`, with size-validated construction and
//! bounds-checked single-pixel access.

use crate::pixel::PreviewRgba;
use vstd::pervasive::VecAdditionalExecFns;
use vstd::prelude::*;

verus! {

/// The largest pixel count (`width * height`) a buffer may hold, chosen so
/// that the backing allocation of 4-byte pixels stays within a 32-bit byte
/// count.
pub const MAX_PIXEL_COUNT: u64 = 0x3FFF_FFFF;

/// How an operation on a preview image can fail.
#[derive(Debug, Clone, Copy, PartialEq, Eq, Structural)]
pub enum Error {
    /// The requested size exceeds the supported maximum.
    Overflow,
    /// A coordinate lies outside the buffer's bounds.
    OutOfRange,
}

/// A small, low-dynamic-range image: a rectangular, exclusively owned
/// buffer of [`PreviewRgba`] pixels, stored row by row.
///
/// A well-formed buffer always holds exactly `width * height` pixels, and
/// `width * height` never exceeds [`MAX_PIXEL_COUNT`]; a buffer of zero
/// width or zero height holds no pixels and is valid.
pub struct PreviewImage {
    width: u32,
    height: u32,
    pixels: Vec<PreviewRgba>,
}

impl View for PreviewImage {
    type V = Seq<PreviewRgba>;

    /// The buffer's contents as a sequence, row by row.
    closed spec fn view(&self) -> Seq<PreviewRgba> {
        self.pixels@
    }
}

impl PreviewImage {
    /// The buffer's width in pixels.
    pub closed spec fn spec_width(self) -> u32 {
        self.width
    }

    /// The buffer's height in pixels.
    pub closed spec fn spec_height(self) -> u32 {
        self.height
    }

    /// The number of pixels the buffer's dimensions call for.
    pub open spec fn pixel_count(self) -> int {
        self.spec_width() * self.spec_height()
    }

    /// Well-formedness: the pixel sequence has exactly `width * height`
    /// elements, and that count is within the supported maximum.
    pub open spec fn wf(self) -> bool {
        &&& self@.len() == self.pixel_count()
        &&& self.pixel_count() <= MAX_PIXEL_COUNT
    }

    /// Whether `(x, y)` lies inside the buffer.
    pub open spec fn in_bounds(self, x: u32, y: u32) -> bool {
        x < self.spec_width() && y < self.spec_height()
    }

    /// The position of coordinate `(x, y)` in the row-by-row sequence.
    pub open spec fn pixel_index(self, x: u32, y: u32) -> int {
        y * self.spec_width() + x
    }

    /// Creates a new `PreviewImage` with the provided dimensions, filled
    /// with the default pixel (opaque black).
    ///
    /// Returns `Ok` exactly when `width * height` is within
    /// [`MAX_PIXEL_COUNT`]; otherwise fails with [`Error::Overflow`].
    pub fn with_dimensions(width: u32, height: u32) -> (result: Result<PreviewImage, Error>)
        ensures
            width * height <= MAX_PIXEL_COUNT <==> result is Ok,
            result matches Ok(image) ==> {
                &&& image.wf()
                &&& image.spec_width() == width
                &&& image.spec_height() == height
                &&& image@.len() == width * height
                &&& forall|i: int| 0 <= i < image@.len() ==> image@[i] == PreviewRgba::opaque_black()
            },
            result matches Err(e) ==> e == Error::Overflow,
    {
        let w64 = width as u64;
        let h64 = height as u64;
        proof {
            assert(w64 * h64 <= 0xFFFF_FFFF_FFFF_FFFF) by (nonlinear_arith)
                requires
                    w64 < 0x1_0000_0000,
                    h64 < 0x1_0000_0000,
            ;
        }
        let count = w64 * h64;
        if count > MAX_PIXEL_COUNT {
            return Err(Error::Overflow);
        }
        let pixels = filled_with_default(count as usize);
        Ok(PreviewImage { width, height, pixels })
    }

    /// Creates a new `PreviewImage` with dimensions width = 0 and
    /// height = 0; it holds no pixels.
    pub fn empty() -> (result: Result<PreviewImage, Error>)
        ensures
            result matches Ok(image) ==> {
                &&& image.wf()
                &&& image.spec_width() == 0
                &&& image.spec_height() == 0
                &&& image@.len() == 0
            },
            result is Ok,
    {
        PreviewImage::with_dimensions(0, 0)
    }

    /// Creates a new `PreviewImage` with the provided dimensions, copying
    /// its pixels from the caller's flat, row-by-row sequence; the
    /// sequence's length must equal `width * height`.
    ///
    /// Returns `Ok` exactly when `width * height` is within
    /// [`MAX_PIXEL_COUNT`]; otherwise fails with [`Error::Overflow`].
    pub fn with_pixels(width: u32, height: u32, pixels: &[PreviewRgba]) -> (result: Result<
        PreviewImage,
        Error,
    >)
        requires
            pixels@.len() == width * height,
        ensures
            width * height <= MAX_PIXEL_COUNT <==> result is Ok,
            result matches Ok(image) ==> {
                &&& image.wf()
                &&& image.spec_width() == width
                &&& image.spec_height() == height
                &&& image@ == pixels@
            },
            result matches Err(e) ==> e == Error::Overflow,
    {
        let w64 = width as u64;
        let h64 = height as u64;
        proof {
            assert(w64 * h64 <= 0xFFFF_FFFF_FFFF_FFFF) by (nonlinear_arith)
                requires
                    w64 < 0x1_0000_0000,
                    h64 < 0x1_0000_0000,
            ;
        }
        let count = w64 * h64;
        if count > MAX_PIXEL_COUNT {
            return Err(Error::Overflow);
        }
        let copied = copied_pixels(pixels);
        Ok(PreviewImage { width, height, pixels: copied })
    }

    /// Returns the width of the image.
    pub fn width(&self) -> (w: u32)
        ensures
            w == self.spec_width(),
    {
        self.width
    }

    /// Returns the height of the image.
    pub fn height(&self) -> (h: u32)
        ensures
            h == self.spec_height(),
    {
        self.height
    }

    /// A read-only view over the buffer's pixels, row by row; it borrows
    /// from the buffer and cannot outlive it.
    pub fn pixels(&self) -> (view: &[PreviewRgba])
        ensures
            view@ == self@,
    {
        self.pixels.as_slice()
    }

    /// A writable view over the buffer's pixels, row by row; it borrows
    /// the buffer exclusively and cannot outlive it. Writing through the
    /// view writes the buffer; the dimensions are unchanged.
    pub fn mut_pixels(&mut self) -> (view: &mut [PreviewRgba])
        ensures
            view@ == old(self)@,
            final(self)@ == final(view)@,
            final(self).spec_width() == old(self).spec_width(),
            final(self).spec_height() == old(self).spec_height(),
    {
        self.pixels.as_mut_slice()
    }

    /// Writes `value` at coordinate `(x, y)`.
    ///
    /// Succeeds, updating exactly that pixel, when `x < width` and
    /// `y < height`; otherwise fails with [`Error::OutOfRange`] and leaves
    /// the buffer unchanged.
    pub fn set_pixel(&mut self, x: u32, y: u32, value: PreviewRgba) -> (result: Result<(), Error>)
        requires
            old(self).wf(),
        ensures
            final(self).wf(),
            final(self).spec_width() == old(self).spec_width(),
            final(self).spec_height() == old(self).spec_height(),
            old(self).in_bounds(x, y) ==> result is Ok && final(self)@ == old(self)@.update(
                old(self).pixel_index(x, y),
                value,
            ),
            !old(self).in_bounds(x, y) ==> result == Err::<(), Error>(Error::OutOfRange)
                && final(self)@ == old(self)@,
    {
        if x >= self.width || y >= self.height {
            return Err(Error::OutOfRange);
        }
        proof {
            lemma_pixel_index_in_range(self.spec_width(), self.spec_height(), x, y);
        }
        let index = (y as usize) * (self.width as usize) + (x as usize);
        self.pixels.set(index, value);
        Ok(())
    }

    /// Reads the pixel at coordinate `(x, y)`.
    ///
    /// Returns the stored value when `x < width` and `y < height`, and
    /// `None` when the coordinate is out of range.
    pub fn get_pixel(&self, x: u32, y: u32) -> (result: Option<PreviewRgba>)
        requires
            self.wf(),
        ensures
            self.in_bounds(x, y) ==> result == Some(self@[self.pixel_index(x, y)]),
            !self.in_bounds(x, y) ==> result is None,
    {
        if x >= self.width || y >= self.height {
            return None;
        }
        proof {
            lemma_pixel_index_in_range(self.spec_width(), self.spec_height(), x, y);
        }
        let index = (y as usize) * (self.width as usize) + (x as usize);
        Some(self.pixels[index])
    }
}

impl Clone for PreviewImage {
    /// Duplicates the image: the copy has the same dimensions and pixel
    /// values, in independently owned storage.
    fn clone(&self) -> (copy: Self)
        ensures
            copy.spec_width() == self.spec_width(),
            copy.spec_height() == self.spec_height(),
            copy@ == self@,
            self.wf() ==> copy.wf(),
    {
        PreviewImage {
            width: self.width,
            height: self.height,
            pixels: copied_pixels(self.pixels.as_slice()),
        }
    }
}

/// Law: writing a pixel and then reading the same coordinate yields the
/// written value. `after` stands to `before` exactly as `set_pixel(x, y,
/// value)` leaves a buffer; `get_pixel(x, y)` on `after` then returns
/// `Some(value)`, by `get_pixel`'s contract.
pub proof fn lemma_set_then_get(
    before: PreviewImage,
    after: PreviewImage,
    x: u32,
    y: u32,
    value: PreviewRgba,
)
    requires
        before.wf(),
        before.in_bounds(x, y),
        after.spec_width() == before.spec_width(),
        after.spec_height() == before.spec_height(),
        after@ == before@.update(before.pixel_index(x, y), value),
    ensures
        after.wf(),
        after.in_bounds(x, y),
        after@[after.pixel_index(x, y)] == value,
{
    lemma_pixel_index_in_range(before.spec_width(), before.spec_height(), x, y);
}

/// Law: duplication is a deep copy: mutating the duplicate never touches
/// the original. `duplicate` holds the same pixels as `original`, as
/// `clone` leaves it, and `mutated` stands to `duplicate` as
/// `set_pixel(x, y, value)` leaves a buffer; the original's pixels are a
/// value of its own, and the two buffers now differ at most at `(x, y)`.
pub proof fn lemma_clone_then_set_pixel_is_independent(
    original: PreviewImage,
    duplicate: PreviewImage,
    mutated: PreviewImage,
    x: u32,
    y: u32,
    value: PreviewRgba,
)
    requires
        original.wf(),
        duplicate@ == original@,
        duplicate.spec_width() == original.spec_width(),
        duplicate.spec_height() == original.spec_height(),
        original.in_bounds(x, y),
        mutated.spec_width() == duplicate.spec_width(),
        mutated.spec_height() == duplicate.spec_height(),
        mutated@ == duplicate@.update(duplicate.pixel_index(x, y), value),
    ensures
        mutated@[original.pixel_index(x, y)] == value,
        forall|i: int|
            0 <= i < original@.len() && i != original.pixel_index(x, y) ==> mutated@[i]
                == original@[i],
{
    lemma_pixel_index_in_range(original.spec_width(), original.spec_height(), x, y);
}

/// For in-bounds coordinates, the row-by-row position `y * width + x` lies
/// below `width * height`, so it indexes a well-formed buffer.
proof fn lemma_pixel_index_in_range(width: u32, height: u32, x: u32, y: u32)
    requires
        x < width,
        y < height,
    ensures
        0 <= y * width + x < width * height,
        y * width + x <= u64::MAX,
{
    assert(0 <= y * width + x < width * height) by (nonlinear_arith)
        requires
            x < width,
            y < height,
    ;
    assert(width * height <= 0xFFFF_FFFF_FFFF_FFFF) by (nonlinear_arith)
        requires
            width < 0x1_0000_0000,
            height < 0x1_0000_0000,
    ;
}

/// Builds a vector holding a copy of every pixel of `source`, in order.
fn copied_pixels(source: &[PreviewRgba]) -> (pixels: Vec<PreviewRgba>)
    ensures
        pixels@ == source@,
{
    let mut pixels: Vec<PreviewRgba> = Vec::new();
    let mut i: usize = 0;
    while i < source.len()
        invariant
            i <= source@.len(),
            pixels@.len() == i,
            forall|j: int| 0 <= j < i ==> pixels@[j] == source@[j],
        decreases source@.len() - i,
    {
        pixels.push(source[i]);
        i += 1;
    }
    proof {
        assert(pixels@ =~= source@);
    }
    pixels
}

/// Builds a vector of `count` default (opaque black) pixels.
fn filled_with_default(count: usize) -> (pixels: Vec<PreviewRgba>)
    ensures
        pixels@.len() == count,
        forall|i: int| 0 <= i < count ==> pixels@[i] == PreviewRgba::opaque_black(),
{
    let mut pixels: Vec<PreviewRgba> = Vec::new();
    let mut i: usize = 0;
    while i < count
        invariant
            i <= count,
            pixels@.len() == i,
            forall|j: int| 0 <= j < i ==> pixels@[j] == PreviewRgba::opaque_black(),
        decreases count - i,
    {
        pixels.push(PreviewRgba::default());
        i += 1;
    }
    pixels
}

} // verus!
