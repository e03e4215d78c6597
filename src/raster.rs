//! RGBA rasters and the passes that sweep them: a per-pixel adjustment of
//! the base image, and the composition of a base with an overlay.

use vstd::prelude::*;

verus! {

/// One pixel in storage form: four 8-bit channels.
#[derive(Debug, Clone, Copy, PartialEq, Eq, Structural)]
pub struct Rgba8 {
    pub r: u8,
    pub g: u8,
    pub b: u8,
    pub a: u8,
}

/// The colour channels of a pixel, without alpha.
#[derive(Debug, Clone, Copy, PartialEq, Eq, Structural)]
pub struct Rgb8 {
    pub r: u8,
    pub g: u8,
    pub b: u8,
}

/// The colour channels of a pixel.
pub open spec fn rgb_of(p: Rgba8) -> Rgb8 {
    Rgb8 { r: p.r, g: p.g, b: p.b }
}

/// The pixel stored at index `i` of a row-major RGBA byte buffer.
pub open spec fn pixel_of(bytes: Seq<u8>, i: int) -> Rgba8 {
    Rgba8 { r: bytes[4 * i], g: bytes[4 * i + 1], b: bytes[4 * i + 2], a: bytes[4 * i + 3] }
}

proof fn lemma_count_fits(width: u32, height: u32)
    ensures
        (width as int) * (height as int) <= u64::MAX,
{
    assert((width as int) * (height as int) <= u64::MAX) by (nonlinear_arith)
        requires
            width <= u32::MAX,
            height <= u32::MAX,
    ;
}

proof fn lemma_pixel_index(i: int, count: int, len: int)
    requires
        0 <= i < count,
        len == count * 4,
    ensures
        4 * i + 3 < len,
{
}

/// A raster of `width * height` pixels, row-major, four bytes per pixel.
#[derive(Debug)]
pub struct BlendImage {
    raw_pixels: Vec<u8>,
    width: u32,
    height: u32,
}

impl BlendImage {
    #[verifier::type_invariant]
    spec fn layout(&self) -> bool {
        self.raw_pixels@.len() == self.width as int * self.height as int * 4
    }

    /// The width in pixels.
    pub closed spec fn spec_width(&self) -> nat {
        self.width as nat
    }

    /// The height in pixels.
    pub closed spec fn spec_height(&self) -> nat {
        self.height as nat
    }

    /// The pixel buffer.
    pub closed spec fn bytes(&self) -> Seq<u8> {
        self.raw_pixels@
    }

    /// The number of pixels.
    pub open spec fn pixel_count(&self) -> nat {
        self.spec_width() * self.spec_height()
    }

    /// The pixel at row-major index `i`.
    pub open spec fn pixel_at(&self, i: int) -> Rgba8 {
        pixel_of(self.bytes(), i)
    }

    /// Whether two rasters have the same width and the same height.
    pub open spec fn same_size(&self, other: &BlendImage) -> bool {
        self.spec_width() == other.spec_width() && self.spec_height() == other.spec_height()
    }

    /// A raster over `raw_pixels`, when the buffer holds exactly
    /// `width * height` pixels of four bytes.
    pub fn from_raw(raw_pixels: Vec<u8>, width: u32, height: u32) -> (r: Option<BlendImage>)
        ensures
            r is Some <==> raw_pixels@.len() == width as int * height as int * 4,
            r matches Some(img) ==> img.bytes() == raw_pixels@ && img.spec_width() == width
                && img.spec_height() == height,
    {
        let len = raw_pixels.len();
        proof {
            lemma_count_fits(width, height);
        }
        let count = (width as u64) * (height as u64);
        if len % 4 == 0 && (len / 4) as u64 == count {
            Some(BlendImage { raw_pixels, width, height })
        } else {
            None
        }
    }

    pub fn get_width(&self) -> (r: u32)
        ensures
            r == self.spec_width(),
    {
        self.width
    }

    pub fn get_height(&self) -> (r: u32)
        ensures
            r == self.spec_height(),
    {
        self.height
    }

    /// The pixel buffer, row-major, four bytes per pixel.
    pub fn raw_pixels(&self) -> (r: &Vec<u8>)
        ensures
            r@ == self.bytes(),
            r@.len() == self.pixel_count() * 4,
    {
        proof {
            use_type_invariant(self);
        }
        &self.raw_pixels
    }

    /// The raster's buffer, given up.
    pub fn into_raw(self) -> (r: Vec<u8>)
        ensures
            r@ == self.bytes(),
            r@.len() == self.pixel_count() * 4,
    {
        proof {
            use_type_invariant(&self);
        }
        self.raw_pixels
    }

    /// The pixel at row-major index `i`.
    pub fn pixel(&self, i: usize) -> (p: Rgba8)
        requires
            i < self.pixel_count(),
        ensures
            p == self.pixel_at(i as int),
    {
        let len = self.raw_pixels.len();
        proof {
            use_type_invariant(self);
            lemma_pixel_index(i as int, self.pixel_count() as int, len as int);
        }
        Rgba8 {
            r: self.raw_pixels[4 * i],
            g: self.raw_pixels[4 * i + 1],
            b: self.raw_pixels[4 * i + 2],
            a: self.raw_pixels[4 * i + 3],
        }
    }

    /// The four channel planes of the raster, each in row-major pixel
    /// order: red, green, blue, alpha.
    pub fn bands(&self) -> (r: (Vec<u8>, Vec<u8>, Vec<u8>, Vec<u8>))
        ensures
            r.0@.len() == self.pixel_count(),
            r.1@.len() == self.pixel_count(),
            r.2@.len() == self.pixel_count(),
            r.3@.len() == self.pixel_count(),
            forall|i: int|
                0 <= i < self.pixel_count() ==> {
                    &&& r.0@[i] == self.pixel_at(i).r
                    &&& r.1@[i] == self.pixel_at(i).g
                    &&& r.2@[i] == self.pixel_at(i).b
                    &&& r.3@[i] == self.pixel_at(i).a
                },
    {
        let len = self.raw_pixels.len();
        proof {
            use_type_invariant(self);
        }
        let count = len / 4;
        let mut red: Vec<u8> = Vec::with_capacity(count);
        let mut green: Vec<u8> = Vec::with_capacity(count);
        let mut blue: Vec<u8> = Vec::with_capacity(count);
        let mut alpha: Vec<u8> = Vec::with_capacity(count);
        let mut i: usize = 0;
        while i < count
            invariant
                len == self.bytes().len(),
                len == self.pixel_count() * 4,
                count == self.pixel_count(),
                i <= count,
                red@.len() == i,
                green@.len() == i,
                blue@.len() == i,
                alpha@.len() == i,
                forall|j: int|
                    0 <= j < i ==> {
                        &&& red@[j] == self.pixel_at(j).r
                        &&& green@[j] == self.pixel_at(j).g
                        &&& blue@[j] == self.pixel_at(j).b
                        &&& alpha@[j] == self.pixel_at(j).a
                    },
            decreases count - i,
        {
            let p = self.pixel(i);
            red.push(p.r);
            green.push(p.g);
            blue.push(p.b);
            alpha.push(p.a);
            i = i + 1;
        }
        (red, green, blue, alpha)
    }
}

/// A walk over the coordinates of a `width` by `height` raster: the n-th
/// step yields column `n / height` and row `n % height`.
pub struct ImageIterator {
    width: u32,
    height: u32,
    item: u64,
}

impl ImageIterator {
    pub closed spec fn spec_width(&self) -> nat {
        self.width as nat
    }

    pub closed spec fn spec_height(&self) -> nat {
        self.height as nat
    }

    /// How many steps have been taken, up to the last coordinate.
    pub closed spec fn steps(&self) -> nat {
        self.item as nat
    }

    pub fn new(width: u32, height: u32) -> (r: ImageIterator)
        ensures
            r.spec_width() == width,
            r.spec_height() == height,
            r.steps() == 0,
    {
        ImageIterator { width, height, item: 0 }
    }

    pub fn with_dimension(dimension: &(u32, u32)) -> (r: ImageIterator)
        ensures
            r.spec_width() == dimension.0,
            r.spec_height() == dimension.1,
            r.steps() == 0,
    {
        ImageIterator { width: dimension.0, height: dimension.1, item: 0 }
    }

    /// The next coordinate `(x, y)`, or `None` once all `width * height`
    /// have been given.
    pub fn next(&mut self) -> (r: Option<(u32, u32)>)
        ensures
            final(self).spec_width() == old(self).spec_width(),
            final(self).spec_height() == old(self).spec_height(),
            old(self).steps() < old(self).spec_width() * old(self).spec_height() ==> {
                &&& r == Some(
                    (
                        (old(self).steps() / old(self).spec_height()) as u32,
                        (old(self).steps() % old(self).spec_height()) as u32,
                    ),
                )
                &&& final(self).steps() == old(self).steps() + 1
            },
            old(self).steps() >= old(self).spec_width() * old(self).spec_height() ==> {
                &&& r is None
                &&& final(self).steps() == old(self).steps()
            },
            r matches Some(c) ==> c.0 < old(self).spec_width() && c.1 < old(self).spec_height(),
    {
        proof {
            lemma_count_fits(self.width, self.height);
        }
        let total = (self.width as u64) * (self.height as u64);
        let n = self.item;
        if n < total {
            proof {
                lemma_walk_step(n as int, self.width as int, self.height as int);
            }
            self.item = n + 1;
            Some(((n / self.height as u64) as u32, (n % self.height as u64) as u32))
        } else {
            None
        }
    }
}

proof fn lemma_walk_step(n: int, w: int, h: int)
    requires
        0 <= n < w * h,
        0 <= w,
        0 <= h,
    ensures
        h > 0,
        n / h < w,
        n % h < h,
{
    if h <= 0 {
        assert(w * h <= 0) by (nonlinear_arith)
            requires
                h <= 0,
                0 <= w,
        ;
    }
    assert(n / h < w) by (nonlinear_arith)
        requires
            0 <= n < w * h,
            h > 0,
    ;
}

/// The walk reaches every coordinate of the raster: `(x, y)` is the one it
/// yields at step `x * height + y`, which comes before the end.
pub proof fn lemma_walk_reaches(width: nat, height: nat, x: nat, y: nat)
    requires
        x < width,
        y < height,
    ensures
        x * height + y < width * height,
        (x * height + y) / height == x,
        (x * height + y) % height == y,
{
    assert(x * height + y < width * height) by (nonlinear_arith)
        requires
            x < width,
            y < height,
    ;
    vstd::arithmetic::div_mod::lemma_fundamental_div_mod_converse(
        (x * height + y) as int,
        height as int,
        x as int,
        y as int,
    );
}

/// Two buffers that agree pixel by pixel over `count` pixels are equal.
proof fn lemma_same_pixels(a: Seq<u8>, b: Seq<u8>, count: int)
    requires
        a.len() == count * 4,
        b.len() == count * 4,
        forall|j: int| 0 <= j < count ==> #[trigger] pixel_of(a, j) == pixel_of(b, j),
    ensures
        a == b,
{
    assert forall|k: int| 0 <= k < a.len() implies a[k] == b[k] by {
        let j = k / 4;
        assert(pixel_of(a, j) == pixel_of(b, j));
    }
    assert(a =~= b);
}

/// Why two rasters cannot be blended.
#[derive(Debug, Clone, Copy, PartialEq, Eq, Structural)]
pub enum BlendError {
    /// The base and the overlay differ in width or in height.
    SizeMismatch,
}

impl BlendError {
    /// A description of the error for the user.
    pub fn message(&self) -> (r: String)
        ensures
            r@ == "the size of blend images must be the same"@,
    {
        String::from_str("the size of blend images must be the same")
    }
}

/// The two passes over a base raster: adjustment, then composition with an
/// overlay. Each pass visits every pixel once, and each output pixel depends
/// only on the input pixels at its own index.
pub struct BlendManager;

impl BlendManager {
    /// Applies `adjust` to every pixel of the base raster in place. The
    /// colour channels take what `adjust` returns for the pixel; alpha is
    /// left as it was. When `adjust` hands every colour back unchanged, the
    /// raster is left byte for byte as it was.
    pub fn enchance<F: Fn(Rgba8) -> Rgb8>(blend_image: &mut BlendImage, adjust: F)
        requires
            forall|p: Rgba8| adjust.requires((p,)),
        ensures
            final(blend_image).spec_width() == old(blend_image).spec_width(),
            final(blend_image).spec_height() == old(blend_image).spec_height(),
            final(blend_image).bytes().len() == old(blend_image).bytes().len(),
            forall|i: int|
                0 <= i < old(blend_image).pixel_count() ==> {
                    &&& adjust.ensures(
                        (old(blend_image).pixel_at(i),),
                        rgb_of(#[trigger] final(blend_image).pixel_at(i)),
                    )
                    &&& final(blend_image).pixel_at(i).a == old(blend_image).pixel_at(i).a
                },
            (forall|p: Rgba8, c: Rgb8| #[trigger] adjust.ensures((p,), c) ==> c == rgb_of(p))
                ==> final(blend_image).bytes() == old(blend_image).bytes(),
    {
        let len = blend_image.raw_pixels.len();
        proof {
            use_type_invariant(&*blend_image);
        }
        let count = len / 4;
        let ghost src = blend_image.bytes();
        let mut out: Vec<u8> = Vec::with_capacity(len);
        let mut i: usize = 0;
        while i < count
            invariant
                src == blend_image.bytes(),
                len == src.len(),
                len == blend_image.pixel_count() * 4,
                count == blend_image.pixel_count(),
                i <= count,
                out@.len() == 4 * i,
                forall|p: Rgba8| adjust.requires((p,)),
                forall|j: int|
                    0 <= j < i ==> {
                        &&& adjust.ensures((pixel_of(src, j),), rgb_of(#[trigger] pixel_of(out@, j)))
                        &&& pixel_of(out@, j).a == pixel_of(src, j).a
                    },
            decreases count - i,
        {
            let p = blend_image.pixel(i);
            let c = adjust(p);
            let ghost before = out@;
            out.push(c.r);
            out.push(c.g);
            out.push(c.b);
            out.push(p.a);
            proof {
                assert forall|j: int| 0 <= j < i implies #[trigger] pixel_of(out@, j) == pixel_of(
                    before,
                    j,
                ) by {}
                assert(rgb_of(pixel_of(out@, i as int)) == c);
            }
            i = i + 1;
        }
        blend_image.raw_pixels = out;
        proof {
            if forall|p: Rgba8, c: Rgb8| #[trigger] adjust.ensures((p,), c) ==> c == rgb_of(p) {
                assert forall|j: int| 0 <= j < count implies #[trigger] pixel_of(out@, j) == pixel_of(
                    src,
                    j,
                ) by {
                    assert(adjust.ensures((pixel_of(src, j),), rgb_of(pixel_of(out@, j))));
                }
                lemma_same_pixels(out@, src, count as int);
            }
        }
    }

    /// Composites `blend_image2` onto `blend_image` pixel by pixel. When the
    /// two differ in width or height nothing is written and the error is
    /// returned. Otherwise the colour channels of each base pixel take what
    /// `op` returns for the base and overlay pixels at that index, and alpha
    /// stays the base pixel's own.
    pub fn blend<F: Fn(Rgba8, Rgba8) -> Rgb8>(
        blend_image: &mut BlendImage,
        blend_image2: &BlendImage,
        op: F,
    ) -> (r: Result<(), BlendError>)
        requires
            forall|p: Rgba8, q: Rgba8| op.requires((p, q)),
        ensures
            r is Err <==> !old(blend_image).same_size(blend_image2),
            r is Err ==> *final(blend_image) == *old(blend_image),
            final(blend_image).spec_width() == old(blend_image).spec_width(),
            final(blend_image).spec_height() == old(blend_image).spec_height(),
            final(blend_image).bytes().len() == old(blend_image).bytes().len(),
            r is Ok ==> forall|i: int|
                0 <= i < old(blend_image).pixel_count() ==> {
                    &&& op.ensures(
                        (old(blend_image).pixel_at(i), blend_image2.pixel_at(i)),
                        rgb_of(#[trigger] final(blend_image).pixel_at(i)),
                    )
                    &&& final(blend_image).pixel_at(i).a == old(blend_image).pixel_at(i).a
                },
    {
        if blend_image.width != blend_image2.width || blend_image.height != blend_image2.height {
            return Err(BlendError::SizeMismatch);
        }
        let len = blend_image.raw_pixels.len();
        proof {
            use_type_invariant(&*blend_image);
            use_type_invariant(blend_image2);
        }
        let count = len / 4;
        let ghost src = blend_image.bytes();
        let mut out: Vec<u8> = Vec::with_capacity(len);
        let mut i: usize = 0;
        while i < count
            invariant
                src == blend_image.bytes(),
                len == src.len(),
                len == blend_image.pixel_count() * 4,
                count == blend_image.pixel_count(),
                count == blend_image2.pixel_count(),
                i <= count,
                out@.len() == 4 * i,
                forall|p: Rgba8, q: Rgba8| op.requires((p, q)),
                forall|j: int|
                    0 <= j < i ==> {
                        &&& op.ensures(
                            (pixel_of(src, j), blend_image2.pixel_at(j)),
                            rgb_of(#[trigger] pixel_of(out@, j)),
                        )
                        &&& pixel_of(out@, j).a == pixel_of(src, j).a
                    },
            decreases count - i,
        {
            let p = blend_image.pixel(i);
            let q = blend_image2.pixel(i);
            let c = op(p, q);
            let ghost before = out@;
            out.push(c.r);
            out.push(c.g);
            out.push(c.b);
            out.push(p.a);
            proof {
                assert forall|j: int| 0 <= j < i implies #[trigger] pixel_of(out@, j) == pixel_of(
                    before,
                    j,
                ) by {}
                assert(rgb_of(pixel_of(out@, i as int)) == c);
            }
            i = i + 1;
        }
        blend_image.raw_pixels = out;
        Ok(())
    }
}

} // verus!
