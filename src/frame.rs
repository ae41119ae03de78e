use vstd::prelude::*;
use crate::geometry::FieldRect;

verus! {

/// A single-channel image, stored row by row.
#[derive(Clone, Debug)]
pub struct GrayImage {
    pub width: usize,
    pub rows: Vec<Vec<u8>>,
}

impl View for GrayImage {
    type V = Seq<Seq<u8>>;

    open spec fn view(&self) -> Seq<Seq<u8>> {
        self.rows@.map_values(|r: Vec<u8>| r@)
    }
}

impl GrayImage {
    /// Every row is `width` pixels long.
    pub open spec fn wf(&self) -> bool {
        forall|i: int| 0 <= i < self.rows@.len() ==> #[trigger] self.rows@[i]@.len() == self.width
    }

    pub open spec fn height_spec(&self) -> nat {
        self.rows@.len()
    }

    /// A copy of the image.
    pub fn clone_image(&self) -> (r: GrayImage)
        ensures
            r@ == self@,
            r.width == self.width,
            self.wf() ==> r.wf(),
    {
        let mut rows: Vec<Vec<u8>> = Vec::new();
        let mut y: usize = 0;
        while y < self.rows.len()
            invariant
                y <= self.rows@.len(),
                rows@.len() == y,
                forall|j: int| 0 <= j < y ==> (#[trigger] rows@[j])@ == self.rows@[j]@,
            decreases self.rows@.len() - y,
        {
            let src = &self.rows[y];
            let mut row: Vec<u8> = Vec::new();
            let mut x: usize = 0;
            while x < src.len()
                invariant
                    x <= src@.len(),
                    row@ == src@.subrange(0, x as int),
                decreases src@.len() - x,
            {
                row.push(src[x]);
                x = x + 1;
                assert(row@ =~= src@.subrange(0, x as int));
            }
            assert(row@ =~= src@);
            rows.push(row);
            y = y + 1;
        }
        let r = GrayImage { width: self.width, rows };
        assert(r@ =~= self@);
        assert forall|i: int| 0 <= i < r.rows@.len() implies #[trigger] r.rows@[i]@ == self.rows@[i]@ by {}
        r
    }

    pub fn height(&self) -> (r: usize)
        ensures
            r == self.height_spec(),
    {
        self.rows.len()
    }

    /// Builds an image from row-major pixels; `None` when the count is not `width * height`.
    pub fn from_pixels(width: usize, height: usize, pixels: &Vec<u8>) -> (r: Option<GrayImage>)
        ensures
            r is Some <==> pixels@.len() == width * height,
            r matches Some(img) ==> {
                &&& img.wf()
                &&& img.width == width
                &&& img.height_spec() == height
                &&& forall|y: int, x: int|
                    0 <= y < height && 0 <= x < width ==> #[trigger] img@[y][x] == pixels@[y * width
                        + x]
            },
    {
        if width.checked_mul(height) != Some(pixels.len()) {
            return None;
        }
        let n = pixels.len();
        let mut rows: Vec<Vec<u8>> = Vec::new();
        let mut y: usize = 0;
        while y < height
            invariant
                n == pixels@.len(),
                pixels@.len() == width * height,
                y <= height,
                rows@.len() == y,
                forall|i: int| 0 <= i < y ==> #[trigger] rows@[i]@.len() == width,
                forall|i: int, x: int|
                    0 <= i < y && 0 <= x < width ==> #[trigger] rows@[i]@[x] == pixels@[i * width + x]
                        && i * width + x < pixels@.len(),
            decreases height - y,
        {
            let mut row: Vec<u8> = Vec::new();
            let mut x: usize = 0;
            proof {
                assert(y * width + width <= width * height) by (nonlinear_arith)
                    requires
                        y < height,
                ;
            }
            let base = y * width;
            while x < width
                invariant
                    n == pixels@.len(),
                    pixels@.len() == width * height,
                    base == y * width,
                    base + width <= pixels@.len(),
                    x <= width,
                    row@.len() == x,
                    forall|j: int| 0 <= j < x ==> #[trigger] row@[j] == pixels@[base + j],
                decreases width - x,
            {
                row.push(pixels[base + x]);
                x = x + 1;
            }
            rows.push(row);
            proof {
                assert forall|i: int, x: int| 0 <= i < y + 1 && 0 <= x < width implies #[trigger] rows@[i]@[x]
                    == pixels@[i * width + x] && i * width + x < pixels@.len() by {
                    assert(i * width + x < width * height) by (nonlinear_arith)
                        requires
                            0 <= i < height,
                            0 <= x < width,
                    ;
                }
            }
            y = y + 1;
        }
        let img = GrayImage { width, rows };
        proof {
            assert forall|y: int, x: int|
                0 <= y < height && 0 <= x < width implies #[trigger] img@[y][x] == pixels@[y * width
                + x] by {
                assert(y * width + x < width * height) by (nonlinear_arith)
                    requires
                        0 <= y < height,
                        0 <= x < width,
                ;
                assert(img@[y] == img.rows@[y]@);
            }
        }
        Some(img)
    }
}

/// `v` is the darkest pixel of the image.
pub open spec fn is_darkest(img: Seq<Seq<u8>>, v: u8) -> bool {
    &&& forall|y: int, x: int| 0 <= y < img.len() && 0 <= x < img[y].len() ==> v <= #[trigger] img[y][x]
    &&& exists|y: int, x: int| 0 <= y < img.len() && 0 <= x < img[y].len() && #[trigger] img[y][x] == v
}

/// `v` is the brightest pixel of the image.
pub open spec fn is_brightest(img: Seq<Seq<u8>>, v: u8) -> bool {
    &&& forall|y: int, x: int| 0 <= y < img.len() && 0 <= x < img[y].len() ==> #[trigger] img[y][x] <= v
    &&& exists|y: int, x: int| 0 <= y < img.len() && 0 <= x < img[y].len() && #[trigger] img[y][x] == v
}

/// Darkest and brightest pixel, or `None` for an image without pixels.
pub fn intensity_range(img: &GrayImage) -> (r: Option<(u8, u8)>)
    requires
        img.wf(),
    ensures
        r is None <==> (img.width == 0 || img.height_spec() == 0),
        r matches Some((lo, hi)) ==> is_darkest(img@, lo) && is_brightest(img@, hi),
{
    if img.width == 0 || img.rows.len() == 0 {
        return None;
    }
    let mut lo: u8 = img.rows[0][0];
    let mut hi: u8 = img.rows[0][0];
    assert(img@[0][0] == lo);
    let mut y: usize = 0;
    while y < img.rows.len()
        invariant
            img.wf(),
            img.width > 0,
            y <= img.rows@.len(),
            img.rows@.len() > 0,
            forall|j: int, x: int| 0 <= j < y && 0 <= x < img@[j].len() ==> lo <= #[trigger] img@[j][x] <= hi,
            exists|j: int, x: int| 0 <= j < img@.len() && 0 <= x < img@[j].len() && #[trigger] img@[j][x] == lo,
            exists|j: int, x: int| 0 <= j < img@.len() && 0 <= x < img@[j].len() && #[trigger] img@[j][x] == hi,
        decreases img.rows@.len() - y,
    {
        let row = &img.rows[y];
        assert(row@ == img@[y as int]);
        let mut x: usize = 0;
        while x < row.len()
            invariant
                row@ == img@[y as int],
                y < img@.len(),
                x <= row@.len(),
                forall|j: int, i: int| 0 <= j < y && 0 <= i < img@[j].len() ==> lo <= #[trigger] img@[j][i] <= hi,
                forall|i: int| 0 <= i < x ==> lo <= #[trigger] row@[i] <= hi,
                exists|j: int, i: int| 0 <= j < img@.len() && 0 <= i < img@[j].len() && #[trigger] img@[j][i] == lo,
                exists|j: int, i: int| 0 <= j < img@.len() && 0 <= i < img@[j].len() && #[trigger] img@[j][i] == hi,
            decreases row@.len() - x,
        {
            let p = row[x];
            if p < lo {
                lo = p;
                assert(img@[y as int][x as int] == lo);
            }
            if p > hi {
                hi = p;
                assert(img@[y as int][x as int] == hi);
            }
            x = x + 1;
        }
        assert forall|j: int, i: int| 0 <= j < y + 1 && 0 <= i < img@[j].len() implies lo <= #[trigger] img@[j][i] <= hi by {
            if j == y {
                assert(img@[j][i] == row@[i]);
            }
        }
        y = y + 1;
    }
    Some((lo, hi))
}

/// A pixel's intensity stretched so that `lo` maps to 0 and `hi` to 255; flat images map to 0.
pub open spec fn stretch_value(p: u8, lo: u8, hi: u8) -> u8 {
    if hi > lo && p >= lo {
        ((p - lo) * 255 / (hi - lo)) as u8
    } else {
        0
    }
}

fn stretch_exec(p: u8, lo: u8, hi: u8) -> (r: u8)
    requires
        lo <= p <= hi,
    ensures
        r == stretch_value(p, lo, hi),
{
    if hi > lo {
        let num = (p - lo) as u32 * 255;
        let den = (hi - lo) as u32;
        proof {
            assert((p - lo) * 255 <= (hi - lo) * 255) by (nonlinear_arith)
                requires
                    p - lo <= hi - lo,
            ;
            vstd::arithmetic::div_mod::lemma_div_by_multiple((hi - lo) as int, 255);
            vstd::arithmetic::div_mod::lemma_div_is_ordered(num as int, ((hi - lo) * 255) as int, den as int);
            assert(((hi - lo) * 255) as int == 255 * den) by (nonlinear_arith)
                requires
                    den == hi - lo,
            ;
            vstd::arithmetic::div_mod::lemma_div_multiples_vanish(255, den as int);
        }
        (num / den) as u8
    } else {
        0
    }
}

/// Rescales intensities to the full range: the darkest pixel becomes 0 and the brightest 255,
/// linearly in between. The shape is kept.
pub fn normalize(img: &GrayImage) -> (out: GrayImage)
    requires
        img.wf(),
    ensures
        out.wf(),
        out.width == img.width,
        out@.len() == img@.len(),
        img.width == 0 || img.height_spec() == 0 ==> out@ == img@,
        img.width > 0 && img.height_spec() > 0 ==> exists|lo: u8, hi: u8| {
            &&& is_darkest(img@, lo)
            &&& is_brightest(img@, hi)
            &&& forall|y: int, x: int| 0 <= y < out@.len() && 0 <= x < out.width
                ==> #[trigger] out@[y][x] == stretch_value(img@[y][x], lo, hi)
        },
{
    let (lo, hi) = match intensity_range(img) {
        Some(r) => r,
        None => {
            return img.clone_image();
        },
    };
    let mut rows: Vec<Vec<u8>> = Vec::new();
    let mut y: usize = 0;
    while y < img.rows.len()
        invariant
            img.wf(),
            is_darkest(img@, lo),
            is_brightest(img@, hi),
            y <= img.rows@.len(),
            rows@.len() == y,
            forall|j: int| 0 <= j < y ==> (#[trigger] rows@[j])@.len() == img.width,
            forall|j: int, x: int| 0 <= j < y && 0 <= x < img.width ==> #[trigger] rows@[j]@[x] == stretch_value(img@[j][x], lo, hi),
        decreases img.rows@.len() - y,
    {
        let src = &img.rows[y];
        assert(src@ == img@[y as int]);
        let mut row: Vec<u8> = Vec::new();
        let mut x: usize = 0;
        while x < src.len()
            invariant
                src@ == img@[y as int],
                y < img@.len(),
                is_darkest(img@, lo),
                is_brightest(img@, hi),
                x <= src@.len(),
                row@.len() == x,
                forall|i: int| 0 <= i < x ==> #[trigger] row@[i] == stretch_value(src@[i], lo, hi),
            decreases src@.len() - x,
        {
            assert(lo <= img@[y as int][x as int] <= hi);
            row.push(stretch_exec(src[x], lo, hi));
            x = x + 1;
        }
        rows.push(row);
        y = y + 1;
    }
    GrayImage { width: img.width, rows }
}

/// Height of the recognizer's input, in pixels.
pub const FIELD_HEIGHT: usize = 32;

/// The width an image of `w` by `h` pixels takes at the recognizer's height: its aspect
/// ratio kept (rounded down), and at least one pixel.
pub open spec fn scaled_width(w: nat, h: nat) -> nat {
    let s = w * FIELD_HEIGHT as nat / h;
    if s == 0 {
        1
    } else {
        s
    }
}

/// Pixel `(x, y)` of the resized image: the nearest source pixel, rounding down.
pub open spec fn resized_pixel(img: Seq<Seq<u8>>, w: nat, x: int, y: int) -> u8 {
    let h = img.len();
    let sw = scaled_width(w, h);
    img[y * h / FIELD_HEIGHT as int][x * w / sw as int]
}

/// What resizing an image of this shape asks of the machine: the scaled width is a `usize`.
pub open spec fn resizable(w: nat, h: nat) -> bool {
    h == 0 || w * FIELD_HEIGHT as nat / h <= usize::MAX
}

proof fn lemma_scaled_index(a: int, b: int, c: int)
    requires
        0 <= a < c,
        b > 0,
    ensures
        0 <= a * b / c < b,
{
    vstd::arithmetic::mul::lemma_mul_nonnegative(a, b);
    vstd::arithmetic::mul::lemma_mul_strict_inequality(a, c, b);
    vstd::arithmetic::div_mod::lemma_div_pos_is_pos(a * b, c);
    vstd::arithmetic::mul::lemma_mul_is_commutative(b, c);
    vstd::arithmetic::div_mod::lemma_div_by_multiple_is_strongly_ordered(a * b, b * c, b, c);
    vstd::arithmetic::div_mod::lemma_div_multiples_vanish(b, c);
}

/// Resizes a field to the recognizer's fixed height by nearest-neighbour sampling. The
/// width is not fixed: it keeps the field's aspect ratio. An image without pixels gives
/// rows without pixels.
pub fn resize_to_field(img: &GrayImage) -> (out: GrayImage)
    requires
        img.wf(),
        resizable(img.width as nat, img@.len()),
    ensures
        out.wf(),
        out@.len() == FIELD_HEIGHT,
        img.width > 0 && img@.len() > 0 ==> {
            &&& out.width == scaled_width(img.width as nat, img@.len())
            &&& forall|y: int, x: int|
                0 <= y < FIELD_HEIGHT && 0 <= x < out.width ==> #[trigger] out@[y][x]
                    == resized_pixel(img@, img.width as nat, x, y)
        },
        img.width == 0 || img@.len() == 0 ==> out.width == 0,
{
    let w = img.width;
    let h = img.rows.len();
    let empty = w == 0 || h == 0;
    let mut sw: usize = 0;
    if !empty {
        let s: u128 = (w as u128) * (FIELD_HEIGHT as u128) / (h as u128);
        sw = if s == 0 {
            1
        } else {
            s as usize
        };
    }
    let mut rows: Vec<Vec<u8>> = Vec::new();
    let mut y: usize = 0;
    while y < FIELD_HEIGHT
        invariant
            img.wf(),
            w == img.width,
            h == img@.len(),
            empty == (w == 0 || h == 0),
            !empty ==> sw == scaled_width(w as nat, h as nat),
            empty ==> sw == 0,
            y <= FIELD_HEIGHT,
            rows@.len() == y,
            forall|j: int| 0 <= j < y ==> (#[trigger] rows@[j])@.len() == sw,
            forall|j: int, x: int| 0 <= j < y && 0 <= x < sw ==> #[trigger] rows@[j]@[x]
                == resized_pixel(img@, w as nat, x, j),
        decreases FIELD_HEIGHT - y,
    {
        let mut row: Vec<u8> = Vec::new();
        let mut sy: usize = 0;
        if !empty {
            proof {
                lemma_scaled_index(y as int, h as int, FIELD_HEIGHT as int);
            }
            sy = ((y as u128) * (h as u128) / (FIELD_HEIGHT as u128)) as usize;
        }
        let mut x: usize = 0;
        while x < sw
            invariant
                img.wf(),
                w == img.width,
                h == img@.len(),
                empty == (w == 0 || h == 0),
                !empty ==> sw == scaled_width(w as nat, h as nat),
                empty ==> sw == 0,
                !empty ==> sy == y * h / FIELD_HEIGHT as int && sy < h,
                y < FIELD_HEIGHT,
                x <= sw,
                row@.len() == x,
                forall|i: int| 0 <= i < x ==> #[trigger] row@[i] == resized_pixel(img@, w as nat, i, y as int),
            decreases sw - x,
        {
            proof {
                lemma_scaled_index(x as int, w as int, sw as int);
                vstd::arithmetic::mul::lemma_mul_upper_bound(x as int, 0xffff_ffff_ffff_ffff, w as int, 0xffff_ffff_ffff_ffff);
            }
            let sx = ((x as u128) * (w as u128) / (sw as u128)) as usize;
            assert(img@[sy as int].len() == w);
            row.push(img.rows[sy][sx]);
            x = x + 1;
        }
        rows.push(row);
        y = y + 1;
    }
    GrayImage { width: sw, rows }
}

/// Prepares a cropped field for the recognizer: intensity stretched to the full range, then
/// resized to the fixed input height with its aspect ratio kept.
pub fn prepare_field(img: &GrayImage) -> (out: GrayImage)
    requires
        img.wf(),
        resizable(img.width as nat, img@.len()),
    ensures
        out.wf(),
        out@.len() == FIELD_HEIGHT,
        img.width == 0 || img@.len() == 0 ==> out.width == 0,
        img.width > 0 && img@.len() > 0 ==> out.width == scaled_width(img.width as nat, img@.len()),
        img.width > 0 && img@.len() > 0 ==> exists|lo: u8, hi: u8| {
            &&& is_darkest(img@, lo)
            &&& is_brightest(img@, hi)
            &&& forall|y: int, x: int| 0 <= y < FIELD_HEIGHT && 0 <= x < out.width
                ==> #[trigger] out@[y][x] == resized_pixel(
                    Seq::new(img@.len(), |j: int| Seq::new(img.width as nat, |i: int| stretch_value(img@[j][i], lo, hi))),
                    img.width as nat,
                    x,
                    y,
                )
        },
{
    let n = normalize(img);
    let out = resize_to_field(&n);
    proof {
        if img.width > 0 && img@.len() > 0 {
            let (lo, hi) = choose|lo: u8, hi: u8| {
                &&& is_darkest(img@, lo)
                &&& is_brightest(img@, hi)
                &&& forall|y: int, x: int| 0 <= y < n@.len() && 0 <= x < n.width
                    ==> #[trigger] n@[y][x] == stretch_value(img@[y][x], lo, hi)
            };
            let m = Seq::new(img@.len(), |j: int| Seq::new(img.width as nat, |i: int| stretch_value(img@[j][i], lo, hi)));
            assert forall|j: int| 0 <= j < m.len() implies #[trigger] m[j] == n@[j] by {
                assert(n@[j].len() == n.width);
                assert(m[j] =~= n@[j]);
            }
            assert(m =~= n@);
        }
    }
    out
}

/// The sum of a row's pixels.
pub open spec fn row_sum(r: Seq<u8>) -> nat
    decreases r.len(),
{
    if r.len() == 0 {
        0
    } else {
        row_sum(r.drop_last()) + r.last() as nat
    }
}

/// The sum of an image's pixels.
pub open spec fn pixel_sum(img: Seq<Seq<u8>>) -> nat
    decreases img.len(),
{
    if img.len() == 0 {
        0
    } else {
        pixel_sum(img.drop_last()) + row_sum(img.last())
    }
}

/// A cheap signature of a frame region: its pixel sum, modulo 2^64.
pub fn fingerprint(img: &GrayImage) -> (r: u64)
    ensures
        r == pixel_sum(img@) % 0x1_0000_0000_0000_0000nat,
{
    let m: u128 = 0x1_0000_0000_0000_0000;
    let mut acc: u128 = 0;
    let mut y: usize = 0;
    while y < img.rows.len()
        invariant
            m == 0x1_0000_0000_0000_0000nat,
            y <= img@.len(),
            acc == pixel_sum(img@.subrange(0, y as int)) % (m as nat),
        decreases img@.len() - y,
    {
        let row = &img.rows[y];
        assert(row@ == img@[y as int]);
        let ghost before = pixel_sum(img@.subrange(0, y as int));
        let mut x: usize = 0;
        while x < row.len()
            invariant
                m == 0x1_0000_0000_0000_0000nat,
                x <= row@.len(),
                acc == (before + row_sum(row@.subrange(0, x as int))) % (m as nat),
            decreases row@.len() - x,
        {
            let p = row[x];
            proof {
                assert(row@.subrange(0, x as int + 1).drop_last() =~= row@.subrange(0, x as int));
                vstd::arithmetic::div_mod::lemma_add_mod_noop(
                    (before + row_sum(row@.subrange(0, x as int))) as int,
                    p as int,
                    m as int,
                );
                vstd::arithmetic::div_mod::lemma_mod_twice(p as int, m as int);
                vstd::arithmetic::div_mod::lemma_small_mod(p as nat, m as nat);
                vstd::arithmetic::div_mod::lemma_mod_bound(acc as int + p as int, m as int);
            }
            acc = (acc + p as u128) % m;
            x = x + 1;
        }
        proof {
            assert(row@.subrange(0, row@.len() as int) =~= row@);
            assert(img@.subrange(0, y as int + 1).drop_last() =~= img@.subrange(0, y as int));
        }
        y = y + 1;
    }
    assert(img@.subrange(0, img@.len() as int) =~= img@);
    acc as u64
}

pub open spec fn clamp(v: int, lo: int, hi: int) -> int {
    if v < lo {
        lo
    } else if v > hi {
        hi
    } else {
        v
    }
}

/// The part of `img` that `r` covers, clipped to the image's bounds.
pub open spec fn crop_spec(img: Seq<Seq<u8>>, width: nat, r: FieldRect) -> Seq<Seq<u8>> {
    let x0 = clamp(r.left as int, 0, width as int);
    let x1 = clamp(r.left + r.width, 0, width as int);
    let y0 = clamp(r.top as int, 0, img.len() as int);
    let y1 = clamp(r.top + r.height, 0, img.len() as int);
    Seq::new((y1 - y0) as nat, |j: int| img[y0 + j].subrange(x0, x1))
}

fn clamp_exec(v: i128, hi: usize) -> (r: usize)
    ensures
        r == clamp(v as int, 0, hi as int),
{
    if v < 0 {
        0
    } else if v > hi as i128 {
        hi
    } else {
        v as usize
    }
}

/// Cuts a rectangle, in frame coordinates, out of a frame. The rectangle may extend past
/// the frame on any side: it is clipped to the frame, and what lies outside is dropped.
pub fn crop(img: &GrayImage, r: FieldRect) -> (out: GrayImage)
    requires
        img.wf(),
    ensures
        out.wf(),
        out@ == crop_spec(img@, img.width as nat, r),
        out.width == clamp(r.left + r.width, 0, img.width as int) - clamp(r.left as int, 0, img.width as int),
        out.height_spec() <= img.height_spec(),
        out.width <= img.width,
{
    let x0 = clamp_exec(r.left as i128, img.width);
    let x1 = clamp_exec(r.left as i128 + r.width as i128, img.width);
    let y0 = clamp_exec(r.top as i128, img.rows.len());
    let y1 = clamp_exec(r.top as i128 + r.height as i128, img.rows.len());
    let ghost spec_out = crop_spec(img@, img.width as nat, r);
    let mut rows: Vec<Vec<u8>> = Vec::new();
    let mut y: usize = y0;
    while y < y1
        invariant
            img.wf(),
            x0 <= x1 <= img.width,
            y0 <= y <= y1 <= img.rows@.len(),
            spec_out.len() == y1 - y0,
            forall|j: int| 0 <= j < spec_out.len() ==> #[trigger] spec_out[j] == img@[y0 + j].subrange(x0 as int, x1 as int),
            rows@.len() == y - y0,
            forall|j: int| 0 <= j < y - y0 ==> #[trigger] rows@[j]@ == spec_out[j],
        decreases y1 - y,
    {
        let src = &img.rows[y];
        assert(src@ == img@[y as int]);
        let mut row: Vec<u8> = Vec::new();
        let mut x: usize = x0;
        while x < x1
            invariant
                x0 <= x <= x1 <= src@.len(),
                row@ == src@.subrange(x0 as int, x as int),
            decreases x1 - x,
        {
            row.push(src[x]);
            x = x + 1;
            assert(row@ =~= src@.subrange(x0 as int, x as int));
        }
        rows.push(row);
        y = y + 1;
    }
    let out = GrayImage { width: x1 - x0, rows };
    assert(out@ =~= spec_out);
    out
}

} // verus!
