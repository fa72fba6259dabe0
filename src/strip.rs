//! The strip transform: stitch every image into one canvas of common width,
//! then cut the canvas into bands of fixed height.
use vstd::prelude::*;
use vstd::slice::slice_subrange;
use vstd::slice::slice_to_vec;
use crate::pixels::PixelBuffer;
use crate::pixels::PageView;
use crate::pixels::views;
use crate::pixels::page_wf;
use crate::pixels::rgba_len;
use crate::pixels::lanczos_resized;
use crate::pixels::resize_exact;

verus! {

/// Largest width among `images`, 0 for none.
pub open spec fn max_width(images: Seq<PageView>) -> nat
    decreases images.len(),
{
    if images.len() == 0 {
        0
    } else {
        let rest = max_width(images.drop_last());
        let w = images.last().0 as nat;
        if w > rest { w } else { rest }
    }
}

/// Sum of the heights of `images`.
pub open spec fn total_height(images: Seq<PageView>) -> nat
    decreases images.len(),
{
    if images.len() == 0 {
        0
    } else {
        total_height(images.drop_last()) + images.last().1 as nat
    }
}

/// The canvas pixels: each image resampled to `width` with its height kept,
/// placed one under the other in order.
pub open spec fn stitched(images: Seq<PageView>, width: u32) -> Seq<u8>
    decreases images.len(),
{
    if images.len() == 0 {
        Seq::empty()
    } else {
        let last = images.last();
        stitched(images.drop_last(), width) + lanczos_resized(last.2, last.0, last.1, width, last.1)
    }
}

/// Number of bands of `band` rows that cover `height` rows.
pub open spec fn band_count(height: nat, band: nat) -> nat
    recommends
        band > 0,
{
    ((height + band - 1) as nat / band) as nat
}

/// Height of band `i`: `band`, or what remains for the last one.
pub open spec fn band_height(height: nat, band: nat, i: nat) -> nat {
    if height >= (i + 1) * band {
        band
    } else {
        (height - i * band) as nat
    }
}

/// The pixels of band `i` of `canvas`.
pub open spec fn band_pixels(canvas: PageView, band: nat, i: nat) -> Seq<u8> {
    canvas.2.subrange(
        rgba_len(canvas.0 as nat, i * band) as int,
        rgba_len(canvas.0 as nat, i * band + band_height(canvas.1 as nat, band, i)) as int,
    )
}

/// Concatenation of the first `k` bands' pixels.
pub open spec fn joined_bands(canvas: PageView, band: nat, k: nat) -> Seq<u8>
    decreases k,
{
    if k == 0 {
        Seq::empty()
    } else {
        joined_bands(canvas, band, (k - 1) as nat) + band_pixels(canvas, band, (k - 1) as nat)
    }
}

/// Sum of the heights of the first `k` bands.
pub open spec fn joined_height(height: nat, band: nat, k: nat) -> nat
    decreases k,
{
    if k == 0 {
        0
    } else {
        joined_height(height, band, (k - 1) as nat) + band_height(height, band, (k - 1) as nat)
    }
}

proof fn lemma_band_count(height: nat, band: nat)
    requires
        band > 0,
    ensures
        band_count(height, band) * band >= height,
        band_count(height, band) == 0 || (band_count(height, band) - 1) * band < height,
{
    let c = band_count(height, band);
    assert(c * band >= height && (c == 0 || (c - 1) * band < height)) by (nonlinear_arith)
        requires
            c == (height + band - 1) as int / band as int,
            band > 0,
    ;
}

proof fn lemma_rgba_len_monotonic(w: nat, a: nat, b: nat)
    requires
        a <= b,
    ensures
        rgba_len(w, a) <= rgba_len(w, b),
        rgba_len(w, b) - rgba_len(w, a) == rgba_len(w, (b - a) as nat),
{
    assert(4 * w * a <= 4 * w * b && 4 * w * b - 4 * w * a == 4 * w * (b - a)) by (nonlinear_arith)
        requires
            a <= b,
    ;
}

proof fn lemma_joined_prefix(canvas: PageView, band: nat, k: nat)
    requires
        page_wf(canvas),
        band > 0,
        k <= band_count(canvas.1 as nat, band),
    ensures
        joined_height(canvas.1 as nat, band, k) == if k * band <= canvas.1 { k * band } else { canvas.1 as nat },
        joined_bands(canvas, band, k) == canvas.2.subrange(
            0,
            rgba_len(canvas.0 as nat, joined_height(canvas.1 as nat, band, k)) as int,
        ),
    decreases k,
{
    let h = canvas.1 as nat;
    let w = canvas.0 as nat;
    lemma_band_count(h, band);
    if k > 0 {
        let j = (k - 1) as nat;
        lemma_joined_prefix(canvas, band, j);
        assert(j * band < h) by (nonlinear_arith)
            requires
                j + 1 <= band_count(h, band),
                band_count(h, band) == 0 || (band_count(h, band) - 1) * band < h,
        ;
        assert((j + 1) * band == j * band + band) by (nonlinear_arith);
        assert(k * band == j * band + band);
        let lo = j * band;
        let hi = lo + band_height(h, band, j);
        assert(hi <= h);
        lemma_rgba_len_monotonic(w, lo, hi);
        lemma_rgba_len_monotonic(w, hi, h);
        lemma_rgba_len_monotonic(w, 0, lo);
        assert(joined_bands(canvas, band, k) =~= canvas.2.subrange(0, rgba_len(w, hi) as int));
    } else {
        assert(k * band == 0) by (nonlinear_arith) requires k == 0;
        assert(canvas.2.subrange(0, 0) =~= Seq::<u8>::empty());
    }
}

/// Joining the bands of `canvas` in order gives back the canvas: the pixels
/// are the same, and the band heights add up to the canvas height.
pub proof fn lemma_bands_rebuild_canvas(canvas: PageView, band: nat)
    requires
        page_wf(canvas),
        band > 0,
    ensures
        joined_bands(canvas, band, band_count(canvas.1 as nat, band)) == canvas.2,
        joined_height(canvas.1 as nat, band, band_count(canvas.1 as nat, band)) == canvas.1,
{
    let h = canvas.1 as nat;
    let c = band_count(h, band);
    lemma_band_count(h, band);
    lemma_joined_prefix(canvas, band, c);
    if c * band > h {
    } else {
        assert(c * band == h);
    }
    assert(canvas.2.subrange(0, canvas.2.len() as int) =~= canvas.2);
}

/// Every band is at least one and at most `band` rows high.
pub proof fn lemma_band_height_bounds(height: nat, band: nat, i: nat)
    requires
        band > 0,
        i < band_count(height, band),
    ensures
        1 <= band_height(height, band, i) <= band,
{
    lemma_band_count(height, band);
    assert(i * band < height) by (nonlinear_arith)
        requires
            i + 1 <= band_count(height, band),
            (band_count(height, band) - 1) * band < height,
    ;
    assert((i + 1) * band == i * band + band) by (nonlinear_arith);
}

/// Stitches `images` into one canvas as wide as the widest of them and as
/// high as all of them together.
pub fn combine_images(images: &Vec<PixelBuffer>) -> (r: PixelBuffer)
    requires
        forall|i: int| 0 <= i < images@.len() ==> (#[trigger] images@[i]).wf(),
        total_height(views(images@)) <= u32::MAX,
        rgba_len(max_width(views(images@)), total_height(views(images@))) <= usize::MAX,
    ensures
        r.wf(),
        r.width == max_width(views(images@)),
        r.height == total_height(views(images@)),
        r.pixels@ == stitched(views(images@), r.width),
{
    let ghost vs = views(images@);
    let mut width: u32 = 0;
    let mut n: usize = 0;
    while n < images.len()
        invariant
            n <= images@.len(),
            vs == views(images@),
            width == max_width(vs.subrange(0, n as int)),
        decreases images@.len() - n,
    {
        assert(vs.subrange(0, n + 1).drop_last() =~= vs.subrange(0, n as int));
        if images[n].width > width {
            width = images[n].width;
        }
        n = n + 1;
    }
    assert(vs.subrange(0, n as int) =~= vs);
    let mut canvas: Vec<u8> = Vec::new();
    let mut height: u32 = 0;
    let mut k: usize = 0;
    while k < images.len()
        invariant
            k <= images@.len(),
            vs == views(images@),
            width == max_width(vs),
            forall|i: int| 0 <= i < images@.len() ==> (#[trigger] images@[i]).wf(),
            total_height(vs) <= u32::MAX,
            rgba_len(width as nat, total_height(vs)) <= usize::MAX,
            height == total_height(vs.subrange(0, k as int)),
            canvas@ == stitched(vs.subrange(0, k as int), width),
            canvas@.len() == rgba_len(width as nat, height as nat),
        decreases images@.len() - k,
    {
        let ghost prefix = vs.subrange(0, k as int);
        let ghost next = vs.subrange(0, k + 1);
        assert(next.drop_last() =~= prefix);
        proof {
            lemma_total_height_prefix(vs, k as int + 1);
            lemma_rgba_len_monotonic(width as nat, total_height(next), total_height(vs));
        }
        let img = &images[k];
        proof {
            assert(next.last() == img@);
            lemma_rgba_len_monotonic(width as nat, img.height as nat, total_height(next));
        }
        let mut resized = resize_exact(img, width, img.height);
        canvas.append(&mut resized.pixels);
        height = height + img.height;
        proof {
            lemma_rgba_len_monotonic(width as nat, (height - img.height) as nat, height as nat);
        }
        k = k + 1;
    }
    assert(vs.subrange(0, k as int) =~= vs);
    PixelBuffer { width, height, pixels: canvas }
}

pub proof fn lemma_total_height_prefix(images: Seq<PageView>, k: int)
    requires
        0 <= k <= images.len(),
    ensures
        total_height(images.subrange(0, k)) <= total_height(images),
    decreases images.len(),
{
    if k < images.len() {
        assert(images.drop_last().subrange(0, k) =~= images.subrange(0, k));
        lemma_total_height_prefix(images.drop_last(), k);
    } else {
        assert(images.subrange(0, k) =~= images);
    }
}

/// Rows `top` up to `bottom` of `canvas`, at its full width.
pub fn crop_image(canvas: &PixelBuffer, top: u32, bottom: u32) -> (r: PixelBuffer)
    requires
        canvas.wf(),
        top <= bottom <= canvas.height,
    ensures
        r.wf(),
        r.width == canvas.width,
        r.height == bottom - top,
        r.pixels@ == canvas.pixels@.subrange(
            rgba_len(canvas.width as nat, top as nat) as int,
            rgba_len(canvas.width as nat, bottom as nat) as int,
        ),
{
    proof {
        lemma_rgba_len_monotonic(canvas.width as nat, top as nat, bottom as nat);
        lemma_rgba_len_monotonic(canvas.width as nat, bottom as nat, canvas.height as nat);
    }
    if bottom == 0 {
        assert(canvas.pixels@.subrange(0, 0) =~= Seq::<u8>::empty());
        return PixelBuffer { width: canvas.width, height: 0, pixels: Vec::new() };
    }
    let total: usize = canvas.pixels.len();
    let ghost w = canvas.width as nat;
    proof {
        lemma_rgba_len_monotonic(w, 1, canvas.height as nat);
        lemma_rgba_len_monotonic(w, top as nat, canvas.height as nat);
        assert(rgba_len(w, 1) == 4 * w);
        assert(top * (4 * w) == rgba_len(w, top as nat)) by (nonlinear_arith);
        assert(bottom * (4 * w) == rgba_len(w, bottom as nat)) by (nonlinear_arith);
    }
    let row: usize = 4 * canvas.width as usize;
    let lo: usize = top as usize * row;
    let hi: usize = bottom as usize * row;
    let pixels = slice_to_vec(slice_subrange(canvas.pixels.as_slice(), lo, hi));
    PixelBuffer { width: canvas.width, height: bottom - top, pixels }
}

/// Cuts `canvas` into bands of `band` rows, top to bottom; the last band
/// holds what remains.
pub fn slice_bands(canvas: &PixelBuffer, band: u32) -> (r: Vec<PixelBuffer>)
    requires
        canvas.wf(),
        band > 0,
    ensures
        r@.len() == band_count(canvas.height as nat, band as nat),
        forall|i: int|
            0 <= i < r@.len() ==> {
                &&& (#[trigger] r@[i]).wf()
                &&& r@[i].width == canvas.width
                &&& r@[i].height == band_height(canvas.height as nat, band as nat, i as nat)
                &&& r@[i].pixels@ == band_pixels(canvas@, band as nat, i as nat)
            },
{
    let height: u64 = canvas.height as u64;
    let count: u64 = (height + band as u64 - 1) / band as u64;
    let mut bands: Vec<PixelBuffer> = Vec::new();
    let mut i: u64 = 0;
    proof {
        lemma_band_count(height as nat, band as nat);
    }
    while i < count
        invariant
            canvas.wf(),
            band > 0,
            height == canvas.height,
            count == band_count(height as nat, band as nat),
            count * band >= height,
            count == 0 || (count - 1) * band < height,
            i <= count,
            bands@.len() == i,
            forall|j: int|
                0 <= j < i ==> {
                    &&& (#[trigger] bands@[j]).wf()
                    &&& bands@[j].width == canvas.width
                    &&& bands@[j].height == band_height(height as nat, band as nat, j as nat)
                    &&& bands@[j].pixels@ == band_pixels(canvas@, band as nat, j as nat)
                },
        decreases count - i,
    {
        assert(i * band < height) by (nonlinear_arith)
            requires
                i + 1 <= count,
                (count - 1) * band < height,
        ;
        assert((i + 1) * band == i * band + band) by (nonlinear_arith);
        let top: u64 = i * band as u64;
        let bottom: u64 = if (i + 1) * (band as u64) < height { (i + 1) * band as u64 } else { height };
        let piece = crop_image(canvas, top as u32, bottom as u32);
        assert(piece.height == band_height(height as nat, band as nat, i as nat));
        bands.push(piece);
        i = i + 1;
    }
    bands
}

} // verus!
