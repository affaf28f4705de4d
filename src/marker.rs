use vstd::prelude::*;
use crate::error::AnalysisError;

verus! {

/// A pixel position: column `x`, row `y`.
#[derive(Clone, Copy, Debug, PartialEq, Eq, Structural)]
pub struct Centroid {
    pub x: usize,
    pub y: usize,
}

/// A pixel's first three channels, read as red, green and blue, mark it as part
/// of the purple marker.
pub open spec fn is_marker(p: Seq<u8>) -> bool {
    p[0] > 215 && p[1] < 10 && p[2] > 215
}

/// How many of the first `n` pixels are marker pixels.
pub open spec fn marker_count(px: Seq<Seq<u8>>, n: nat) -> nat
    decreases n,
{
    if n == 0 {
        0
    } else {
        marker_count(px, (n - 1) as nat) + if is_marker(px[n - 1]) { 1nat } else { 0nat }
    }
}

/// The sum of the column numbers of the marker pixels among the first `n`
/// pixels of a row-major image `width` pixels wide.
pub open spec fn marker_sum_x(px: Seq<Seq<u8>>, width: nat, n: nat) -> nat
    decreases n,
{
    if n == 0 {
        0
    } else {
        marker_sum_x(px, width, (n - 1) as nat) + if is_marker(px[n - 1]) {
            ((n - 1) % (width as int)) as nat
        } else {
            0nat
        }
    }
}

/// The sum of the row numbers of the marker pixels among the first `n` pixels.
pub open spec fn marker_sum_y(px: Seq<Seq<u8>>, width: nat, n: nat) -> nat
    decreases n,
{
    if n == 0 {
        0
    } else {
        marker_sum_y(px, width, (n - 1) as nat) + if is_marker(px[n - 1]) {
            ((n - 1) / (width as int)) as nat
        } else {
            0nat
        }
    }
}

/// The integer-truncated mean position of the marker pixels, if there are any.
pub open spec fn centroid(px: Seq<Seq<u8>>, width: nat) -> Option<(int, int)> {
    let n = marker_count(px, px.len());
    if n == 0 {
        None
    } else {
        Some(
            (
                marker_sum_x(px, width, px.len()) as int / n as int,
                marker_sum_y(px, width, px.len()) as int / n as int,
            ),
        )
    }
}

/// The channel values of each pixel.
pub open spec fn channels(pixels: Seq<[u8; 4]>) -> Seq<Seq<u8>> {
    pixels.map_values(|p: [u8; 4]| p@)
}

/// Whether a pixel position found by exec code is the centroid `c`.
pub open spec fn same_point(r: Option<Centroid>, c: Option<(int, int)>) -> bool {
    match c {
        None => r is None,
        Some(c) => r matches Some(p) && p.x as int == c.0 && p.y as int == c.1,
    }
}

proof fn lemma_sums_bounded(px: Seq<Seq<u8>>, width: nat, n: nat)
    requires
        width > 0,
        n <= px.len(),
    ensures
        marker_count(px, n) <= n,
        marker_sum_x(px, width, n) <= marker_count(px, n) * (width - 1),
        n > 0 ==> marker_sum_y(px, width, n) <= marker_count(px, n) * (n - 1),
        n == 0 ==> marker_sum_y(px, width, n) == 0,
    decreases n,
{
    if n > 0 {
        let m = (n - 1) as nat;
        lemma_sums_bounded(px, width, m);
        let c = marker_count(px, m);
        assert((n - 1) % (width as int) < width);
        assert((n - 1) / (width as int) <= n - 1) by {
            vstd::arithmetic::div_mod::lemma_div_is_ordered_by_denominator((n - 1) as int, 1, width as int);
        }
        if m > 0 {
            assert(c * (m - 1) <= c * (n - 1)) by (nonlinear_arith)
                requires m <= n;
        }
        assert(c * (width - 1) + (width - 1) == (c + 1) * (width - 1)) by (nonlinear_arith);
        assert(c * (n - 1) + (n - 1) == (c + 1) * (n - 1)) by (nonlinear_arith);
    }
}

proof fn lemma_product_fits(a: nat, b: nat)
    requires
        a <= usize::MAX,
        b <= usize::MAX,
    ensures
        a * b < u128::MAX,
{
    assert(a * b <= 18446744073709551615 * 18446744073709551615) by (nonlinear_arith)
        requires
            a <= 18446744073709551615,
            b <= 18446744073709551615,
    ;
}

proof fn lemma_mean_bounded(sum: nat, count: nat, bound: nat)
    requires
        count > 0,
        sum <= count * bound,
    ensures
        sum / count <= bound,
{
    vstd::arithmetic::div_mod::lemma_div_is_ordered(sum as int, (count * bound) as int, count as int);
    vstd::arithmetic::div_mod::lemma_div_multiples_vanish(bound as int, count as int);
}

/// Scans row-major RGBA pixels of an image `width` pixels wide and returns the
/// truncated mean column and row of the marker pixels, or `None` if there are none.
pub fn find_marker(pixels: &Vec<[u8; 4]>, width: usize) -> (r: Option<Centroid>)
    requires
        width > 0,
    ensures
        same_point(r, centroid(channels(pixels@), width as nat)),
{
    let ghost px = channels(pixels@);
    let mut sum_x: u128 = 0;
    let mut sum_y: u128 = 0;
    let mut count: usize = 0;
    let mut i: usize = 0;
    while i < pixels.len()
        invariant
            width > 0,
            i <= pixels.len(),
            px == channels(pixels@),
            count == marker_count(px, i as nat),
            sum_x == marker_sum_x(px, width as nat, i as nat),
            sum_y == marker_sum_y(px, width as nat, i as nat),
        decreases pixels.len() - i,
    {
        proof {
            let n = (i + 1) as nat;
            lemma_sums_bounded(px, width as nat, n);
            let c = marker_count(px, n);
            lemma_product_fits(c, (width - 1) as nat);
            lemma_product_fits(c, i as nat);
        }
        let p = pixels[i];
        proof {
            assert(px[i as int] == p@);
            assert(px[i as int][0] == p[0]);
        }
        if p[0] > 215 && p[1] < 10 && p[2] > 215 {
            sum_x = sum_x + (i % width) as u128;
            sum_y = sum_y + (i / width) as u128;
            count = count + 1;
        }
        i = i + 1;
    }
    if count > 0 {
        proof {
            lemma_sums_bounded(px, width as nat, i as nat);
            lemma_mean_bounded(sum_x as nat, count as nat, (width - 1) as nat);
            lemma_mean_bounded(sum_y as nat, count as nat, (i - 1) as nat);
        }
        Some(Centroid { x: (sum_x / count as u128) as usize, y: (sum_y / count as u128) as usize })
    } else {
        None
    }
}

/// The pixels of an image whose RGBA samples lie row after row in `data`: pixel
/// `k` is the four bytes from `4 * k`.
pub open spec fn rgba_pixels_of(data: Seq<u8>, n: nat) -> Seq<Seq<u8>> {
    Seq::new(n, |k: int| data.subrange(4 * k, 4 * k + 4))
}

/// Relies on image::ImageBuffer::<Rgba<u8>, Vec<u8>>::from_raw, which accepts a
/// buffer of at least 4 * width * height bytes, and ImageBuffer::pixels, which
/// walks those bytes four at a time in row-major order.
#[verifier::external_body]
fn rgba_pixels(width: u32, height: u32, data: Vec<u8>) -> (r: Option<Vec<[u8; 4]>>)
    ensures
        r.is_some() <==> 4 * (width as int) * (height as int) <= data@.len(),
        r matches Some(px) ==> channels(px@) == rgba_pixels_of(data@, (width * height) as nat),
{
    image::ImageBuffer::<image::Rgba<u8>, Vec<u8>>::from_raw(width, height, data)
        .map(|img| img.pixels().map(|p| p.0).collect())
}

/// Finds the marker in a frame converted to packed RGBA, `width` by `height`
/// pixels, whose samples are in `data`; fails when `data` is too short for the
/// frame.
pub fn find_marker_in_rgba(width: u32, height: u32, data: Vec<u8>) -> (r: Result<
    Option<Centroid>,
    AnalysisError,
>)
    requires
        width > 0,
    ensures
        r is Err <==> data@.len() < 4 * (width as int) * (height as int),
        r is Err ==> r == Err::<Option<Centroid>, AnalysisError>(AnalysisError::FrameTooSmall),
        r matches Ok(c) ==> same_point(
            c,
            centroid(rgba_pixels_of(data@, (width * height) as nat), width as nat),
        ),
{
    match rgba_pixels(width, height, data) {
        Some(px) => Ok(find_marker(&px, width as usize)),
        None => Err(AnalysisError::FrameTooSmall),
    }
}

/// Remembers the last marker position seen, so that a frame without a marker
/// reports where the marker was last.
#[derive(Clone, Copy, Debug, PartialEq, Eq, Structural)]
pub struct MarkerTracker {
    pub last: Option<Centroid>,
}

/// The tracker's memory after a frame with detection `d`: a new detection
/// replaces it, no detection leaves it as it was.
pub open spec fn remembered(last: Option<Centroid>, d: Option<Centroid>) -> Option<Centroid> {
    if d is Some { d } else { last }
}

/// What the tracker reports for a frame, given its memory after that frame.
pub open spec fn reported(last: Option<Centroid>) -> Result<Centroid, AnalysisError> {
    match last {
        Some(c) => Ok(c),
        None => Err(AnalysisError::NoMarkerFound),
    }
}

impl MarkerTracker {
    /// A tracker that has seen no marker yet.
    pub fn new() -> (r: MarkerTracker)
        ensures
            r.last is None,
    {
        MarkerTracker { last: None }
    }

    /// Takes the detection of one frame and reports the tracked position: the
    /// detection if there is one, else the last position remembered.
    pub fn update(&mut self, detection: Option<Centroid>) -> (r: Result<Centroid, AnalysisError>)
        ensures
            final(self).last == remembered(old(self).last, detection),
            r == reported(final(self).last),
    {
        if detection.is_some() {
            self.last = detection;
        }
        match self.last {
            Some(c) => Ok(c),
            None => Err(AnalysisError::NoMarkerFound),
        }
    }

    /// Looks for the marker in one frame of row-major RGBA pixels, `width`
    /// pixels wide, and reports the tracked position.
    pub fn track(&mut self, pixels: &Vec<[u8; 4]>, width: usize) -> (r: Result<Centroid, AnalysisError>)
        requires
            width > 0,
        ensures
            exists|d: Option<Centroid>|
                same_point(d, centroid(channels(pixels@), width as nat))
                && final(self).last == remembered(old(self).last, d),
            r == reported(final(self).last),
    {
        let d = find_marker(pixels, width);
        self.update(d)
    }
}

/// Once the tracker has a position it never loses one: whatever the next
/// detection, it still reports a position.
pub proof fn lemma_position_kept(last: Option<Centroid>, d: Option<Centroid>)
    requires
        last is Some,
    ensures
        remembered(last, d) is Some,
        reported(remembered(last, d)) is Ok,
        d is None ==> remembered(last, d) == last,
{
}

} // verus!
