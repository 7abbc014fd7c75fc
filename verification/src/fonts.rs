//! Choosing a font face and cutting a rasterised glyph out of its canvas.

use vstd::prelude::*;

verus! {

/// One of the four faces of the terminal font.
#[derive(Clone, Copy, PartialEq, Eq, Debug, Structural)]
pub enum FaceStyle {
    Regular,
    Bold,
    Italic,
    BoldItalic,
}

/// The face that draws text with the given attributes.
pub open spec fn spec_pick(bold: bool, italic: bool) -> FaceStyle {
    if bold && italic {
        FaceStyle::BoldItalic
    } else if bold {
        FaceStyle::Bold
    } else if italic {
        FaceStyle::Italic
    } else {
        FaceStyle::Regular
    }
}

/// The face that draws text with the given attributes.
pub fn pick(bold: bool, italic: bool) -> (f: FaceStyle)
    ensures
        f == spec_pick(bold, italic),
{
    match (bold, italic) {
        (false, false) => FaceStyle::Regular,
        (true, false) => FaceStyle::Bold,
        (false, true) => FaceStyle::Italic,
        (true, true) => FaceStyle::BoldItalic,
    }
}

/// The first font, in order of preference, that has a glyph for a
/// character: its position in the list and the glyph's id.
pub open spec fn spec_first_glyph(ids: Seq<Option<u32>>) -> Option<(usize, u32)>
    decreases ids.len(),
{
    if ids.len() == 0 {
        None
    } else {
        match spec_first_glyph(ids.drop_last()) {
            Some(found) => Some(found),
            None => match ids.last() {
                Some(g) => Some(((ids.len() - 1) as usize, g)),
                None => None,
            },
        }
    }
}

/// Given each candidate font's glyph lookup for a character (the styled face
/// first, then the fallbacks), the first font that has one.
pub fn first_glyph(ids: &[Option<u32>]) -> (found: Option<(usize, u32)>)
    ensures
        found == spec_first_glyph(ids@),
{
    let mut i: usize = 0;
    while i < ids.len()
        invariant
            i <= ids@.len(),
            spec_first_glyph(ids@.subrange(0, i as int)) is None,
        decreases ids@.len() - i,
    {
        assert(ids@.subrange(0, i + 1).drop_last() =~= ids@.subrange(0, i as int));
        if let Some(g) = ids[i] {
            proof {
                lemma_first_glyph_prefix(ids@, i as int + 1);
            }
            return Some((i, g));
        }
        i += 1;
    }
    assert(ids@.subrange(0, ids@.len() as int) =~= ids@);
    None
}

/// A font found within a prefix of the candidates is the one found in all
/// of them.
pub proof fn lemma_first_glyph_prefix(ids: Seq<Option<u32>>, n: int)
    requires
        0 <= n <= ids.len(),
        spec_first_glyph(ids.subrange(0, n)) is Some,
    ensures
        spec_first_glyph(ids) == spec_first_glyph(ids.subrange(0, n)),
    decreases ids.len() - n,
{
    if n < ids.len() {
        assert(ids.subrange(0, n + 1).drop_last() =~= ids.subrange(0, n));
        lemma_first_glyph_prefix(ids, n + 1);
    } else {
        assert(ids.subrange(0, n) =~= ids);
    }
}

/// The size of a glyph's bitmap from its raster bounds; an empty bitmap
/// (zero or negative extent) has none.
pub fn glyph_extent(width: i32, height: i32) -> (ext: Option<(u32, u32)>)
    ensures
        width <= 0 || height <= 0 ==> ext is None,
        width > 0 && height > 0 ==> ext == Some((width as u32, height as u32)),
{
    if width <= 0 || height <= 0 {
        None
    } else {
        Some((width as u32, height as u32))
    }
}

/// The first `h` rows of `width` bytes each of a canvas whose rows start
/// `stride` bytes apart, concatenated.
pub open spec fn cropped(pixels: Seq<u8>, stride: int, width: int, h: int) -> Seq<u8>
    decreases h,
{
    if h <= 0 {
        seq![]
    } else {
        cropped(pixels, stride, width, h - 1) + pixels.subrange((h - 1) * stride, (h - 1) * stride + width)
    }
}

/// Cuts a `width` x `height` coverage bitmap out of a canvas whose rows are
/// `stride` bytes apart.
pub fn crop_coverage(pixels: &[u8], stride: usize, width: usize, height: usize) -> (out: Vec<u8>)
    requires
        height > 0 ==> (height - 1) * stride + width <= pixels@.len(),
    ensures
        out@ == cropped(pixels@, stride as int, width as int, height as int),
{
    let mut out: Vec<u8> = Vec::new();
    let n = pixels.len();
    let mut row: usize = 0;
    while row < height
        invariant
            n == pixels@.len(),
            row <= height,
            height > 0 ==> (height - 1) * stride + width <= pixels@.len(),
            out@ == cropped(pixels@, stride as int, width as int, row as int),
        decreases height - row,
    {
        assert(row * stride <= (height - 1) * stride) by (nonlinear_arith)
            requires
                row < height,
        ;
        assert(row * stride + width <= n);
        let start = row * stride;
        let ghost base = out@;
        let mut k: usize = 0;
        while k < width
            invariant
                row < height,
                n == pixels@.len(),
                start == row * stride,
                start + width <= pixels@.len(),
                k <= width,
                out@ == base + pixels@.subrange(start as int, start + k),
            decreases width - k,
        {
            out.push(pixels[start + k]);
            k += 1;
            assert(out@ =~= base + pixels@.subrange(start as int, start + k));
        }
        row += 1;
        assert(out@ =~= cropped(pixels@, stride as int, width as int, row as int));
    }
    out
}

/// The face follows the attributes: it is bold exactly for bold text and
/// italic exactly for italic text.
pub proof fn law_pick_follows_attributes(bold: bool, italic: bool)
    ensures
        bold <==> (spec_pick(bold, italic) == FaceStyle::Bold || spec_pick(bold, italic) == FaceStyle::BoldItalic),
        italic <==> (spec_pick(bold, italic) == FaceStyle::Italic || spec_pick(bold, italic)
            == FaceStyle::BoldItalic),
{
}

/// The font chosen for a character is the first candidate that has a
/// glyph for it: the result names a candidate and its glyph, and every
/// candidate before it has none; there is no result exactly when no
/// candidate has one.
pub proof fn law_first_glyph(ids: Seq<Option<u32>>)
    requires
        ids.len() <= usize::MAX,
    ensures
        match spec_first_glyph(ids) {
            Some((i, g)) => (i as int) < ids.len() && ids[i as int] == Some(g) && forall|j: int|
                0 <= j < i ==> #[trigger] ids[j] is None,
            None => forall|j: int| 0 <= j < ids.len() ==> #[trigger] ids[j] is None,
        },
    decreases ids.len(),
{
    if ids.len() > 0 {
        law_first_glyph(ids.drop_last());
        let prev = ids.drop_last();
        match spec_first_glyph(prev) {
            Some((i, g)) => {
                assert forall|j: int| 0 <= j < i implies #[trigger] ids[j] is None by {
                    assert(ids[j] == prev[j]);
                }
                assert(ids[i as int] == prev[i as int]);
            },
            None => {
                assert forall|j: int| 0 <= j < ids.len() - 1 implies #[trigger] ids[j] is None by {
                    assert(ids[j] == prev[j]);
                }
            },
        }
    }
}

/// The coverage cut out of a canvas is `width` x `height` bytes, row by
/// row: byte `k` of row `row` is the canvas byte `row * stride + k`.
pub proof fn law_cropped(pixels: Seq<u8>, stride: int, width: int, height: int)
    requires
        stride >= 0,
        width >= 0,
        height >= 0,
        height > 0 ==> (height - 1) * stride + width <= pixels.len(),
    ensures
        cropped(pixels, stride, width, height).len() == width * height,
        forall|row: int, k: int|
            0 <= row < height && 0 <= k < width ==> #[trigger] cropped(pixels, stride, width, height)[row
                * width + k] == pixels[row * stride + k],
    decreases height,
{
    if height > 0 {
        let h = height - 1;
        if h > 0 {
            assert((h - 1) * stride + width <= h * stride + width) by (nonlinear_arith)
                requires
                    h >= 1,
                    stride >= 0,
            ;
        }
        law_cropped(pixels, stride, width, h);
        let prev = cropped(pixels, stride, width, h);
        let all = cropped(pixels, stride, width, height);
        assert(prev.len() == h * width) by (nonlinear_arith)
            requires
                prev.len() == width * h,
        ;
        assert(h * width + width == width * height) by (nonlinear_arith)
            requires
                h == height - 1,
        ;
        assert(h * stride >= 0) by (nonlinear_arith)
            requires
                h >= 0,
                stride >= 0,
        ;
        assert(all == prev + pixels.subrange(h * stride, h * stride + width));
        assert forall|row: int, k: int| 0 <= row < height && 0 <= k < width implies #[trigger] all[row
            * width + k] == pixels[row * stride + k] by {
            if row < h {
                assert(0 <= row * width + k < h * width) by (nonlinear_arith)
                    requires
                        0 <= row < h,
                        0 <= k < width,
                ;
                assert(all[row * width + k] == prev[row * width + k]);
                assert(prev[row * width + k] == pixels[row * stride + k]);
            } else {
                assert(row * width + k - prev.len() == k);
                assert(all[row * width + k] == pixels.subrange(h * stride, h * stride + width)[k]);
            }
        }
    }
}

} // verus!
