use vstd::prelude::*;

use crate::math::colors::{RGBAColor, TColorRGBA};
use crate::math::component::trunc_div;
use crate::math::vec2::{div_i32, div_ok};
use crate::math::rectangle::{
    bottom, edges_fit, max_int, min_int, rect_fits, rect_from_ints, right, spec_union, RectangleI32,
    TRectangle,
};

verus! {

/// A run of gray pixels of a rendered glyph: `width` pixels from `(x, y)`
/// with the given coverage.
#[derive(Copy, Clone, Debug, PartialEq, Eq, Hash)]
pub struct Span {
    pub x: i32,
    pub y: i32,
    pub width: i32,
    pub coverage: i32,
}

impl Default for Span {
    fn default() -> (s: Span)
        ensures
            s == (Span { x: 0, y: 0, width: 0, coverage: 0 }),
    {
        Span::new(0, 0, 0, 0)
    }
}

/// The one pixel high rectangle a span covers.
pub open spec fn span_rect(s: Span) -> RectangleI32 {
    TRectangle { x: s.x, y: s.y, w: s.width, h: 1 }
}

/// The leftmost start of the spans.
pub open spec fn spans_min_x(ss: Seq<Span>) -> int
    decreases ss.len(),
{
    if ss.len() <= 1 {
        ss[0].x as int
    } else {
        min_int(spans_min_x(ss.drop_last()), ss.last().x as int)
    }
}

/// The topmost row of the spans.
pub open spec fn spans_min_y(ss: Seq<Span>) -> int
    decreases ss.len(),
{
    if ss.len() <= 1 {
        ss[0].y as int
    } else {
        min_int(spans_min_y(ss.drop_last()), ss.last().y as int)
    }
}

/// The rightmost end, `x + width`, of the spans.
pub open spec fn spans_max_right(ss: Seq<Span>) -> int
    decreases ss.len(),
{
    if ss.len() <= 1 {
        ss[0].x + ss[0].width
    } else {
        max_int(spans_max_right(ss.drop_last()), ss.last().x + ss.last().width)
    }
}

/// The row below the lowest span.
pub open spec fn spans_max_bottom(ss: Seq<Span>) -> int
    decreases ss.len(),
{
    if ss.len() <= 1 {
        ss[0].y + 1
    } else {
        max_int(spans_max_bottom(ss.drop_last()), ss.last().y + 1)
    }
}

/// The smallest rectangle that holds every span.
pub open spec fn spans_bbox(ss: Seq<Span>) -> (int, int, int, int) {
    let x0 = spans_min_x(ss);
    let y0 = spans_min_y(ss);
    (x0, y0, spans_max_right(ss) - x0, spans_max_bottom(ss) - y0)
}

/// Every span's end and next row fit in an `i32`, and so does the box
/// around them all.
pub open spec fn spans_fit(ss: Seq<Span>) -> bool {
    &&& ss.len() > 0
    &&& forall|i: int| 0 <= i < ss.len() ==> edges_fit(span_rect(#[trigger] ss[i]))
    &&& rect_fits::<i32>(spans_bbox(ss))
}

proof fn lemma_spans_extent(ss: Seq<Span>)
    requires
        ss.len() > 0,
    ensures
        forall|i: int|
            0 <= i < ss.len() ==> spans_min_x(ss) <= (#[trigger] ss[i]).x && ss[i].x + ss[i].width
                <= spans_max_right(ss) && spans_min_y(ss) <= ss[i].y && ss[i].y + 1 <= spans_max_bottom(ss),
        exists|i: int| 0 <= i < ss.len() && spans_min_x(ss) == (#[trigger] ss[i]).x,
        exists|i: int| 0 <= i < ss.len() && spans_min_y(ss) == (#[trigger] ss[i]).y,
        exists|i: int| 0 <= i < ss.len() && spans_max_right(ss) == (#[trigger] ss[i]).x + ss[i].width,
        exists|i: int| 0 <= i < ss.len() && spans_max_bottom(ss) == (#[trigger] ss[i]).y + 1,
    decreases ss.len(),
{
    if ss.len() == 1 {
        assert(spans_min_x(ss) == ss[0].x);
        assert(spans_min_y(ss) == ss[0].y);
        assert(spans_max_right(ss) == ss[0].x + ss[0].width);
        assert(spans_max_bottom(ss) == ss[0].y + 1);
    }
    if ss.len() > 1 {
        let d = ss.drop_last();
        lemma_spans_extent(d);
        assert forall|i: int| 0 <= i < ss.len() implies spans_min_x(ss) <= (#[trigger] ss[i]).x && ss[i].x
            + ss[i].width <= spans_max_right(ss) && spans_min_y(ss) <= ss[i].y && ss[i].y + 1
            <= spans_max_bottom(ss) by {
            if i < d.len() {
                assert(d[i] == ss[i]);
            }
        }
        let ix = choose|i: int| 0 <= i < d.len() && spans_min_x(d) == (#[trigger] d[i]).x;
        let iy = choose|i: int| 0 <= i < d.len() && spans_min_y(d) == (#[trigger] d[i]).y;
        let ir = choose|i: int| 0 <= i < d.len() && spans_max_right(d) == (#[trigger] d[i]).x + d[i].width;
        let ib = choose|i: int| 0 <= i < d.len() && spans_max_bottom(d) == (#[trigger] d[i]).y + 1;
        let l = ss.len() - 1;
        assert(d[ix] == ss[ix] && d[iy] == ss[iy] && d[ir] == ss[ir] && d[ib] == ss[ib]);
        if spans_min_x(ss) == ss[l].x {
            assert(spans_min_x(ss) == ss[l].x);
        } else {
            assert(spans_min_x(ss) == ss[ix].x);
        }
        if spans_min_y(ss) == ss[l].y {
            assert(spans_min_y(ss) == ss[l].y);
        } else {
            assert(spans_min_y(ss) == ss[iy].y);
        }
        if spans_max_right(ss) == ss[l].x + ss[l].width {
        } else {
            assert(spans_max_right(ss) == ss[ir].x + ss[ir].width);
        }
        if spans_max_bottom(ss) == ss[l].y + 1 {
        } else {
            assert(spans_max_bottom(ss) == ss[ib].y + 1);
        }
    }
}

/// A pixel no span covers.
pub open spec fn transparent_pixel() -> RGBAColor {
    TColorRGBA { r: 0u8, g: 0u8, b: 0u8, a: 0u8 }
}

/// A white pixel with the coverage of a span as its alpha.
pub open spec fn covered_pixel(coverage: i32) -> RGBAColor {
    TColorRGBA { r: 255u8, g: 255u8, b: 255u8, a: coverage as u8 }
}

/// The index of a span's first pixel in an image of the box `b` whose rows
/// go from the bottom up.
pub open spec fn span_start(s: Span, b: RectangleI32) -> int {
    (b.h - 1 - (s.y - b.y)) * b.w + (s.x - b.x)
}

/// The image with the pixels of span `s` painted.
pub open spec fn paint_span(img: Seq<RGBAColor>, s: Span, b: RectangleI32) -> Seq<RGBAColor> {
    let st = span_start(s, b);
    Seq::new(img.len(), |p: int| if st <= p < st + s.width { covered_pixel(s.coverage) } else { img[p] })
}

/// The image with the spans painted in order, later spans over earlier ones.
pub open spec fn paint_spans(img: Seq<RGBAColor>, ss: Seq<Span>, b: RectangleI32) -> Seq<RGBAColor>
    decreases ss.len(),
{
    if ss.len() == 0 {
        img
    } else {
        paint_span(paint_spans(img, ss.drop_last(), b), ss.last(), b)
    }
}

/// The pixels of the glyph made of the spans: its box filled with
/// transparent pixels, rows from the bottom up, then every span painted.
pub open spec fn glyph_pixels(ss: Seq<Span>) -> Seq<RGBAColor> {
    let b = rect_from_ints::<i32>(spans_bbox(ss));
    paint_spans(Seq::new((b.w * b.h) as nat, |p: int| transparent_pixel()), ss, b)
}

/// The spans can be turned into pixels: they fit, none has a negative
/// width, and the image size fits in an `i32`.
pub open spec fn spans_rasterizable(ss: Seq<Span>) -> bool {
    &&& spans_fit(ss)
    &&& forall|i: int| 0 <= i < ss.len() ==> (#[trigger] ss[i]).width >= 0
    &&& (spans_bbox(ss).2) * (spans_bbox(ss).3) <= i32::MAX
}

proof fn lemma_paint_spans_len(img: Seq<RGBAColor>, ss: Seq<Span>, b: RectangleI32)
    ensures
        paint_spans(img, ss, b).len() == img.len(),
    decreases ss.len(),
{
    if ss.len() > 0 {
        lemma_paint_spans_len(img, ss.drop_last(), b);
    }
}

proof fn lemma_index_bound(row: int, col: int, w: int, h: int)
    requires
        0 <= row < h,
        0 <= col < w,
    ensures
        0 <= row * w + col < w * h,
        row * w <= w * h,
{
    assert(row * w + col < w * h) by (nonlinear_arith)
        requires
            0 <= row < h,
            0 <= col < w,
    ;
    assert(0 <= row * w) by (nonlinear_arith)
        requires
            0 <= row,
            0 <= col < w,
    ;
    assert(row * w <= w * h) by (nonlinear_arith)
        requires
            0 <= row < h,
            0 <= col < w,
    ;
}

impl Span {
    pub fn new(x: i32, y: i32, width: i32, coverage: i32) -> (s: Span)
        ensures
            s == (Span { x, y, width, coverage }),
    {
        Span { x, y, width, coverage }
    }

    /// The smallest rectangle that holds every span.
    pub fn bounding_box(spans: &[Span]) -> (r: RectangleI32)
        requires
            spans_fit(spans@),
        ensures
            r == rect_from_ints::<i32>(spans_bbox(spans@)),
    {
        let ghost ss = spans@;
        proof {
            lemma_spans_extent(ss);
        }
        let mut bbox = RectangleI32::new(spans[0].x, spans[0].y, spans[0].width, 1);
        let mut i: usize = 0;
        assert(edges_fit(span_rect(ss[0])));
        while i < spans.len()
            invariant
                ss == spans@,
                spans_fit(ss),
                0 <= i <= ss.len(),
                forall|j: int|
                    0 <= j < ss.len() ==> spans_min_x(ss) <= (#[trigger] ss[j]).x && ss[j].x + ss[j].width
                        <= spans_max_right(ss) && spans_min_y(ss) <= ss[j].y && ss[j].y + 1
                        <= spans_max_bottom(ss),
                i == 0 ==> bbox == span_rect(ss[0]),
                i > 0 ==> bbox == rect_from_ints::<i32>(spans_bbox(ss.take(i as int))),
            decreases ss.len() - i,
        {
            let span = spans[i];
            let span_bbox = RectangleI32::new(span.x, span.y, span.width, 1);
            let ghost pre = ss.take(i as int);
            let ghost cur = ss.take(i + 1);
            proof {
                assert(cur.drop_last() =~= pre);
                assert(cur.last() == span);
                assert(edges_fit(span_rect(ss[i as int])));
                if i > 0 {
                    lemma_spans_extent(pre);
                    let ir = choose|k: int| 0 <= k < pre.len() && spans_max_right(pre) == (#[trigger] pre[k]).x + pre[k].width;
                    let ib = choose|k: int| 0 <= k < pre.len() && spans_max_bottom(pre) == (#[trigger] pre[k]).y + 1;
                    let ix = choose|k: int| 0 <= k < pre.len() && spans_min_x(pre) == (#[trigger] pre[k]).x;
                    let iy = choose|k: int| 0 <= k < pre.len() && spans_min_y(pre) == (#[trigger] pre[k]).y;
                    assert(pre[ir] == ss[ir] && pre[ib] == ss[ib] && pre[ix] == ss[ix] && pre[iy] == ss[iy]);
                    assert(edges_fit(span_rect(ss[ir])));
                    assert(edges_fit(span_rect(ss[ib])));
                    assert(edges_fit(bbox));
                    assert(spans_bbox(cur) == spec_union(bbox, span_bbox));
                    assert(spans_min_x(ss) <= spans_min_x(cur) <= ss[i as int].x);
                    assert(spans_max_right(cur) <= spans_max_right(ss));
                    assert(spans_max_right(cur) - spans_min_x(cur) >= ss[i as int].x + ss[i as int].width
                        - ss[i as int].x);
                    assert(spans_max_bottom(cur) <= spans_max_bottom(ss));
                    assert(spans_min_y(ss) <= spans_min_y(cur));
                    assert(rect_fits::<i32>(spec_union(bbox, span_bbox)));
                } else {
                    assert(cur =~= seq![span]);
                    assert(rect_fits::<i32>(spec_union(bbox, span_bbox)));
                }
            }
            bbox = RectangleI32::union(&bbox, &span_bbox);
            i = i + 1;
        }
        assert(ss.take(ss.len() as int) =~= ss);
        bbox
    }

    /// The box around the spans and the glyph's pixels: white where a span
    /// covers the pixel, with the span's coverage as alpha, transparent
    /// elsewhere; rows go from the bottom of the box up.
    pub fn convert_to_pixels(spans: &[Span]) -> (r: (RectangleI32, Vec<RGBAColor>))
        requires
            spans_rasterizable(spans@),
        ensures
            r.0 == rect_from_ints::<i32>(spans_bbox(spans@)),
            r.1@ == glyph_pixels(spans@),
    {
        let ghost ss = spans@;
        let glyph_bbox = Span::bounding_box(spans);
        proof {
            lemma_spans_extent(ss);
        }
        let img_width = glyph_bbox.w;
        let img_height = glyph_bbox.h;
        assert(img_width >= 0 && img_height >= 1) by {
            assert(ss[0].x + ss[0].width <= spans_max_right(ss));
            assert(spans_min_x(ss) <= ss[0].x);
            assert(ss[0].width >= 0);
        }
        assert(img_width * img_height <= i32::MAX);
        assert(img_width * img_height >= 0) by (nonlinear_arith)
            requires
                img_width >= 0,
                img_height >= 1,
        ;
        let n = (img_width * img_height) as usize;
        let ghost b = glyph_bbox;
        let ghost blank = Seq::new(n as nat, |p: int| transparent_pixel());
        let mut glyph_pixels: Vec<RGBAColor> = Vec::with_capacity(n);
        let mut p: usize = 0;
        while p < n
            invariant
                p <= n,
                blank.len() == n,
                blank == Seq::new(n as nat, |q: int| transparent_pixel()),
                glyph_pixels@ == blank.take(p as int),
            decreases n - p,
        {
            glyph_pixels.push(RGBAColor::new_with_alpha(0, 0, 0, 0));
            assert(blank.take(p + 1) =~= blank.take(p as int).push(blank[p as int]));
            p = p + 1;
        }
        assert(blank.take(n as int) =~= blank);
        proof {
            lemma_paint_spans_len(blank, ss, b);
        }
        let mut k: usize = 0;
        while k < spans.len()
            invariant
                ss == spans@,
                spans_rasterizable(ss),
                b == glyph_bbox,
                b == rect_from_ints::<i32>(spans_bbox(ss)),
                img_width == b.w,
                img_height == b.h,
                b.w >= 0,
                b.h >= 1,
                n == b.w * b.h,
                n <= i32::MAX,
                blank == Seq::new(n as nat, |p: int| transparent_pixel()),
                k <= ss.len(),
                forall|j: int|
                    0 <= j < ss.len() ==> spans_min_x(ss) <= (#[trigger] ss[j]).x && ss[j].x + ss[j].width
                        <= spans_max_right(ss) && spans_min_y(ss) <= ss[j].y && ss[j].y + 1
                        <= spans_max_bottom(ss),
                glyph_pixels@ == paint_spans(blank, ss.take(k as int), b),
            decreases ss.len() - k,
        {
            let span = spans[k];
            proof {
                lemma_paint_spans_len(blank, ss.take(k as int), b);
            }
            let ghost before = glyph_pixels@;
            let ghost st = span_start(span, b);
            assert(ss.take(k + 1).drop_last() =~= ss.take(k as int));
            assert(ss.take(k + 1).last() == span);
            let row = img_height - 1 - (span.y - glyph_bbox.y);
            assert(0 <= row < img_height);
            let mut x: i32 = 0;
            while x < span.width
                invariant
                    b == glyph_bbox,
                    img_width == b.w,
                    img_height == b.h,
                    b.w >= 0,
                    b.h >= 1,
                    n == b.w * b.h,
                    n <= i32::MAX,
                    0 <= row < img_height,
                    row == b.h - 1 - (span.y - b.y),
                    st == span_start(span, b),
                    b.x <= span.x,
                    span.x + span.width <= b.x + b.w,
                    0 <= x <= span.width,
                    glyph_pixels@.len() == n,
                    before.len() == n,
                    forall|q: int|
                        0 <= q < n ==> #[trigger] glyph_pixels@[q] == if st <= q < st + x {
                            covered_pixel(span.coverage)
                        } else {
                            before[q]
                        },
                decreases span.width - x,
            {
                let col = span.x - glyph_bbox.x + x;
                proof {
                    lemma_index_bound(row as int, col as int, img_width as int, img_height as int);
                }
                let dst = (row * img_width + col) as usize;
                glyph_pixels[dst] = RGBAColor::new_with_alpha(255, 255, 255, span.coverage as u8);
                x = x + 1;
            }
            proof {
                assert(glyph_pixels@ =~= paint_span(before, span, b));
            }
            k = k + 1;
        }
        assert(ss.take(ss.len() as int) =~= ss);
        (glyph_bbox, glyph_pixels)
    }
}

/// The height in pixels of a font of `points` points drawn at `dpi` dots
/// per inch: `points * dpi / 72`, rounded toward zero.
pub fn font_pixel_size(points: i32, dpi: u32) -> (r: i32)
    requires
        dpi <= i32::MAX,
        i32::MIN <= points * dpi <= i32::MAX,
    ensures
        r == trunc_div(points * dpi, 72),
{
    div_i32(points * dpi as i32, 72)
}

/// A length of `units` font units in pixels, for a face of `units_per_em`
/// units per em drawn `pixel_size` pixels high: `units * pixel_size /
/// units_per_em`, rounded toward zero.
pub fn font_units_to_pixels(units: i32, pixel_size: i32, units_per_em: i32) -> (r: i32)
    requires
        i32::MIN <= units * pixel_size <= i32::MAX,
        div_ok((units * pixel_size) as i32, units_per_em),
    ensures
        r == trunc_div(units * pixel_size, units_per_em as int),
{
    div_i32(units * pixel_size, units_per_em)
}

} // verus!
