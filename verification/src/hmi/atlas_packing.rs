use vstd::prelude::*;

use crate::hmi::text_engine::transparent_pixel;
use crate::math::colors::RGBAColor;
use crate::math::rectangle::{max_int, RectangleI32, TRectangle};

verus! {

broadcast use {vstd::seq_lib::group_to_multiset_ensures, vstd::seq_lib::to_multiset_update};

/// A glyph waiting for its place in the font atlas: the font and codepoint
/// it renders, and the box of its pixels.
#[derive(Copy, Clone, Debug, PartialEq, Eq)]
pub struct GlyphBox {
    pub font: u32,
    pub codepoint: u32,
    pub bbox: RectangleI32,
}

impl GlyphBox {
    pub fn new(font: u32, codepoint: u32, bbox: RectangleI32) -> (g: GlyphBox)
        ensures
            g == (GlyphBox { font, codepoint, bbox }),
    {
        GlyphBox { font, codepoint, bbox }
    }
}

/// The two rectangles share a region of positive area.
pub open spec fn rects_overlap(a: RectangleI32, b: RectangleI32) -> bool {
    &&& a.x < b.x + b.w
    &&& b.x < a.x + a.w
    &&& a.y < b.y + b.h
    &&& b.y < a.y + a.h
}

/// `inner` lies inside `outer`.
pub open spec fn rect_inside(inner: RectangleI32, outer: RectangleI32) -> bool {
    &&& outer.x <= inner.x
    &&& inner.x + inner.w <= outer.x + outer.w
    &&& outer.y <= inner.y
    &&& inner.y + inner.h <= outer.y + outer.h
}

/// A box of the size of `b` fits in the free space `s`.
pub open spec fn box_fits(b: RectangleI32, s: RectangleI32) -> bool {
    b.w <= s.w && b.h <= s.h
}

/// The index of the last free space the box fits in, or -1 when none does.
pub open spec fn last_fit(spaces: Seq<RectangleI32>, b: RectangleI32) -> int
    decreases spaces.len(),
{
    if spaces.len() == 0 {
        -1
    } else if box_fits(b, spaces.last()) {
        spaces.len() - 1
    } else {
        last_fit(spaces.drop_last(), b)
    }
}

/// Where a box of the size of `b` goes in the free space `s`: its top left
/// corner.
pub open spec fn corner_of(s: RectangleI32, b: RectangleI32) -> RectangleI32 {
    TRectangle { x: s.x, y: s.y, w: b.w, h: b.h }
}

/// The free spaces after a box of the size of `b` took the top left corner
/// of space `i`: a space the box fills exactly is dropped (the last space
/// takes its slot); one as high as the box keeps the part to its right; one
/// as wide as the box keeps the part below it; any other space keeps the
/// part below the box, and the part to its right becomes a new last space.
pub open spec fn spaces_after(spaces: Seq<RectangleI32>, i: int, b: RectangleI32) -> Seq<RectangleI32> {
    let s = spaces[i];
    let below = TRectangle { x: s.x, y: (s.y + b.h) as i32, w: s.w, h: (s.h - b.h) as i32 };
    if b.w == s.w && b.h == s.h {
        let rest = spaces.drop_last();
        if i < rest.len() {
            rest.update(i, spaces.last())
        } else {
            rest
        }
    } else if b.h == s.h {
        spaces.update(i, TRectangle { x: (s.x + b.w) as i32, y: s.y, w: (s.w - b.w) as i32, h: s.h })
    } else if b.w == s.w {
        spaces.update(i, below)
    } else {
        spaces.update(i, below).push(
            TRectangle { x: (s.x + b.w) as i32, y: s.y, w: (s.w - b.w) as i32, h: b.h },
        )
    }
}

/// The boxes are sorted by height, tallest first.
pub open spec fn sorted_by_height(s: Seq<GlyphBox>) -> bool {
    forall|a: int, b: int| 0 <= a < b < s.len() ==> s[a].bbox.h >= s[b].bbox.h
}

/// No box has a negative width or height.
pub open spec fn sizes_nonneg(boxes: Seq<GlyphBox>) -> bool {
    forall|j: int| 0 <= j < boxes.len() ==> 0 <= (#[trigger] boxes[j]).bbox.w && 0 <= boxes[j].bbox.h
}

/// The boxes can be packed into a strip of the given width: neither a size
/// nor the width is negative.
pub open spec fn boxes_packable(boxes: Seq<GlyphBox>, start_width: i32) -> bool {
    0 <= start_width && sizes_nonneg(boxes)
}

proof fn lemma_last_fit(spaces: Seq<RectangleI32>, b: RectangleI32)
    ensures
        -1 <= last_fit(spaces, b) < spaces.len(),
        last_fit(spaces, b) >= 0 ==> box_fits(b, spaces[last_fit(spaces, b)]),
        last_fit(spaces, b) == -1 ==> forall|i: int|
            0 <= i < spaces.len() ==> !box_fits(b, #[trigger] spaces[i]),
    decreases spaces.len(),
{
    if spaces.len() > 0 && !box_fits(b, spaces.last()) {
        let d = spaces.drop_last();
        lemma_last_fit(d, b);
        assert forall|i: int| 0 <= i < d.len() implies d[i] == spaces[i] by {}
    }
}

/// The index of the last free space a box of the size of `b` fits in.
fn find_last_fit(spaces: &Vec<RectangleI32>, b: &RectangleI32) -> (r: Option<usize>)
    ensures
        match r {
            Some(i) => i as int == last_fit(spaces@, *b),
            None => last_fit(spaces@, *b) == -1,
        },
{
    let mut i: usize = spaces.len();
    assert(spaces@.take(i as int) =~= spaces@);
    while i > 0
        invariant
            i <= spaces.len(),
            last_fit(spaces@, *b) == last_fit(spaces@.take(i as int), *b),
        decreases i,
    {
        let s = spaces[i - 1];
        assert(spaces@.take(i as int).last() == s);
        if b.w <= s.w && b.h <= s.h {
            return Some(i - 1);
        }
        assert(spaces@.take(i as int).drop_last() =~= spaces@.take(i - 1));
        i = i - 1;
    }
    None
}

proof fn lemma_swap_multiset(s: Seq<GlyphBox>, a: int, b: int)
    requires
        0 <= a < s.len(),
        0 <= b < s.len(),
    ensures
        s.update(a, s[b]).update(b, s[a]).to_multiset() =~= s.to_multiset(),
{
    broadcast use vstd::multiset::group_multiset_axioms;

    let s1 = s.update(a, s[b]);
    assert(s1.to_multiset() == s.to_multiset().insert(s[b]).remove(s[a]));
    assert(s1.update(b, s[a]).to_multiset() == s1.to_multiset().insert(s[a]).remove(s1[b]));
    if a == b {
        assert(s1 =~= s);
        assert(s1.update(b, s[a]) =~= s);
    } else {
        assert(s1[b] == s[b]);
    }
}

/// Sorts the boxes by height, tallest first.
pub fn sort_by_height(rects: &mut [GlyphBox])
    ensures
        sorted_by_height(final(rects)@),
        final(rects)@.to_multiset() == old(rects)@.to_multiset(),
{
    let n = rects.len();
    let mut i: usize = 0;
    while i < n
        invariant
            rects@.len() == n,
            i <= n,
            forall|a: int, b: int|
                0 <= a < b < i ==> (#[trigger] rects@[a]).bbox.h >= (#[trigger] rects@[b]).bbox.h,
            rects@.to_multiset() == old(rects)@.to_multiset(),
        decreases n - i,
    {
        let mut j: usize = i;
        while j > 0 && rects[j - 1].bbox.h < rects[j].bbox.h
            invariant
                rects@.len() == n,
                i < n,
                j <= i,
                forall|a: int, b: int|
                    0 <= a < b <= i && a != j && b != j ==> (#[trigger] rects@[a]).bbox.h >= (
                    #[trigger] rects@[b]).bbox.h,
                forall|b: int| j < b <= i ==> rects@[j as int].bbox.h > (#[trigger] rects@[b]).bbox.h,
                rects@.to_multiset() == old(rects)@.to_multiset(),
            decreases j,
        {
            let ghost pre = rects@;
            let upper = rects[j - 1];
            let lower = rects[j];
            rects[j - 1] = lower;
            rects[j] = upper;
            proof {
                lemma_swap_multiset(pre, j - 1, j as int);
                assert(rects@ == pre.update(j - 1, pre[j as int]).update(j as int, pre[j - 1]));
            }
            j = j - 1;
        }
        i = i + 1;
    }
}

/// The state of the packing: the free spaces of the strip, the boxes, which
/// of them have their place, and the size of the atlas so far.
pub struct PackState {
    pub spaces: Seq<RectangleI32>,
    pub boxes: Seq<GlyphBox>,
    pub placed: Seq<bool>,
    pub width: int,
    pub height: int,
}

/// Before any box is placed: one free space, the whole strip of the given
/// width and of the greatest `i32` height.
pub open spec fn pack_start(boxes: Seq<GlyphBox>, start_width: i32) -> PackState {
    PackState {
        spaces: seq![TRectangle { x: 0i32, y: 0i32, w: start_width, h: i32::MAX }],
        boxes,
        placed: Seq::new(boxes.len(), |j: int| false),
        width: 0,
        height: 0,
    }
}

/// Box `k` goes to the top left corner of the last free space it fits in;
/// a box of width zero, or one that fits nowhere, stays where it is.
pub open spec fn pack_step(st: PackState, k: int) -> PackState {
    let g = st.boxes[k];
    let i = last_fit(st.spaces, g.bbox);
    if g.bbox.w == 0 || i < 0 {
        st
    } else {
        let s = st.spaces[i];
        PackState {
            spaces: spaces_after(st.spaces, i, g.bbox),
            boxes: st.boxes.update(
                k,
                GlyphBox { font: g.font, codepoint: g.codepoint, bbox: corner_of(s, g.bbox) },
            ),
            placed: st.placed.update(k, true),
            width: max_int(st.width, s.x + g.bbox.w),
            height: max_int(st.height, s.y + g.bbox.h),
        }
    }
}

/// The state once the first `k` boxes had their turn.
pub open spec fn pack_upto(boxes: Seq<GlyphBox>, start_width: i32, k: nat) -> PackState
    decreases k,
{
    if k == 0 {
        pack_start(boxes, start_width)
    } else {
        pack_step(pack_upto(boxes, start_width, (k - 1) as nat), k - 1)
    }
}

/// The state once every box had its turn, in order.
pub open spec fn pack_result(boxes: Seq<GlyphBox>, start_width: i32) -> PackState {
    pack_upto(boxes, start_width, boxes.len())
}

/// The free space lies in the strip of the given width, within `i32`.
pub open spec fn space_in_strip(s: RectangleI32, start_width: i32) -> bool {
    &&& 0 <= s.x
    &&& 0 <= s.w
    &&& s.x + s.w <= start_width
    &&& 0 <= s.y
    &&& 0 <= s.h
    &&& s.y + s.h <= i32::MAX
}

/// The box lies in the atlas of the given size, and is not empty across.
pub open spec fn box_in_atlas(b: RectangleI32, width: int, height: int) -> bool {
    &&& 0 <= b.x
    &&& 0 < b.w
    &&& b.x + b.w <= width
    &&& 0 <= b.y
    &&& b.y + b.h <= height
}

/// The box is the glyph `orig`, possibly moved: same glyph, same size.
pub open spec fn same_glyph(g: GlyphBox, orig: GlyphBox) -> bool {
    &&& g.font == orig.font
    &&& g.codepoint == orig.codepoint
    &&& g.bbox.w == orig.bbox.w
    &&& g.bbox.h == orig.bbox.h
}

/// What holds of the packing after the first `k` boxes: the free spaces lie
/// in the strip and do not overlap, each placed box lies in the atlas and
/// overlaps no free space and no other placed box, and the other boxes are
/// as they were.
pub open spec fn pack_inv(st: PackState, boxes: Seq<GlyphBox>, start_width: i32, k: int) -> bool {
    &&& st.boxes.len() == boxes.len()
    &&& st.placed.len() == boxes.len()
    &&& forall|j: int| 0 <= j < boxes.len() ==> same_glyph(#[trigger] st.boxes[j], boxes[j])
    &&& forall|j: int| 0 <= j < boxes.len() && !st.placed[j] ==> #[trigger] st.boxes[j] == boxes[j]
    &&& forall|j: int| k <= j < boxes.len() ==> !#[trigger] st.placed[j]
    &&& forall|i: int| 0 <= i < st.spaces.len() ==> space_in_strip(#[trigger] st.spaces[i], start_width)
    &&& 0 <= st.width <= start_width
    &&& 0 <= st.height <= i32::MAX
    &&& forall|j: int|
        0 <= j < boxes.len() && #[trigger] st.placed[j] ==> box_in_atlas(st.boxes[j].bbox, st.width, st.height)
    &&& forall|a: int, b: int|
        0 <= a < b < st.spaces.len() ==> !rects_overlap(#[trigger] st.spaces[a], #[trigger] st.spaces[b])
    &&& forall|j: int, i: int|
        0 <= j < boxes.len() && st.placed[j] && 0 <= i < st.spaces.len() ==> !rects_overlap(
            #[trigger] st.boxes[j].bbox,
            #[trigger] st.spaces[i],
        )
    &&& forall|a: int, b: int|
        0 <= a < boxes.len() && 0 <= b < boxes.len() && a != b && st.placed[a] && st.placed[b]
            ==> !rects_overlap(#[trigger] st.boxes[a].bbox, #[trigger] st.boxes[b].bbox)
}

proof fn lemma_spaces_after(spaces: Seq<RectangleI32>, i: int, b: RectangleI32, start_width: i32)
    requires
        forall|m: int| 0 <= m < spaces.len() ==> space_in_strip(#[trigger] spaces[m], start_width),
        forall|m1: int, m2: int|
            0 <= m1 < m2 < spaces.len() ==> !rects_overlap(#[trigger] spaces[m1], #[trigger] spaces[m2]),
        0 <= i < spaces.len(),
        box_fits(b, spaces[i]),
        0 <= b.w,
        0 <= b.h,
    ensures
        forall|m: int|
            0 <= m < spaces_after(spaces, i, b).len() ==> space_in_strip(
                #[trigger] spaces_after(spaces, i, b)[m],
                start_width,
            ),
        forall|m1: int, m2: int|
            0 <= m1 < m2 < spaces_after(spaces, i, b).len() ==> !rects_overlap(
                #[trigger] spaces_after(spaces, i, b)[m1],
                #[trigger] spaces_after(spaces, i, b)[m2],
            ),
        forall|m: int|
            0 <= m < spaces_after(spaces, i, b).len() ==> (rect_inside(
                #[trigger] spaces_after(spaces, i, b)[m],
                spaces[i],
            ) && !rects_overlap(spaces_after(spaces, i, b)[m], corner_of(spaces[i], b))) || exists|o: int|
                0 <= o < spaces.len() && o != i && spaces_after(spaces, i, b)[m] == #[trigger] spaces[o],
{
    let s = spaces[i];
    let ns = spaces_after(spaces, i, b);
    let n = spaces.len();
    if b.w == s.w && b.h == s.h {
        let rest = spaces.drop_last();
        if i < rest.len() {
            assert forall|m: int| 0 <= m < ns.len() implies ns[m] == spaces[if m == i { n - 1 } else { m }] by {}
            assert forall|m1: int, m2: int|
                0 <= m1 < m2 < ns.len() implies !rects_overlap(#[trigger] ns[m1], #[trigger] ns[m2]) by {
                let o1 = if m1 == i { n - 1 } else { m1 };
                let o2 = if m2 == i { n - 1 } else { m2 };
                assert(ns[m1] == spaces[o1] && ns[m2] == spaces[o2]);
                if o1 < o2 {
                } else {
                    assert(!rects_overlap(spaces[o2], spaces[o1]));
                }
            }
            assert forall|m: int| 0 <= m < ns.len() implies (rect_inside(#[trigger] ns[m], s) && !rects_overlap(
                ns[m],
                corner_of(s, b),
            )) || exists|o: int| 0 <= o < n && o != i && ns[m] == #[trigger] spaces[o] by {
                let o = if m == i { n - 1 } else { m };
                assert(ns[m] == spaces[o]);
            }
        } else {
            assert forall|m: int| 0 <= m < ns.len() implies ns[m] == spaces[m] by {}
            assert forall|m: int| 0 <= m < ns.len() implies (rect_inside(#[trigger] ns[m], s) && !rects_overlap(
                ns[m],
                corner_of(s, b),
            )) || exists|o: int| 0 <= o < n && o != i && ns[m] == #[trigger] spaces[o] by {
                assert(ns[m] == spaces[m]);
            }
        }
    } else if b.h == s.h || b.w == s.w {
        assert forall|m1: int, m2: int|
            0 <= m1 < m2 < ns.len() implies !rects_overlap(#[trigger] ns[m1], #[trigger] ns[m2]) by {
            if m1 == i {
                assert(!rects_overlap(spaces[i], spaces[m2]));
            } else if m2 == i {
                assert(!rects_overlap(spaces[m1], spaces[i]));
            }
        }
        assert forall|m: int| 0 <= m < ns.len() implies (rect_inside(#[trigger] ns[m], s) && !rects_overlap(
            ns[m],
            corner_of(s, b),
        )) || exists|o: int| 0 <= o < n && o != i && ns[m] == #[trigger] spaces[o] by {
            if m != i {
                assert(ns[m] == spaces[m]);
            }
        }
    } else {
        assert forall|m1: int, m2: int|
            0 <= m1 < m2 < ns.len() implies !rects_overlap(#[trigger] ns[m1], #[trigger] ns[m2]) by {
            if m1 == i && m2 < n {
                assert(!rects_overlap(spaces[i], spaces[m2]));
            } else if m2 == i {
                assert(!rects_overlap(spaces[m1], spaces[i]));
            } else if m2 == n && m1 != i {
                assert(!rects_overlap(spaces[m1], spaces[i]));
            }
        }
        assert forall|m: int| 0 <= m < ns.len() implies (rect_inside(#[trigger] ns[m], s) && !rects_overlap(
            ns[m],
            corner_of(s, b),
        )) || exists|o: int| 0 <= o < n && o != i && ns[m] == #[trigger] spaces[o] by {
            if m != i && m < n {
                assert(ns[m] == spaces[m]);
            }
        }
    }
}

proof fn lemma_pack_step(st: PackState, boxes: Seq<GlyphBox>, start_width: i32, k: int)
    requires
        boxes_packable(boxes, start_width),
        pack_inv(st, boxes, start_width, k),
        0 <= k < boxes.len(),
    ensures
        pack_inv(pack_step(st, k), boxes, start_width, k + 1),
{
    let g = st.boxes[k];
    assert(g == boxes[k]);
    let i = last_fit(st.spaces, g.bbox);
    lemma_last_fit(st.spaces, g.bbox);
    if g.bbox.w == 0 || i < 0 {
    } else {
        let s = st.spaces[i];
        let nb = corner_of(s, g.bbox);
        let nst = pack_step(st, k);
        lemma_spaces_after(st.spaces, i, g.bbox, start_width);
        assert(rect_inside(nb, s));
        assert forall|j: int| 0 <= j < boxes.len() && #[trigger] nst.placed[j] implies box_in_atlas(
            nst.boxes[j].bbox,
            nst.width,
            nst.height,
        ) by {
            if j != k {
                assert(st.placed[j]);
                assert(nst.boxes[j] == st.boxes[j]);
            }
        }
        assert forall|j: int, m: int|
            0 <= j < boxes.len() && nst.placed[j] && 0 <= m < nst.spaces.len() implies !rects_overlap(
            #[trigger] nst.boxes[j].bbox,
            #[trigger] nst.spaces[m],
        ) by {
            let sp = nst.spaces[m];
            if j == k {
                if !(rect_inside(sp, s) && !rects_overlap(sp, nb)) {
                    let o = choose|o: int| 0 <= o < st.spaces.len() && o != i && sp == #[trigger] st.spaces[o];
                    if o < i {
                        assert(!rects_overlap(st.spaces[o], st.spaces[i]));
                    } else {
                        assert(!rects_overlap(st.spaces[i], st.spaces[o]));
                    }
                }
            } else {
                assert(st.placed[j]);
                assert(nst.boxes[j] == st.boxes[j]);
                assert(!rects_overlap(st.boxes[j].bbox, s));
                if !(rect_inside(sp, s) && !rects_overlap(sp, nb)) {
                    let o = choose|o: int| 0 <= o < st.spaces.len() && o != i && sp == #[trigger] st.spaces[o];
                    assert(!rects_overlap(st.boxes[j].bbox, st.spaces[o]));
                }
            }
        }
        assert forall|a: int, b: int|
            0 <= a < boxes.len() && 0 <= b < boxes.len() && a != b && nst.placed[a] && nst.placed[b]
                implies !rects_overlap(#[trigger] nst.boxes[a].bbox, #[trigger] nst.boxes[b].bbox) by {
            if a == k {
                assert(nst.boxes[b] == st.boxes[b]);
                assert(!rects_overlap(st.boxes[b].bbox, s));
            } else if b == k {
                assert(nst.boxes[a] == st.boxes[a]);
                assert(!rects_overlap(st.boxes[a].bbox, s));
            } else {
                assert(nst.boxes[a] == st.boxes[a]);
                assert(nst.boxes[b] == st.boxes[b]);
            }
        }
        assert forall|j: int| 0 <= j < boxes.len() implies same_glyph(#[trigger] nst.boxes[j], boxes[j]) by {
            if j != k {
                assert(nst.boxes[j] == st.boxes[j]);
            }
        }
        assert forall|j: int| 0 <= j < boxes.len() && !nst.placed[j] implies #[trigger] nst.boxes[j] == boxes[j] by {
            assert(j != k);
            assert(nst.boxes[j] == st.boxes[j]);
        }
    }
}

proof fn lemma_pack_upto(boxes: Seq<GlyphBox>, start_width: i32, k: nat)
    requires
        boxes_packable(boxes, start_width),
        k <= boxes.len(),
    ensures
        pack_inv(pack_upto(boxes, start_width, k), boxes, start_width, k as int),
    decreases k,
{
    if k == 0 {
        let st = pack_start(boxes, start_width);
        assert(st.spaces.len() == 1);
    } else {
        lemma_pack_upto(boxes, start_width, (k - 1) as nat);
        lemma_pack_step(pack_upto(boxes, start_width, (k - 1) as nat), boxes, start_width, k - 1);
    }
}

/// Places the boxes, in their order, each at the top left corner of the
/// last free space of the strip it fits in; returns the width and height
/// of the atlas the placed boxes take.
pub fn place_rects(rects: &mut [GlyphBox], start_width: i32) -> (r: (u32, u32))
    requires
        boxes_packable(old(rects)@, start_width),
    ensures
        final(rects)@ == pack_result(old(rects)@, start_width).boxes,
        r.0 as int == pack_result(old(rects)@, start_width).width,
        r.1 as int == pack_result(old(rects)@, start_width).height,
{
    let ghost boxes = rects@;
    let mut spaces: Vec<RectangleI32> = Vec::new();
    spaces.push(RectangleI32::new(0, 0, start_width, i32::MAX));
    let mut width: u32 = 0;
    let mut height: u32 = 0;
    let mut k: usize = 0;
    proof {
        lemma_pack_upto(boxes, start_width, 0);
        assert(spaces@ =~= pack_start(boxes, start_width).spaces);
    }
    while k < rects.len()
        invariant
            boxes_packable(boxes, start_width),
            rects@.len() == boxes.len(),
            k <= boxes.len(),
            pack_inv(pack_upto(boxes, start_width, k as nat), boxes, start_width, k as int),
            spaces@ == pack_upto(boxes, start_width, k as nat).spaces,
            rects@ == pack_upto(boxes, start_width, k as nat).boxes,
            width as int == pack_upto(boxes, start_width, k as nat).width,
            height as int == pack_upto(boxes, start_width, k as nat).height,
        decreases boxes.len() - k,
    {
        let ghost st = pack_upto(boxes, start_width, k as nat);
        proof {
            lemma_pack_step(st, boxes, start_width, k as int);
            lemma_pack_upto(boxes, start_width, (k + 1) as nat);
            lemma_last_fit(st.spaces, st.boxes[k as int].bbox);
        }
        let g = rects[k];
        assert(g == boxes[k as int]);
        if g.bbox.w != 0 {
            match find_last_fit(&spaces, &g.bbox) {
                Some(i) => {
                    let s = spaces[i];
                    assert(space_in_strip(s, start_width));
                    rects[k] = GlyphBox::new(
                        g.font,
                        g.codepoint,
                        RectangleI32::new(s.x, s.y, g.bbox.w, g.bbox.h),
                    );
                    let right = (s.x + g.bbox.w) as u32;
                    if right > width {
                        width = right;
                    }
                    let bottom = (s.y + g.bbox.h) as u32;
                    if bottom > height {
                        height = bottom;
                    }
                    let ghost pre = spaces@;
                    if g.bbox.w == s.w && g.bbox.h == s.h {
                        let last = spaces.pop().unwrap();
                        if i < spaces.len() {
                            spaces.set(i, last);
                        }
                        proof {
                            assert(spaces@ =~= spaces_after(pre, i as int, g.bbox));
                        }
                    } else if g.bbox.h == s.h {
                        spaces.set(i, RectangleI32::new(s.x + g.bbox.w, s.y, s.w - g.bbox.w, s.h));
                    } else if g.bbox.w == s.w {
                        spaces.set(i, RectangleI32::new(s.x, s.y + g.bbox.h, s.w, s.h - g.bbox.h));
                    } else {
                        spaces.push(
                            RectangleI32::new(s.x + g.bbox.w, s.y, s.w - g.bbox.w, g.bbox.h),
                        );
                        spaces.set(i, RectangleI32::new(s.x, s.y + g.bbox.h, s.w, s.h - g.bbox.h));
                        proof {
                            assert(spaces@ =~= spaces_after(pre, i as int, g.bbox));
                        }
                    }
                },
                None => {},
            }
        }
        k = k + 1;
    }
    (width, height)
}

/// The total area of the boxes, added up in order.
pub open spec fn glyph_area(s: Seq<GlyphBox>) -> int
    decreases s.len(),
{
    if s.len() == 0 {
        0
    } else {
        glyph_area(s.drop_last()) + s.last().bbox.w * s.last().bbox.h
    }
}

/// The greatest width of the boxes, or zero when there are none.
pub open spec fn widest(s: Seq<GlyphBox>) -> int
    decreases s.len(),
{
    if s.len() == 0 {
        0
    } else {
        max_int(widest(s.drop_last()), s.last().bbox.w as int)
    }
}

/// The total height of the boxes.
pub open spec fn heights_sum(s: Seq<GlyphBox>) -> int
    decreases s.len(),
{
    if s.len() == 0 {
        0
    } else {
        heights_sum(s.drop_last()) + s.last().bbox.h
    }
}

proof fn lemma_area_prefix(s: Seq<GlyphBox>, j: int)
    requires
        sizes_nonneg(s),
        0 <= j <= s.len(),
    ensures
        0 <= glyph_area(s.take(j)) <= glyph_area(s),
    decreases s.len(),
{
    if s.len() > 0 {
        let d = s.drop_last();
        let w = s.last().bbox.w;
        let h = s.last().bbox.h;
        assert(0 <= w && 0 <= h);
        assert(w * h >= 0) by (nonlinear_arith)
            requires
                0 <= w,
                0 <= h,
        ;
        assert(sizes_nonneg(d)) by {
            assert forall|i: int| 0 <= i < d.len() implies 0 <= (#[trigger] d[i]).bbox.w && 0 <= d[i].bbox.h by {
                assert(d[i] == s[i]);
            }
        }
        if j == s.len() {
            assert(s.take(j) =~= s);
            lemma_area_prefix(d, d.len() as int);
            assert(d.take(d.len() as int) =~= d);
        } else {
            assert(s.take(j) =~= d.take(j));
            lemma_area_prefix(d, j);
        }
    } else {
        assert(s.take(j) =~= s);
    }
}

proof fn lemma_heights_prefix(s: Seq<GlyphBox>, j: int)
    requires
        sizes_nonneg(s),
        0 <= j <= s.len(),
    ensures
        0 <= heights_sum(s.take(j)) <= heights_sum(s),
    decreases s.len(),
{
    if s.len() > 0 {
        let d = s.drop_last();
        assert(sizes_nonneg(d)) by {
            assert forall|i: int| 0 <= i < d.len() implies 0 <= (#[trigger] d[i]).bbox.w && 0 <= d[i].bbox.h by {
                assert(d[i] == s[i]);
            }
        }
        assert(0 <= s.last().bbox.h);
        if j == s.len() {
            assert(s.take(j) =~= s);
            lemma_heights_prefix(d, d.len() as int);
            assert(d.take(d.len() as int) =~= d);
        } else {
            assert(s.take(j) =~= d.take(j));
            lemma_heights_prefix(d, j);
        }
    } else {
        assert(s.take(j) =~= s);
    }
}

/// The total area of the boxes and the greatest width among them.
pub fn atlas_area_and_width(rects: &[GlyphBox]) -> (r: (i32, i32))
    requires
        sizes_nonneg(rects@),
        glyph_area(rects@) <= i32::MAX,
    ensures
        r.0 as int == glyph_area(rects@),
        r.1 as int == widest(rects@),
{
    let ghost s = rects@;
    let mut area: i32 = 0;
    let mut max_width: i32 = 0;
    let mut i: usize = 0;
    while i < rects.len()
        invariant
            s == rects@,
            sizes_nonneg(s),
            glyph_area(s) <= i32::MAX,
            i <= s.len(),
            area as int == glyph_area(s.take(i as int)),
            max_width as int == widest(s.take(i as int)),
        decreases s.len() - i,
    {
        let b = rects[i].bbox;
        proof {
            assert(s.take(i + 1).drop_last() =~= s.take(i as int));
            assert(s.take(i + 1).last() == s[i as int]);
            lemma_area_prefix(s, i as int);
            lemma_area_prefix(s, i + 1);
        }
        area = area + b.w * b.h;
        if b.w > max_width {
            max_width = b.w;
        }
        i = i + 1;
    }
    assert(s.take(s.len() as int) =~= s);
    (area, max_width)
}

proof fn lemma_packable_perm(a: Seq<GlyphBox>, b: Seq<GlyphBox>, start_width: i32)
    requires
        boxes_packable(a, start_width),
        a.to_multiset() == b.to_multiset(),
    ensures
        boxes_packable(b, start_width),
{
    assert forall|j: int| 0 <= j < b.len() implies 0 <= (#[trigger] b[j]).bbox.w && 0 <= b[j].bbox.h by {
        assert(b.contains(b[j]));
        assert(b.to_multiset().count(b[j]) > 0);
        assert(a.contains(b[j]));
        let i = choose|i: int| 0 <= i < a.len() && a[i] == b[j];
        assert(0 <= a[i].bbox.w);
    }
}

/// Packs the glyph boxes into a rectangular atlas: sorts them by height,
/// tallest first, then places each at the top left corner of the last free
/// space of a strip of the given width it fits in. Returns the width and
/// height of the atlas.
pub fn pack_rects(rects: &mut [GlyphBox], start_width: i32) -> (r: (u32, u32))
    requires
        boxes_packable(old(rects)@, start_width),
    ensures
        exists|sorted: Seq<GlyphBox>|
            sorted.to_multiset() == old(rects)@.to_multiset() && sorted_by_height(sorted) && final(rects)@
                == pack_result(sorted, start_width).boxes && r.0 as int == pack_result(
                sorted,
                start_width,
            ).width && r.1 as int == pack_result(sorted, start_width).height,
{
    sort_by_height(rects);
    let ghost sorted = rects@;
    proof {
        lemma_packable_perm(old(rects)@, sorted, start_width);
    }
    let r = place_rects(rects, start_width);
    assert(sorted.to_multiset() == old(rects)@.to_multiset() && sorted_by_height(sorted) && rects@
        == pack_result(sorted, start_width).boxes && r.0 as int == pack_result(sorted, start_width).width
        && r.1 as int == pack_result(sorted, start_width).height);
    r
}

/// Packing keeps every glyph and its size; a box it does not place stays as
/// it was; every placed box is not empty across and lies in the atlas,
/// which is no wider than the strip; and no two placed boxes overlap.
pub proof fn lemma_packed_boxes_disjoint(boxes: Seq<GlyphBox>, start_width: i32)
    requires
        boxes_packable(boxes, start_width),
    ensures
        pack_result(boxes, start_width).boxes.len() == boxes.len(),
        pack_result(boxes, start_width).placed.len() == boxes.len(),
        pack_result(boxes, start_width).width <= start_width,
        forall|j: int|
            0 <= j < boxes.len() ==> same_glyph(#[trigger] pack_result(boxes, start_width).boxes[j], boxes[j]),
        forall|j: int|
            0 <= j < boxes.len() && !pack_result(boxes, start_width).placed[j] ==> #[trigger] pack_result(
                boxes,
                start_width,
            ).boxes[j] == boxes[j],
        forall|j: int|
            0 <= j < boxes.len() && #[trigger] pack_result(boxes, start_width).placed[j] ==> box_in_atlas(
                pack_result(boxes, start_width).boxes[j].bbox,
                pack_result(boxes, start_width).width,
                pack_result(boxes, start_width).height,
            ),
        forall|a: int, b: int|
            0 <= a < boxes.len() && 0 <= b < boxes.len() && a != b && pack_result(boxes, start_width).placed[a]
                && pack_result(boxes, start_width).placed[b] ==> !rects_overlap(
                #[trigger] pack_result(boxes, start_width).boxes[a].bbox,
                #[trigger] pack_result(boxes, start_width).boxes[b].bbox,
            ),
{
    lemma_pack_upto(boxes, start_width, boxes.len());
}

/// A free space that spans the strip's width and reaches its bottom, and
/// starts no lower than `bound`.
pub open spec fn has_full_row(st: PackState, start_width: i32, bound: int) -> bool {
    exists|f: int|
        0 <= f < st.spaces.len() && (#[trigger] st.spaces[f]).x == 0 && st.spaces[f].w == start_width
            && st.spaces[f].y + st.spaces[f].h == i32::MAX && st.spaces[f].y <= bound
}

proof fn lemma_full_row_step(st: PackState, boxes: Seq<GlyphBox>, start_width: i32, k: int)
    requires
        boxes_packable(boxes, start_width),
        pack_inv(st, boxes, start_width, k),
        0 <= k < boxes.len(),
        forall|j: int| 0 <= j < boxes.len() ==> (#[trigger] boxes[j]).bbox.w <= start_width,
        heights_sum(boxes) < i32::MAX,
        has_full_row(st, start_width, heights_sum(boxes.take(k))),
    ensures
        has_full_row(pack_step(st, k), start_width, heights_sum(boxes.take(k + 1))),
        boxes[k].bbox.w > 0 ==> pack_step(st, k).placed[k],
{
    let g = st.boxes[k];
    assert(g == boxes[k]);
    let b = g.bbox;
    let f = choose|f: int|
        0 <= f < st.spaces.len() && (#[trigger] st.spaces[f]).x == 0 && st.spaces[f].w == start_width
            && st.spaces[f].y + st.spaces[f].h == i32::MAX && st.spaces[f].y <= heights_sum(boxes.take(k));
    let sf = st.spaces[f];
    assert(boxes.take(k + 1).drop_last() =~= boxes.take(k));
    assert(boxes.take(k + 1).last() == boxes[k]);
    lemma_heights_prefix(boxes, k + 1);
    assert(b.h < sf.h);
    assert(box_fits(b, sf));
    lemma_last_fit(st.spaces, b);
    let i = last_fit(st.spaces, b);
    let nst = pack_step(st, k);
    let bound = heights_sum(boxes.take(k + 1));
    if b.w == 0 {
        assert(nst.spaces[f] == sf);
    } else {
        assert(i >= 0);
        let ns = nst.spaces;
        let s = st.spaces[i];
        let n = st.spaces.len();
        if i == f {
            assert(ns[f].x == 0 && ns[f].w == start_width && ns[f].y + ns[f].h == i32::MAX && ns[f].y <= bound);
        } else if b.w == s.w && b.h == s.h {
            if f < n - 1 {
                assert(ns[f] == sf);
            } else {
                assert(ns[i] == sf);
            }
        } else {
            assert(ns[f] == sf);
        }
    }
}

proof fn lemma_full_row_upto(boxes: Seq<GlyphBox>, start_width: i32, k: nat)
    requires
        boxes_packable(boxes, start_width),
        k <= boxes.len(),
        forall|j: int| 0 <= j < boxes.len() ==> (#[trigger] boxes[j]).bbox.w <= start_width,
        heights_sum(boxes) < i32::MAX,
    ensures
        has_full_row(pack_upto(boxes, start_width, k), start_width, heights_sum(boxes.take(k as int))),
        forall|j: int|
            0 <= j < k && (#[trigger] boxes[j]).bbox.w > 0 ==> pack_upto(boxes, start_width, k).placed[j],
    decreases k,
{
    lemma_pack_upto(boxes, start_width, k);
    if k == 0 {
        let st = pack_start(boxes, start_width);
        assert(boxes.take(0) =~= Seq::<GlyphBox>::empty());
        assert(st.spaces[0].x == 0);
    } else {
        let pk = (k - 1) as nat;
        lemma_full_row_upto(boxes, start_width, pk);
        lemma_pack_upto(boxes, start_width, pk);
        lemma_full_row_step(pack_upto(boxes, start_width, pk), boxes, start_width, k - 1);
        let st = pack_upto(boxes, start_width, pk);
        let nst = pack_upto(boxes, start_width, k);
        assert forall|j: int| 0 <= j < k && (#[trigger] boxes[j]).bbox.w > 0 implies nst.placed[j] by {
            if j < k - 1 {
                assert(st.placed[j]);
            }
        }
    }
}

/// When every box is at most as wide as the strip and their heights add up
/// to less than the greatest `i32`, packing places every box that is not
/// empty across.
pub proof fn lemma_packing_places_all(boxes: Seq<GlyphBox>, start_width: i32)
    requires
        boxes_packable(boxes, start_width),
        forall|j: int| 0 <= j < boxes.len() ==> (#[trigger] boxes[j]).bbox.w <= start_width,
        heights_sum(boxes) < i32::MAX,
    ensures
        forall|j: int|
            0 <= j < boxes.len() ==> (#[trigger] pack_result(boxes, start_width).placed[j] <==> boxes[j].bbox.w
                > 0),
{
    lemma_full_row_upto(boxes, start_width, boxes.len());
    lemma_pack_upto(boxes, start_width, boxes.len());
}

/// The atlas pixel at `p` once the glyph's pixels, row after row, were
/// copied into the box `b` of an atlas `atlas_width` pixels wide.
pub open spec fn blit_pixel(atlas: Seq<RGBAColor>, atlas_width: int, b: RectangleI32, px: Seq<RGBAColor>, p: int) -> RGBAColor {
    let row = p / atlas_width;
    let col = p % atlas_width;
    if b.y <= row < b.y + b.h && b.x <= col < b.x + b.w {
        px[(row - b.y) * b.w + (col - b.x)]
    } else {
        atlas[p]
    }
}

/// The atlas once the glyph's pixels were copied into the box `b`.
pub open spec fn blit(atlas: Seq<RGBAColor>, atlas_width: int, b: RectangleI32, px: Seq<RGBAColor>) -> Seq<RGBAColor> {
    Seq::new(atlas.len(), |p: int| blit_pixel(atlas, atlas_width, b, px, p))
}

/// The box `b` lies in an atlas of `atlas_len` pixels, `atlas_width` wide,
/// and the glyph has a pixel for each of its points; a box empty across
/// copies nothing and may be anywhere.
pub open spec fn blit_fits(atlas_len: int, atlas_width: int, b: RectangleI32, px_len: int) -> bool {
    &&& 0 < atlas_width
    &&& atlas_len <= u32::MAX
    &&& 0 <= b.w
    &&& 0 <= b.h
    &&& b.x + b.w <= i32::MAX
    &&& b.y + b.h <= i32::MAX
    &&& b.w > 0 ==> {
        &&& 0 <= b.x
        &&& b.x + b.w <= atlas_width
        &&& 0 <= b.y
        &&& (b.y + b.h) * atlas_width <= atlas_len
        &&& b.w * b.h <= px_len
    }
}

proof fn lemma_blit_index(y: int, x: int, by: int, bx: int, bw: int, bh: int, w: int)
    requires
        0 <= bx <= x < bx + bw <= w,
        0 <= by <= y < by + bh,
    ensures
        0 <= y * w + x < (by + bh) * w,
        0 <= (y - by) * bw + (x - bx) < bw * bh,
        bw * bh <= (by + bh) * w,
        (y * w + x) / w == y,
        (y * w + x) % w == x,
        w * y == y * w,
{
    assert(0 <= y * w) by (nonlinear_arith)
        requires
            0 <= y,
            0 <= w,
    ;
    assert((y + 1) * w == y * w + w) by (nonlinear_arith);
    assert((y + 1) * w <= (by + bh) * w) by (nonlinear_arith)
        requires
            y + 1 <= by + bh,
            0 <= w,
    ;
    assert(0 <= (y - by) * bw) by (nonlinear_arith)
        requires
            0 <= y - by,
            0 <= bw,
    ;
    assert((y - by + 1) * bw == (y - by) * bw + bw) by (nonlinear_arith);
    assert((y - by + 1) * bw <= bh * bw) by (nonlinear_arith)
        requires
            y - by + 1 <= bh,
            0 <= bw,
    ;
    assert(bh * bw == bw * bh) by (nonlinear_arith);
    assert(bw * bh <= bh * w) by (nonlinear_arith)
        requires
            bw <= w,
            0 <= bh,
    ;
    assert(bh * w <= (by + bh) * w) by (nonlinear_arith)
        requires
            0 <= by,
            0 <= w,
    ;
    assert(w * y == y * w) by (nonlinear_arith);
    vstd::arithmetic::div_mod::lemma_fundamental_div_mod_converse(y * w + x, w, y, x);
}

/// Copies the glyph's pixels, row after row, into the box `bbox` of the
/// atlas, which is `atlas_width` pixels wide.
pub fn copy_glyph_pixels(atlas: &mut Vec<RGBAColor>, atlas_width: u32, bbox: RectangleI32, pixels: &[RGBAColor])
    requires
        blit_fits(old(atlas)@.len() as int, atlas_width as int, bbox, pixels@.len() as int),
    ensures
        final(atlas)@ == blit(old(atlas)@, atlas_width as int, bbox, pixels@),
{
    let ghost a0 = atlas@;
    let ghost w = atlas_width as int;
    if bbox.w == 0 {
        assert(atlas@ =~= blit(a0, w, bbox, pixels@));
        return;
    }
    let mut src_idx: u32 = 0;
    let mut y: i32 = bbox.y;
    let bottom = bbox.y + bbox.h;
    let right = bbox.x + bbox.w;
    while y < bottom
        invariant
            blit_fits(a0.len() as int, w, bbox, pixels@.len() as int),
            bbox.w > 0,
            w == atlas_width,
            bottom == bbox.y + bbox.h,
            right == bbox.x + bbox.w,
            bbox.y <= y <= bottom,
            atlas@.len() == a0.len(),
            src_idx == (y - bbox.y) * bbox.w,
            forall|p: int|
                0 <= p < a0.len() ==> #[trigger] atlas@[p] == if bbox.x <= p % w < right && bbox.y <= p / w < y {
                    pixels@[(p / w - bbox.y) * bbox.w + (p % w - bbox.x)]
                } else {
                    a0[p]
                },
        decreases bottom - y,
    {
        let mut x: i32 = bbox.x;
        while x < right
            invariant
                blit_fits(a0.len() as int, w, bbox, pixels@.len() as int),
                bbox.w > 0,
                w == atlas_width,
                bottom == bbox.y + bbox.h,
                right == bbox.x + bbox.w,
                bbox.y <= y < bottom,
                bbox.x <= x <= right,
                atlas@.len() == a0.len(),
                src_idx == (y - bbox.y) * bbox.w + (x - bbox.x),
                forall|p: int|
                    0 <= p < a0.len() ==> #[trigger] atlas@[p] == if bbox.x <= p % w < right && (bbox.y
                        <= p / w < y || (p / w == y && p % w < x)) {
                        pixels@[(p / w - bbox.y) * bbox.w + (p % w - bbox.x)]
                    } else {
                        a0[p]
                    },
            decreases right - x,
        {
            proof {
                lemma_blit_index(y as int, x as int, bbox.y as int, bbox.x as int, bbox.w as int, bbox.h as int, w);
            }
            let dst = y as u32 * atlas_width + x as u32;
            let ghost pre = atlas@;
            atlas.set(dst as usize, pixels[src_idx as usize]);
            proof {
                assert forall|p: int| 0 <= p < a0.len() implies #[trigger] atlas@[p] == if bbox.x <= p % w < right
                    && (bbox.y <= p / w < y || (p / w == y && p % w < x + 1)) {
                    pixels@[(p / w - bbox.y) * bbox.w + (p % w - bbox.x)]
                } else {
                    a0[p]
                } by {
                    if p != dst {
                        vstd::arithmetic::div_mod::lemma_fundamental_div_mod(p, w);
                        assert(pre[p] == atlas@[p]);
                        if p / w == y && p % w == x {
                            assert(p == w * y + x);
                            assert(false);
                        }
                    }
                }
            }
            src_idx = src_idx + 1;
            x = x + 1;
        }
        proof {
            assert((y - bbox.y) * bbox.w + bbox.w == (y + 1 - bbox.y) * bbox.w) by (nonlinear_arith);
        }
        y = y + 1;
    }
    assert(atlas@ =~= blit(a0, w, bbox, pixels@));
}

/// The atlas, `width` by `height`, once the pixels of the first `k` glyphs
/// were copied, in order, over a transparent one.
pub open spec fn atlas_upto(width: u32, height: u32, boxes: Seq<GlyphBox>, pixels: Seq<Vec<RGBAColor>>, k: nat) -> Seq<RGBAColor>
    decreases k,
{
    if k == 0 {
        Seq::new((width * height) as nat, |p: int| transparent_pixel())
    } else {
        blit(atlas_upto(width, height, boxes, pixels, (k - 1) as nat), width as int, boxes[k - 1].bbox, pixels[k - 1]@)
    }
}

/// Every glyph's box lies in the atlas, `width` by `height`, and the glyph
/// has a pixel for each point of its box.
pub open spec fn glyphs_fit_atlas(width: u32, height: u32, boxes: Seq<GlyphBox>, pixels: Seq<Vec<RGBAColor>>) -> bool {
    &&& 0 < width
    &&& width * height <= u32::MAX
    &&& boxes.len() == pixels.len()
    &&& forall|i: int|
        0 <= i < boxes.len() ==> blit_fits(
            width * height,
            width as int,
            (#[trigger] boxes[i]).bbox,
            pixels[i]@.len() as int,
        )
}

proof fn lemma_atlas_upto_len(width: u32, height: u32, boxes: Seq<GlyphBox>, pixels: Seq<Vec<RGBAColor>>, k: nat)
    ensures
        atlas_upto(width, height, boxes, pixels, k).len() == width * height,
    decreases k,
{
    if k > 0 {
        lemma_atlas_upto_len(width, height, boxes, pixels, (k - 1) as nat);
    }
}

/// The atlas texture, `width` by `height`: transparent, with each glyph's
/// pixels copied, row after row, into its box.
pub fn build_atlas_pixels(width: u32, height: u32, boxes: &[GlyphBox], pixels: &[Vec<RGBAColor>]) -> (r: Vec<RGBAColor>)
    requires
        glyphs_fit_atlas(width, height, boxes@, pixels@),
    ensures
        r@ == atlas_upto(width, height, boxes@, pixels@, boxes@.len()),
{
    let n = width * height;
    let mut atlas: Vec<RGBAColor> = Vec::with_capacity(n as usize);
    let ghost blank = Seq::new(n as nat, |p: int| transparent_pixel());
    let mut p: u32 = 0;
    while p < n
        invariant
            p <= n,
            blank == Seq::new(n as nat, |q: int| transparent_pixel()),
            atlas@ == blank.take(p as int),
        decreases n - p,
    {
        atlas.push(RGBAColor::new_with_alpha(0, 0, 0, 0));
        assert(blank.take(p + 1) =~= blank.take(p as int).push(blank[p as int]));
        p = p + 1;
    }
    assert(blank.take(n as int) =~= blank);
    let mut k: usize = 0;
    while k < boxes.len()
        invariant
            glyphs_fit_atlas(width, height, boxes@, pixels@),
            n == width * height,
            k <= boxes.len(),
            atlas@ == atlas_upto(width, height, boxes@, pixels@, k as nat),
        decreases boxes.len() - k,
    {
        proof {
            lemma_atlas_upto_len(width, height, boxes@, pixels@, k as nat);
            assert(blit_fits(n as int, width as int, boxes@[k as int].bbox, pixels@[k as int]@.len() as int));
        }
        copy_glyph_pixels(&mut atlas, width, boxes[k].bbox, pixels[k].as_slice());
        k = k + 1;
    }
    atlas
}

/// The atlas pixel in row `r` and column `c`.
pub open spec fn atlas_at(atlas: Seq<RGBAColor>, width: int, r: int, c: int) -> RGBAColor {
    atlas[r * width + c]
}

/// The glyph's pixels are in the atlas, row after row, in its box.
pub open spec fn glyph_in_atlas(atlas: Seq<RGBAColor>, width: int, b: RectangleI32, px: Seq<RGBAColor>) -> bool {
    forall|r: int, c: int|
        b.y <= r < b.y + b.h && b.x <= c < b.x + b.w ==> #[trigger] atlas_at(atlas, width, r, c) == px[(r - b.y)
            * b.w + (c - b.x)]
}

proof fn lemma_blit_keeps_other_glyph(
    atlas: Seq<RGBAColor>,
    width: u32,
    height: u32,
    b: RectangleI32,
    px: Seq<RGBAColor>,
    other: RectangleI32,
    opx: Seq<RGBAColor>,
)
    requires
        atlas.len() == width * height,
        blit_fits(width * height, width as int, b, px.len() as int),
        blit_fits(width * height, width as int, other, opx.len() as int),
        other.w > 0,
        !rects_overlap(b, other),
        glyph_in_atlas(atlas, width as int, other, opx),
    ensures
        glyph_in_atlas(blit(atlas, width as int, b, px), width as int, other, opx),
{
    let w = width as int;
    let na = blit(atlas, w, b, px);
    assert forall|r: int, c: int|
        other.y <= r < other.y + other.h && other.x <= c < other.x + other.w implies #[trigger] atlas_at(na, w, r, c)
        == opx[(r - other.y) * other.w + (c - other.x)] by {
        lemma_blit_index(r, c, other.y as int, other.x as int, other.w as int, other.h as int, w);
        assert(atlas_at(atlas, w, r, c) == opx[(r - other.y) * other.w + (c - other.x)]);
    }
}

proof fn lemma_blit_places_glyph(atlas: Seq<RGBAColor>, width: u32, height: u32, b: RectangleI32, px: Seq<RGBAColor>)
    requires
        atlas.len() == width * height,
        blit_fits(width * height, width as int, b, px.len() as int),
        b.w > 0,
    ensures
        glyph_in_atlas(blit(atlas, width as int, b, px), width as int, b, px),
{
    let w = width as int;
    let na = blit(atlas, w, b, px);
    assert forall|r: int, c: int| b.y <= r < b.y + b.h && b.x <= c < b.x + b.w implies #[trigger] atlas_at(na, w, r, c)
        == px[(r - b.y) * b.w + (c - b.x)] by {
        lemma_blit_index(r, c, b.y as int, b.x as int, b.w as int, b.h as int, w);
    }
}

proof fn lemma_atlas_upto_holds(width: u32, height: u32, boxes: Seq<GlyphBox>, pixels: Seq<Vec<RGBAColor>>, k: nat)
    requires
        glyphs_fit_atlas(width, height, boxes, pixels),
        k <= boxes.len(),
        forall|i: int, j: int|
            0 <= i < boxes.len() && 0 <= j < boxes.len() && i != j && boxes[i].bbox.w > 0 && boxes[j].bbox.w > 0
                ==> !rects_overlap(#[trigger] boxes[i].bbox, #[trigger] boxes[j].bbox),
    ensures
        forall|i: int|
            0 <= i < k && (#[trigger] boxes[i]).bbox.w > 0 ==> glyph_in_atlas(
                atlas_upto(width, height, boxes, pixels, k),
                width as int,
                boxes[i].bbox,
                pixels[i]@,
            ),
    decreases k,
{
    if k > 0 {
        let pk = (k - 1) as nat;
        lemma_atlas_upto_holds(width, height, boxes, pixels, pk);
        lemma_atlas_upto_len(width, height, boxes, pixels, pk);
        let prev = atlas_upto(width, height, boxes, pixels, pk);
        let b = boxes[k - 1];
        assert(blit_fits(width * height, width as int, b.bbox, pixels[k - 1]@.len() as int));
        assert forall|i: int| 0 <= i < k && (#[trigger] boxes[i]).bbox.w > 0 implies glyph_in_atlas(
            atlas_upto(width, height, boxes, pixels, k),
            width as int,
            boxes[i].bbox,
            pixels[i]@,
        ) by {
            assert(blit_fits(width * height, width as int, boxes[i].bbox, pixels[i]@.len() as int));
            if i == k - 1 {
                lemma_blit_places_glyph(prev, width, height, b.bbox, pixels[k - 1]@);
            } else if b.bbox.w == 0 {
                assert(blit(prev, width as int, b.bbox, pixels[k - 1]@) =~= prev);
            } else {
                lemma_blit_keeps_other_glyph(prev, width, height, b.bbox, pixels[k - 1]@, boxes[i].bbox, pixels[i]@);
            }
        }
    }
}

/// When the glyph boxes that are not empty across do not overlap, the
/// atlas holds every such glyph's pixels, row after row, in its box.
pub proof fn lemma_atlas_holds_every_glyph(width: u32, height: u32, boxes: Seq<GlyphBox>, pixels: Seq<Vec<RGBAColor>>)
    requires
        glyphs_fit_atlas(width, height, boxes, pixels),
        forall|i: int, j: int|
            0 <= i < boxes.len() && 0 <= j < boxes.len() && i != j && boxes[i].bbox.w > 0 && boxes[j].bbox.w > 0
                ==> !rects_overlap(#[trigger] boxes[i].bbox, #[trigger] boxes[j].bbox),
    ensures
        forall|i: int|
            0 <= i < boxes.len() && (#[trigger] boxes[i]).bbox.w > 0 ==> glyph_in_atlas(
                atlas_upto(width, height, boxes, pixels, boxes.len()),
                width as int,
                boxes[i].bbox,
                pixels[i]@,
            ),
{
    lemma_atlas_upto_holds(width, height, boxes, pixels, boxes.len());
}

} // verus!
