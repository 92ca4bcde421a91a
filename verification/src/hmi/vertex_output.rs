use vstd::prelude::*;

verus! {

pub type DrawIndexType = u16;

/// Whether a stroked path is closed.
#[derive(Copy, Clone, Debug, PartialEq, Eq)]
pub enum DrawListStroke {
    Open,
    Closed,
}

/// The number of segments drawn for a path of `point_count` points: an open
/// path has one fewer than a closed one.
pub open spec fn spec_segment_count(point_count: nat, path_type: DrawListStroke) -> nat {
    if path_type == DrawListStroke::Open {
        (point_count - 1) as nat
    } else {
        point_count
    }
}

/// The points that segment `i` joins: `i` and the next point, the last point
/// joining back to the first.
pub open spec fn spec_segment_ends(point_count: nat, i: nat) -> (nat, nat) {
    (i, if i + 1 == point_count { 0 } else { i + 1 })
}

/// How many segments a path of `point_count` points has, where it has at
/// least two points.
pub fn segment_count(point_count: usize, path_type: DrawListStroke) -> (n: usize)
    requires
        point_count >= 2,
    ensures
        n == spec_segment_count(point_count as nat, path_type),
{
    match path_type {
        DrawListStroke::Open => point_count - 1,
        DrawListStroke::Closed => point_count,
    }
}

/// The points that segment `i` of a path of `point_count` points joins.
pub fn segment_ends(point_count: usize, i: usize) -> (e: (usize, usize))
    requires
        i < point_count,
    ensures
        e.0 == spec_segment_ends(point_count as nat, i as nat).0,
        e.1 == spec_segment_ends(point_count as nat, i as nat).1,
{
    let i2 = if i + 1 == point_count { 0 } else { i + 1 };
    (i, i2)
}

/// The vertex number `v` as an index: its low 16 bits.
pub open spec fn as_index(v: int) -> DrawIndexType {
    v as u16
}

/// The corner, among the quad's four, that entry `k` of its six indices
/// names: triangles `(0, 1, 2)` and `(0, 2, 3)`.
pub open spec fn quad_corner(k: int) -> int {
    if k == 0 || k == 3 {
        0
    } else if k == 1 {
        1
    } else if k == 2 || k == 4 {
        2
    } else {
        3
    }
}

/// The six indices of the two triangles of a quad whose corners are the
/// vertices `first` to `first + 3`.
pub open spec fn quad_indices(first: int) -> Seq<DrawIndexType> {
    Seq::new(6, |k: int| as_index(first + quad_corner(k)))
}

/// The indices of the quads of `segments` stroked segments, whose corners
/// are four vertices each from vertex `first` on.
pub open spec fn stroke_indices(first: int, segments: nat) -> Seq<DrawIndexType> {
    Seq::new(6 * segments, |k: int| as_index(first + 4 * (k / 6) + quad_corner(k % 6)))
}

/// The indices of the triangle fan over `point_count` vertices from vertex
/// `first` on: triangle `t` is `(first, first + t + 1, first + t + 2)`.
pub open spec fn fan_indices(first: int, point_count: nat) -> Seq<DrawIndexType> {
    let triangles: nat = if point_count >= 2 { (point_count - 2) as nat } else { 0 };
    Seq::new(
        3 * triangles,
        |k: int|
            as_index(
                first + if k % 3 == 0 {
                    0
                } else {
                    k / 3 + k % 3
                },
            ),
    )
}

/// Appends the indices of the quad whose corners are the vertices `first`
/// to `first + 3`.
pub fn push_quad_indices(indices: &mut Vec<DrawIndexType>, first: usize)
    requires
        first + 3 <= usize::MAX,
    ensures
        final(indices)@ == old(indices)@ + quad_indices(first as int),
{
    let ghost start = indices@;
    indices.push((first + 0) as DrawIndexType);
    indices.push((first + 1) as DrawIndexType);
    indices.push((first + 2) as DrawIndexType);
    indices.push((first + 0) as DrawIndexType);
    indices.push((first + 2) as DrawIndexType);
    indices.push((first + 3) as DrawIndexType);
    assert(indices@ =~= start + quad_indices(first as int));
}

/// Appends the indices of `segments` stroked segments, each a quad of four
/// vertices, the first of them vertex `first`.
pub fn push_stroke_indices(indices: &mut Vec<DrawIndexType>, first: usize, segments: usize)
    requires
        first + 4 * segments <= usize::MAX,
    ensures
        final(indices)@ == old(indices)@ + stroke_indices(first as int, segments as nat),
{
    let ghost start = indices@;
    let mut s: usize = 0;
    let mut base: usize = first;
    while s < segments
        invariant
            s <= segments,
            base == first + 4 * s,
            first + 4 * segments <= usize::MAX,
            indices@ =~= start + stroke_indices(first as int, s as nat),
        decreases segments - s,
    {
        let ghost before = indices@;
        push_quad_indices(indices, base);
        proof {
            let next = stroke_indices(first as int, (s + 1) as nat);
            let cur = stroke_indices(first as int, s as nat);
            assert forall|k: int| 0 <= k < next.len() implies #[trigger] next[k] == (cur
                + quad_indices(base as int))[k] by {
                if k < 6 * s {
                    assert(next[k] == cur[k]);
                } else {
                    let j = k - 6 * s;
                    assert(k / 6 == s) by (nonlinear_arith)
                        requires
                            k == 6 * s + j,
                            0 <= j < 6,
                    ;
                    assert(k % 6 == j) by (nonlinear_arith)
                        requires
                            k == 6 * s + j,
                            0 <= j < 6,
                    ;
                }
            }
            assert(next =~= cur + quad_indices(base as int));
        }
        s = s + 1;
        base = base + 4;
    }
}

/// Appends the indices of the triangle fan over the `point_count` vertices
/// from vertex `first` on; fewer than three points give no triangle.
pub fn push_fan_indices(indices: &mut Vec<DrawIndexType>, first: usize, point_count: usize)
    requires
        first + point_count <= usize::MAX,
    ensures
        final(indices)@ == old(indices)@ + fan_indices(first as int, point_count as nat),
{
    let ghost start = indices@;
    let mut offset: usize = 2;
    while offset < point_count
        invariant
            2 <= offset,
            offset <= point_count || point_count < 2,
            point_count < 2 ==> offset == 2,
            first + point_count <= usize::MAX,
            indices@ =~= start + fan_indices(first as int, offset as nat),
        decreases point_count - offset,
    {
        let ghost cur = fan_indices(first as int, offset as nat);
        indices.push(first as DrawIndexType);
        indices.push((first + offset - 1) as DrawIndexType);
        indices.push((first + offset) as DrawIndexType);
        proof {
            let next = fan_indices(first as int, (offset + 1) as nat);
            let t = offset - 2;
            assert forall|k: int| 0 <= k < next.len() implies #[trigger] next[k] == indices@[
                start.len() + k] by {
                if k < 3 * t {
                    assert(next[k] == cur[k]);
                } else {
                    let j = k - 3 * t;
                    assert(k / 3 == t) by (nonlinear_arith)
                        requires
                            k == 3 * t + j,
                            0 <= j < 3,
                    ;
                    assert(k % 3 == j) by (nonlinear_arith)
                        requires
                            k == 3 * t + j,
                            0 <= j < 3,
                    ;
                }
            }
            assert(indices@ =~= start + next);
        }
        offset = offset + 1;
    }
    proof {
        if point_count < 2 {
            assert(fan_indices(first as int, point_count as nat) =~= fan_indices(first as int, 2));
        }
    }
}

} // verus!
