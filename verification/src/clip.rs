//! Sutherland–Hodgman clipping of a convex polygon against one half-space.
//!
//! A polygon is a cyclic sequence of vertices. Clipping against a plane walks
//! the edges (previous vertex, current vertex) in order; wherever the edge
//! crosses the plane a cut vertex is emitted, and every vertex inside the
//! plane is kept. The caller supplies, for each vertex, its inside/outside
//! classification for the plane at hand, and, for each edge, the intersection
//! vertex to emit should that edge cross the plane; the functions here do the
//! emission, in traversal order, so that the winding of the polygon is kept.

use vstd::prelude::*;

verus! {

/// Hard cap on the clip polygon size: 3 triangle vertices plus at most one
/// new vertex per frustum plane, 7 planes in all.
pub const MAX_VERTICES: usize = 10;

/// The seven half-spaces a clip-space triangle is clipped against: positive
/// w first, then the six faces of the canonical view volume relative to w.
#[derive(Clone, Copy, Debug, PartialEq, Eq, Structural)]
pub enum Plane {
    PositiveW,
    PositiveX,
    NegativeX,
    PositiveY,
    NegativeY,
    PositiveZ,
    NegativeZ,
}

/// Index of the predecessor of vertex `i` on a cyclic polygon of `n` vertices.
pub open spec fn prev_index(n: int, i: int) -> int {
    if i == 0 {
        n - 1
    } else {
        i - 1
    }
}

/// True iff the edge ending at vertex `i` crosses the plane, i.e. its two
/// endpoints are classified differently.
pub open spec fn edge_crosses(flags: Seq<bool>, i: int) -> bool {
    flags[prev_index(flags.len() as int, i)] != flags[i]
}

/// What the edge ending at vertex `i` contributes to the output: the cut
/// vertex if the edge crosses the plane, then vertex `i` itself if it is
/// inside.
pub open spec fn edge_output<A>(poly: Seq<A>, flags: Seq<bool>, cuts: Seq<A>, i: int) -> Seq<A> {
    let cut = if edge_crosses(flags, i) {
        seq![cuts[i]]
    } else {
        Seq::<A>::empty()
    };
    let keep = if flags[i] {
        seq![poly[i]]
    } else {
        Seq::<A>::empty()
    };
    cut + keep
}

/// Output of clipping restricted to the first `k` edges.
pub open spec fn clip_prefix<A>(poly: Seq<A>, flags: Seq<bool>, cuts: Seq<A>, k: int) -> Seq<A>
    decreases k,
{
    if k <= 0 {
        Seq::<A>::empty()
    } else {
        clip_prefix(poly, flags, cuts, k - 1) + edge_output(poly, flags, cuts, k - 1)
    }
}

/// The polygon that clipping `poly` against one plane produces, given the
/// per-vertex classification `flags` and the per-edge cut vertices `cuts`.
pub open spec fn clip_spec<A>(poly: Seq<A>, flags: Seq<bool>, cuts: Seq<A>) -> Seq<A> {
    clip_prefix(poly, flags, cuts, poly.len() as int)
}

/// Clips a polygon against one plane.
///
/// `flags[i]` says whether vertex `i` lies inside the plane's half-space, and
/// `cuts[i]` is the plane intersection of the edge from vertex `i - 1`
/// (cyclically) to vertex `i`; a slot of `cuts` is read only when that edge
/// crosses the plane. Works for any vertex payload, so one call clips the
/// homogeneous coordinates and another the varyings, by the same flags.
pub fn clip_polygon<A: Copy>(poly: &Vec<A>, flags: &Vec<bool>, cuts: &Vec<A>) -> (out: Vec<A>)
    requires
        flags@.len() == poly@.len(),
        cuts@.len() == poly@.len(),
        3 <= poly@.len() <= MAX_VERTICES,
    ensures
        out@ == clip_spec(poly@, flags@, cuts@),
        out@.len() == count_inside(flags@) + count_crossings(flags@),
{
    proof {
        lemma_clip_len(poly@, flags@, cuts@);
    }
    let n = poly.len();
    let mut out: Vec<A> = Vec::new();
    let mut i: usize = 0;
    while i < n
        invariant
            i <= n,
            n == poly@.len(),
            flags@.len() == n,
            cuts@.len() == n,
            3 <= n <= MAX_VERTICES,
            out@ == clip_prefix(poly@, flags@, cuts@, i as int),
        decreases n - i,
    {
        let prev: usize = if i == 0 {
            n - 1
        } else {
            i - 1
        };
        if flags[prev] != flags[i] {
            out.push(cuts[i]);
        }
        if flags[i] {
            out.push(poly[i]);
        }
        i = i + 1;
        proof {
            assert(out@ =~= clip_prefix(poly@, flags@, cuts@, i as int));
        }
    }
    out
}

/// Two passes driven by the same flags stay parallel: however the vertex
/// payloads differ, the outputs have the same length, one slot per inside
/// vertex and one per crossing edge.
pub proof fn lemma_same_flags_same_len<A, B>(
    poly_a: Seq<A>,
    cuts_a: Seq<A>,
    poly_b: Seq<B>,
    cuts_b: Seq<B>,
    flags: Seq<bool>,
)
    requires
        flags.len() == poly_a.len(),
        poly_b.len() == poly_a.len(),
    ensures
        clip_spec(poly_a, flags, cuts_a).len() == clip_spec(poly_b, flags, cuts_b).len(),
{
    lemma_clip_len(poly_a, flags, cuts_a);
    lemma_clip_len(poly_b, flags, cuts_b);
}

/// One plane pass over a polygon and its parallel varying array: both are
/// clipped by the same flags, so the two outputs stay parallel, slot for
/// slot.
pub fn clip_pass<A: Copy, B: Copy>(
    coords: &Vec<A>,
    varyings: &Vec<B>,
    flags: &Vec<bool>,
    coord_cuts: &Vec<A>,
    varying_cuts: &Vec<B>,
) -> (out: (Vec<A>, Vec<B>))
    requires
        varyings@.len() == coords@.len(),
        flags@.len() == coords@.len(),
        coord_cuts@.len() == coords@.len(),
        varying_cuts@.len() == coords@.len(),
        3 <= coords@.len() <= MAX_VERTICES,
    ensures
        out.0@ == clip_spec(coords@, flags@, coord_cuts@),
        out.1@ == clip_spec(varyings@, flags@, varying_cuts@),
        out.0@.len() == out.1@.len(),
{
    let out_coords = clip_polygon(coords, flags, coord_cuts);
    let out_varyings = clip_polygon(varyings, flags, varying_cuts);
    proof {
        lemma_same_flags_same_len(coords@, coord_cuts@, varyings@, varying_cuts@, flags@);
    }
    (out_coords, out_varyings)
}

/// The seven planes in the fixed order the clipping chain applies them:
/// positive w, then +x, -x, +y, -y, +z, -z. Each plane clips the previous
/// plane's output, so a driver must keep to this order.
pub fn plane_sequence() -> (planes: Vec<Plane>)
    ensures
        planes@ == seq![
            Plane::PositiveW,
            Plane::PositiveX,
            Plane::NegativeX,
            Plane::PositiveY,
            Plane::NegativeY,
            Plane::PositiveZ,
            Plane::NegativeZ,
        ],
{
    let mut planes: Vec<Plane> = Vec::new();
    planes.push(Plane::PositiveW);
    planes.push(Plane::PositiveX);
    planes.push(Plane::NegativeX);
    planes.push(Plane::PositiveY);
    planes.push(Plane::NegativeY);
    planes.push(Plane::PositiveZ);
    planes.push(Plane::NegativeZ);
    proof {
        assert(planes@ =~= seq![
            Plane::PositiveW,
            Plane::PositiveX,
            Plane::NegativeX,
            Plane::PositiveY,
            Plane::NegativeY,
            Plane::PositiveZ,
            Plane::NegativeZ,
        ]);
    }
    planes
}

/// A polygon of fewer than 3 vertices is degenerate: the clipping chain
/// discards the triangle and reports an empty result.
pub fn polygon_degenerate(count: usize) -> (degenerate: bool)
    ensures
        degenerate == (count < 3),
{
    count < 3
}

/// How many of the first `k` vertices are inside the plane.
pub open spec fn count_inside_prefix(flags: Seq<bool>, k: int) -> int
    decreases k,
{
    if k <= 0 {
        0
    } else {
        count_inside_prefix(flags, k - 1) + if flags[k - 1] {
            1int
        } else {
            0int
        }
    }
}

/// How many vertices are inside the plane.
pub open spec fn count_inside(flags: Seq<bool>) -> int {
    count_inside_prefix(flags, flags.len() as int)
}

/// How many of the first `k` edges cross the plane.
pub open spec fn count_crossings_prefix(flags: Seq<bool>, k: int) -> int
    decreases k,
{
    if k <= 0 {
        0
    } else {
        count_crossings_prefix(flags, k - 1) + if edge_crosses(flags, k - 1) {
            1int
        } else {
            0int
        }
    }
}

/// How many edges cross the plane.
pub open spec fn count_crossings(flags: Seq<bool>) -> int {
    count_crossings_prefix(flags, flags.len() as int)
}

proof fn lemma_clip_prefix_len<A>(poly: Seq<A>, flags: Seq<bool>, cuts: Seq<A>, k: int)
    requires
        flags.len() == poly.len(),
        0 <= k <= poly.len(),
    ensures
        clip_prefix(poly, flags, cuts, k).len() == count_inside_prefix(flags, k)
            + count_crossings_prefix(flags, k),
    decreases k,
{
    if k > 0 {
        lemma_clip_prefix_len(poly, flags, cuts, k - 1);
    }
}

/// One plane pass emits exactly one vertex per inside vertex and one per
/// crossing edge, so the output size is the sum of the two counts.
pub proof fn lemma_clip_len<A>(poly: Seq<A>, flags: Seq<bool>, cuts: Seq<A>)
    requires
        flags.len() == poly.len(),
    ensures
        clip_spec(poly, flags, cuts).len() == count_inside(flags) + count_crossings(flags),
{
    lemma_clip_prefix_len(poly, flags, cuts, poly.len() as int);
}

proof fn lemma_clip_prefix_all_inside<A>(poly: Seq<A>, flags: Seq<bool>, cuts: Seq<A>, k: int)
    requires
        flags.len() == poly.len(),
        forall|i: int| 0 <= i < flags.len() ==> flags[i],
        0 <= k <= poly.len(),
    ensures
        clip_prefix(poly, flags, cuts, k) == poly.subrange(0, k),
    decreases k,
{
    if k > 0 {
        lemma_clip_prefix_all_inside(poly, flags, cuts, k - 1);
        assert(clip_prefix(poly, flags, cuts, k) =~= poly.subrange(0, k));
    } else {
        assert(clip_prefix(poly, flags, cuts, 0) =~= poly.subrange(0, 0));
    }
}

/// Clipping a polygon against a plane it lies entirely inside of returns the
/// polygon unchanged, vertex for vertex and in order.
pub proof fn lemma_clip_all_inside<A>(poly: Seq<A>, flags: Seq<bool>, cuts: Seq<A>)
    requires
        flags.len() == poly.len(),
        forall|i: int| 0 <= i < flags.len() ==> flags[i],
    ensures
        clip_spec(poly, flags, cuts) == poly,
{
    lemma_clip_prefix_all_inside(poly, flags, cuts, poly.len() as int);
    assert(poly.subrange(0, poly.len() as int) =~= poly);
}

proof fn lemma_clip_prefix_all_outside<A>(poly: Seq<A>, flags: Seq<bool>, cuts: Seq<A>, k: int)
    requires
        flags.len() == poly.len(),
        forall|i: int| 0 <= i < flags.len() ==> !flags[i],
        0 <= k <= poly.len(),
    ensures
        clip_prefix(poly, flags, cuts, k) == Seq::<A>::empty(),
    decreases k,
{
    if k > 0 {
        lemma_clip_prefix_all_outside(poly, flags, cuts, k - 1);
        assert(clip_prefix(poly, flags, cuts, k) =~= Seq::<A>::empty());
    }
}

/// A polygon that lies entirely outside a plane's half-space clips to
/// nothing: the pass returns zero vertices.
pub proof fn lemma_clip_all_outside<A>(poly: Seq<A>, flags: Seq<bool>, cuts: Seq<A>)
    requires
        flags.len() == poly.len(),
        forall|i: int| 0 <= i < flags.len() ==> !flags[i],
    ensures
        clip_spec(poly, flags, cuts) == Seq::<A>::empty(),
{
    lemma_clip_prefix_all_outside(poly, flags, cuts, poly.len() as int);
}

/// A triangle with exactly one vertex outside a plane clips to a quad: the
/// two inside vertices are kept and the two crossing edges each contribute a
/// cut vertex, 4 vertices in all.
pub proof fn lemma_one_outside_gives_quad<A>(poly: Seq<A>, flags: Seq<bool>, cuts: Seq<A>)
    requires
        flags.len() == poly.len(),
        poly.len() == 3,
        count_inside(flags) == 2,
    ensures
        clip_spec(poly, flags, cuts).len() == 4,
{
    lemma_clip_len(poly, flags, cuts);
    reveal_with_fuel(count_inside_prefix, 4);
    reveal_with_fuel(count_crossings_prefix, 4);
}

/// What a full clipping chain produces: each round holds the classification
/// flags and the cut vertices for one plane, the rounds apply in order, and
/// the chain stops with an empty polygon as soon as a pass leaves fewer than
/// 3 vertices.
pub open spec fn chain_spec<A>(poly: Seq<A>, rounds: Seq<(Seq<bool>, Seq<A>)>) -> Seq<A>
    decreases rounds.len(),
{
    if rounds.len() == 0 {
        poly
    } else {
        let next = clip_spec(poly, rounds[0].0, rounds[0].1);
        if next.len() < 3 {
            Seq::<A>::empty()
        } else {
            chain_spec(next, rounds.drop_first())
        }
    }
}

/// The trivial-accept fast path agrees with the full chain: on a polygon
/// inside every plane of every round, the chain returns the polygon
/// unchanged, which is exactly what the fast path copies through.
pub proof fn lemma_chain_all_inside<A>(poly: Seq<A>, rounds: Seq<(Seq<bool>, Seq<A>)>)
    requires
        poly.len() >= 3,
        forall|k: int| 0 <= k < rounds.len() ==> (#[trigger] rounds[k]).0.len() == poly.len(),
        forall|k: int, i: int|
            0 <= k < rounds.len() && 0 <= i < poly.len() ==> (#[trigger] rounds[k].0[i]),
    ensures
        chain_spec(poly, rounds) == poly,
    decreases rounds.len(),
{
    if rounds.len() > 0 {
        lemma_clip_all_inside(poly, rounds[0].0, rounds[0].1);
        let rest = rounds.drop_first();
        assert forall|k: int| 0 <= k < rest.len() implies (#[trigger] rest[k]).0.len()
            == poly.len() by {
            assert(rest[k] == rounds[k + 1]);
        }
        assert forall|k: int, i: int|
            0 <= k < rest.len() && 0 <= i < poly.len() implies (#[trigger] rest[k].0[i]) by {
            assert(rest[k] == rounds[k + 1]);
        }
        lemma_chain_all_inside(poly, rest);
    }
}

/// A triangle entirely outside the first plane of the chain is discarded:
/// the chain output is empty.
pub proof fn lemma_chain_first_plane_rejects<A>(poly: Seq<A>, rounds: Seq<(Seq<bool>, Seq<A>)>)
    requires
        rounds.len() > 0,
        rounds[0].0.len() == poly.len(),
        forall|i: int| 0 <= i < poly.len() ==> !(#[trigger] rounds[0].0[i]),
    ensures
        chain_spec(poly, rounds) == Seq::<A>::empty(),
{
    lemma_clip_all_outside(poly, rounds[0].0, rounds[0].1);
}

} // verus!
