//! Effective-area polyline simplification.
//!
//! A vertex's effective area is the area of the triangle it forms with
//! its two neighbours; the smallest-area interior vertex is removed, and
//! neighbour areas recomputed, until every remaining interior vertex
//! scores above the tolerance. Endpoints are never removed, so a
//! polyline never shrinks below two points.
//!
//! Areas are measured as *doubled* triangle areas (the absolute cross
//! product of the two edge vectors), which keeps them integral;
//! tolerances are expressed in the same doubled-area units.

use vstd::prelude::*;

use crate::geometry::Coord;
use crate::geometry::CollectionView;
use crate::geometry::Feature;
use crate::geometry::FeatureCollection;
use crate::geometry::FeatureView;
use crate::geometry::GeoError;
use crate::geometry::Geometry;
use crate::geometry::GeometryView;
use crate::geometry::coord_in_range;
use crate::geometry::feature_in_range;
use crate::geometry::collection_in_range;
use crate::geometry::polyline_in_range;

verus! {

/// Absolute value of a mathematical integer.
pub open spec fn abs_int(v: int) -> int {
    if v < 0 {
        -v
    } else {
        v
    }
}

/// Doubled area of the triangle `a b c`: the absolute cross product of
/// the edge vectors `a -> b` and `a -> c`.
pub open spec fn area2(a: Coord, b: Coord, c: Coord) -> int {
    abs_int((b.x - a.x) * (c.y - a.y) - (b.y - a.y) * (c.x - a.x))
}

/// Effective (doubled) area of the interior vertex `s[i]`.
pub open spec fn interior_area2(s: Seq<Coord>, i: int) -> int
    recommends
        1 <= i < s.len() - 1,
{
    area2(s[i - 1], s[i], s[i + 1])
}

/// Index of the smallest-effective-area interior vertex among indices
/// `i ..= s.len() - 2`; the earliest such index on ties.
pub open spec fn min_area_index_from(s: Seq<Coord>, i: int) -> int
    recommends
        1 <= i <= s.len() - 2,
    decreases s.len() - i,
{
    if i >= s.len() - 2 {
        i
    } else {
        let rest = min_area_index_from(s, i + 1);
        if interior_area2(s, i) <= interior_area2(s, rest) {
            i
        } else {
            rest
        }
    }
}

/// Index of the smallest-effective-area interior vertex of `s`.
pub open spec fn min_area_index(s: Seq<Coord>) -> int
    recommends
        s.len() >= 3,
{
    min_area_index_from(s, 1)
}

/// The simplified form of a polyline: while some interior vertex scores
/// at or below the tolerance, the lowest-scoring one is removed. A
/// polyline of two or fewer points is left as it is. A tolerance of
/// zero still removes exactly-collinear vertices, whose triangles have
/// zero area.
pub open spec fn simplified(s: Seq<Coord>, tolerance: u128) -> Seq<Coord>
    decreases s.len(),
{
    if s.len() <= 2 {
        s
    } else {
        let i = min_area_index(s);
        if 1 <= i <= s.len() - 2 && interior_area2(s, i) <= tolerance {
            simplified(s.remove(i), tolerance)
        } else {
            s
        }
    }
}

/// The smallest-area index is an interior index, and no interior vertex
/// from `i` on scores below it.
pub proof fn lemma_min_area_index_from(s: Seq<Coord>, i: int)
    requires
        1 <= i <= s.len() - 2,
    ensures
        i <= min_area_index_from(s, i) <= s.len() - 2,
        forall|j: int|
            i <= j <= s.len() - 2 ==> interior_area2(s, min_area_index_from(s, i))
                <= #[trigger] interior_area2(s, j),
    decreases s.len() - i,
{
    if i < s.len() - 2 {
        lemma_min_area_index_from(s, i + 1);
    }
}

/// The smallest-area index of a polyline of three or more points is an
/// interior index that scores at or below every interior vertex.
pub proof fn lemma_min_area_index(s: Seq<Coord>)
    requires
        s.len() >= 3,
    ensures
        1 <= min_area_index(s) <= s.len() - 2,
        forall|j: int|
            1 <= j <= s.len() - 2 ==> interior_area2(s, min_area_index(s))
                <= #[trigger] interior_area2(s, j),
{
    lemma_min_area_index_from(s, 1);
}

/// Exact doubled triangle area of three in-range coordinates.
pub fn triangle_area2(a: Coord, b: Coord, c: Coord) -> (r: u128)
    requires
        coord_in_range(a),
        coord_in_range(b),
        coord_in_range(c),
    ensures
        r == area2(a, b, c),
{
    let bax: i128 = b.x as i128 - a.x as i128;
    let cay: i128 = c.y as i128 - a.y as i128;
    let bay: i128 = b.y as i128 - a.y as i128;
    let cax: i128 = c.x as i128 - a.x as i128;
    proof {
        assert(-4_000_000_000_000_000_000_000_000 <= bax * cay <= 4_000_000_000_000_000_000_000_000)
            by (nonlinear_arith)
            requires
                -2_000_000_000_000 <= bax <= 2_000_000_000_000,
                -2_000_000_000_000 <= cay <= 2_000_000_000_000,
        ;
        assert(-4_000_000_000_000_000_000_000_000 <= bay * cax <= 4_000_000_000_000_000_000_000_000)
            by (nonlinear_arith)
            requires
                -2_000_000_000_000 <= bay <= 2_000_000_000_000,
                -2_000_000_000_000 <= cax <= 2_000_000_000_000,
        ;
    }
    let cross: i128 = bax * cay - bay * cax;
    if cross < 0 {
        (-cross) as u128
    } else {
        cross as u128
    }
}

/// Effective area of the interior vertex `pts[i]`.
fn vertex_area2(pts: &Vec<Coord>, i: usize) -> (r: u128)
    requires
        polyline_in_range(pts@),
        1 <= i < pts@.len() - 1,
    ensures
        r == interior_area2(pts@, i as int),
{
    let n = pts.len();
    triangle_area2(pts[i - 1], pts[i], pts[i + 1])
}

/// Index of the smallest-effective-area interior vertex, scanning so
/// that ties go to the earliest index.
fn min_area_vertex(pts: &Vec<Coord>) -> (r: usize)
    requires
        polyline_in_range(pts@),
        pts@.len() >= 3,
    ensures
        r == min_area_index(pts@),
        1 <= r <= pts@.len() - 2,
{
    let n = pts.len();
    let mut best: usize = n - 2;
    let mut i: usize = n - 2;
    while i > 1
        invariant
            polyline_in_range(pts@),
            n == pts@.len(),
            n >= 3,
            1 <= i <= n - 2,
            i <= best <= n - 2,
            best == min_area_index_from(pts@, i as int),
        decreases i,
    {
        i = i - 1;
        let a = vertex_area2(pts, i);
        let best_a = vertex_area2(pts, best);
        if a <= best_a {
            best = i;
        }
    }
    best
}

/// Simplified form of one polyline: repeatedly drop the interior vertex
/// of least effective area while that area is at or below the tolerance.
pub fn simplify_polyline(pts: Vec<Coord>, tolerance: u128) -> (r: Vec<Coord>)
    requires
        polyline_in_range(pts@),
    ensures
        r@ == simplified(pts@, tolerance),
        polyline_in_range(r@),
{
    let mut cur = pts;
    loop
        invariant
            polyline_in_range(cur@),
            simplified(cur@, tolerance) == simplified(pts@, tolerance),
        ensures
            cur@ == simplified(pts@, tolerance),
            polyline_in_range(cur@),
        decreases cur@.len(),
    {
        if cur.len() <= 2 {
            break;
        }
        let i = min_area_vertex(&cur);
        let a = vertex_area2(&cur, i);
        if a <= tolerance {
            proof {
                lemma_min_area_index(cur@);
                cur@.remove_ensures(i as int);
                let removed = cur@.remove(i as int);
                assert(polyline_in_range(removed)) by {
                    assert forall|k: int| 0 <= k < removed.len() implies coord_in_range(
                        #[trigger] removed[k],
                    ) by {
                        if k < i {
                            assert(removed[k] == cur@[k]);
                        } else {
                            assert(removed[k] == cur@[k + 1]);
                        }
                    }
                }
            }
            cur.remove(i);
        } else {
            proof {
                lemma_min_area_index(cur@);
            }
            break;
        }
    }
    cur
}

/// Simplified form of one geometry: line strings are decimated, every
/// other geometry kind passes through exactly as given.
pub open spec fn simplified_geometry(g: GeometryView, tolerance: u128) -> GeometryView {
    match g {
        GeometryView::LineString(s) => GeometryView::LineString(simplified(s, tolerance)),
        GeometryView::Other(payload) => GeometryView::Other(payload),
    }
}

/// Simplified form of one feature: its geometry is simplified and its
/// attribute bag is untouched.
pub open spec fn simplified_feature(f: FeatureView, tolerance: u128) -> FeatureView
    recommends
        f.geometry is Some,
{
    FeatureView {
        geometry: match f.geometry {
            Option::Some(g) => Option::Some(simplified_geometry(g, tolerance)),
            Option::None => Option::None,
        },
        attributes: f.attributes,
    }
}

/// Every feature carries a geometry.
pub open spec fn all_have_geometry(fs: Seq<FeatureView>) -> bool {
    forall|i: int| 0 <= i < fs.len() ==> (#[trigger] fs[i]).geometry is Some
}

/// Simplified form of a whole collection: every feature simplified in
/// place, order and collection metadata untouched.
pub open spec fn simplified_collection(c: CollectionView, tolerance: u128) -> CollectionView {
    CollectionView {
        features: c.features.map_values(|f: FeatureView| simplified_feature(f, tolerance)),
        metadata: c.metadata,
    }
}

/// Simplify one geometry object. Line strings are decimated by
/// effective area; any other geometry kind is returned unchanged.
pub fn simplify_geometry(geometry: Geometry, tolerance: u128) -> (r: Geometry)
    requires
        polyline_in_range(crate::geometry::geometry_coords(geometry@)),
    ensures
        r@ == simplified_geometry(geometry@, tolerance),
        polyline_in_range(crate::geometry::geometry_coords(r@)),
{
    match geometry {
        Geometry::LineString(pts) => Geometry::LineString(simplify_polyline(pts, tolerance)),
        Geometry::Other(payload) => Geometry::Other(payload),
    }
}

/// Simplify every polyline feature of a collection.
///
/// Fails with `MissingGeometry` — and hands nothing back — as soon as
/// some feature lacks a geometry; otherwise returns the collection with
/// every line string decimated at the given tolerance, feature order,
/// attribute bags and collection metadata untouched.
pub fn simplify(collection: FeatureCollection, tolerance: u128) -> (r: Result<
    FeatureCollection,
    GeoError,
>)
    requires
        collection_in_range(collection@),
    ensures
        r is Ok <==> all_have_geometry(collection@.features),
        r matches Err(e) ==> e == GeoError::MissingGeometry,
        r matches Ok(out) ==> out@ == simplified_collection(collection@, tolerance),
        r matches Ok(out) ==> collection_in_range(out@),
{
    let ghost cv: CollectionView = collection@;
    let ghost orig: Seq<FeatureView> = cv.features;
    let FeatureCollection { features, metadata } = collection;
    proof {
        assert(metadata@ == cv.metadata);
    }
    let mut rest = features;
    let mut done: Vec<Feature> = Vec::new();
    #[verifier::loop_isolation(false)]
    while rest.len() > 0
        invariant
            done@.len() + rest@.len() == orig.len(),
            forall|j: int|
                0 <= j < rest@.len() ==> #[trigger] rest@[j]@ == orig[j + done@.len()],
            forall|j: int|
                0 <= j < done@.len() ==> #[trigger] done@[j]@ == simplified_feature(
                    orig[j],
                    tolerance,
                ),
            forall|j: int| 0 <= j < done@.len() ==> (#[trigger] orig[j]).geometry is Some,
            forall|j: int| 0 <= j < done@.len() ==> feature_in_range(#[trigger] done@[j]@),
        decreases rest@.len(),
    {
        let ghost rest_before = rest@;
        let feature = rest.remove(0);
        let ghost k = done@.len() as int;
        proof {
            rest_before.remove_ensures(0);
            assert(feature@ == orig[k]);
        }
        match feature.geometry {
            Option::None => {
                proof {
                    assert((orig[k]).geometry is None);
                    assert(!all_have_geometry(orig));
                }
                return Result::Err(GeoError::MissingGeometry);
            },
            Option::Some(g) => {
                let simplified_geom = simplify_geometry(g, tolerance);
                let out_feature = Feature {
                    geometry: Option::Some(simplified_geom),
                    attributes: feature.attributes,
                };
                proof {
                    assert(out_feature@ == simplified_feature(orig[k], tolerance));
                    assert(crate::geometry::feature_coords(out_feature@)
                        == crate::geometry::geometry_coords(simplified_geom@));
                }
                done.push(out_feature);
            },
        }
    }
    let out = FeatureCollection { features: done, metadata };
    proof {
        assert(out@.features =~= simplified_collection(cv, tolerance).features);
    }
    Result::Ok(out)
}

} // verus!
