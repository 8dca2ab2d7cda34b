//! Global properties of the simplifier, stated and proved once over the
//! mathematical model: idempotence, monotonic vertex reduction, endpoint
//! preservation, short-polyline passthrough and attribute passthrough.

use vstd::prelude::*;

use crate::geometry::CollectionView;
use crate::geometry::Coord;
use crate::geometry::FeatureView;
use crate::geometry::feature_coords;
use crate::simplify::interior_area2;
use crate::simplify::min_area_index;
use crate::simplify::simplified;
use crate::simplify::simplified_collection;
use crate::simplify::simplified_feature;

verus! {

/// Simplification never lengthens a polyline.
pub proof fn lemma_simplified_len(s: Seq<Coord>, tolerance: u128)
    ensures
        simplified(s, tolerance).len() <= s.len(),
    decreases s.len(),
{
    if s.len() > 2 {
        let i = min_area_index(s);
        if 1 <= i <= s.len() - 2 && interior_area2(s, i) <= tolerance {
            s.remove_ensures(i);
            lemma_simplified_len(s.remove(i), tolerance);
        }
    }
}

/// Simplifying at a looser tolerance gives the same result as
/// simplifying the already-simplified polyline at that tolerance: the
/// removals made at the tighter tolerance are a prefix of the removals
/// made at the looser one.
pub proof fn lemma_simplified_refines(s: Seq<Coord>, t1: u128, t2: u128)
    requires
        t1 <= t2,
    ensures
        simplified(s, t2) == simplified(simplified(s, t1), t2),
    decreases s.len(),
{
    if s.len() > 2 {
        let i = min_area_index(s);
        if 1 <= i <= s.len() - 2 && interior_area2(s, i) <= t1 {
            s.remove_ensures(i);
            lemma_simplified_refines(s.remove(i), t1, t2);
        }
    }
}

/// Idempotence: a second pass at the same tolerance removes nothing.
pub proof fn lemma_simplified_idempotent(s: Seq<Coord>, tolerance: u128)
    ensures
        simplified(simplified(s, tolerance), tolerance) == simplified(s, tolerance),
{
    lemma_simplified_refines(s, tolerance, tolerance);
}

/// Monotonic reduction: a looser tolerance never keeps more vertices,
/// and simplification never adds any.
pub proof fn lemma_simplified_monotonic(s: Seq<Coord>, t1: u128, t2: u128)
    requires
        t1 <= t2,
    ensures
        simplified(s, t2).len() <= simplified(s, t1).len() <= s.len(),
{
    lemma_simplified_refines(s, t1, t2);
    lemma_simplified_len(s, t1);
    lemma_simplified_len(simplified(s, t1), t2);
}

/// Endpoint preservation: the first and last vertex survive any
/// tolerance, and a polyline of two or more points keeps at least two.
pub proof fn lemma_simplified_endpoints(s: Seq<Coord>, tolerance: u128)
    requires
        s.len() >= 1,
    ensures
        simplified(s, tolerance).len() >= 1,
        s.len() >= 2 ==> simplified(s, tolerance).len() >= 2,
        simplified(s, tolerance)[0] == s[0],
        simplified(s, tolerance).last() == s.last(),
    decreases s.len(),
{
    if s.len() > 2 {
        let i = min_area_index(s);
        if 1 <= i <= s.len() - 2 && interior_area2(s, i) <= tolerance {
            s.remove_ensures(i);
            let r = s.remove(i);
            lemma_simplified_endpoints(r, tolerance);
            assert(r[0] == s[0]);
            assert(r.last() == s.last());
        }
    }
}

/// Short-polyline passthrough: two or fewer points are returned
/// unchanged at any tolerance.
pub proof fn lemma_short_polyline_passthrough(s: Seq<Coord>, tolerance: u128)
    requires
        s.len() <= 2,
    ensures
        simplified(s, tolerance) == s,
{
}

/// Attribute passthrough: simplification keeps the feature count and
/// order, every attribute bag, and the collection metadata exactly.
pub proof fn lemma_simplified_attributes(c: CollectionView, tolerance: u128)
    ensures
        simplified_collection(c, tolerance).features.len() == c.features.len(),
        forall|i: int|
            0 <= i < c.features.len() ==> (#[trigger] simplified_collection(
                c,
                tolerance,
            ).features[i]).attributes == c.features[i].attributes,
        simplified_collection(c, tolerance).metadata == c.metadata,
{
}

/// One feature is unchanged by a second simplification pass.
proof fn lemma_feature_idempotent(f: FeatureView, tolerance: u128)
    ensures
        simplified_feature(simplified_feature(f, tolerance), tolerance) == simplified_feature(
            f,
            tolerance,
        ),
{
    match f.geometry {
        Option::Some(g) => {
            match g {
                crate::geometry::GeometryView::LineString(s) => {
                    lemma_simplified_idempotent(s, tolerance);
                },
                crate::geometry::GeometryView::Other(_) => {},
            }
        },
        Option::None => {},
    }
}

/// Idempotence of the whole collection transform.
pub proof fn lemma_simplified_collection_idempotent(c: CollectionView, tolerance: u128)
    ensures
        simplified_collection(simplified_collection(c, tolerance), tolerance)
            == simplified_collection(c, tolerance),
{
    let once = simplified_collection(c, tolerance);
    let twice = simplified_collection(once, tolerance);
    assert forall|i: int| 0 <= i < c.features.len() implies #[trigger] twice.features[i]
        == once.features[i] by {
        lemma_feature_idempotent(c.features[i], tolerance);
    }
    assert(twice.features =~= once.features);
}

/// Total number of polyline vertices the renderer would read from a
/// collection.
pub open spec fn vertex_count(fs: Seq<FeatureView>) -> nat
    decreases fs.len(),
{
    if fs.len() == 0 {
        0
    } else {
        vertex_count(fs.drop_last()) + feature_coords(fs.last()).len()
    }
}

/// One feature loses at least as many vertices at a looser tolerance,
/// and never gains any.
proof fn lemma_feature_monotonic(f: FeatureView, t1: u128, t2: u128)
    requires
        t1 <= t2,
    ensures
        feature_coords(simplified_feature(f, t2)).len() <= feature_coords(
            simplified_feature(f, t1),
        ).len() <= feature_coords(f).len(),
{
    match f.geometry {
        Option::Some(g) => {
            match g {
                crate::geometry::GeometryView::LineString(s) => {
                    lemma_simplified_monotonic(s, t1, t2);
                },
                crate::geometry::GeometryView::Other(_) => {},
            }
        },
        Option::None => {},
    }
}

/// Monotonic reduction over a whole collection: counting every vertex
/// of every feature, a looser tolerance keeps no more than a tighter
/// one, which keeps no more than the input had.
pub proof fn lemma_simplified_collection_monotonic(c: CollectionView, t1: u128, t2: u128)
    requires
        t1 <= t2,
    ensures
        vertex_count(simplified_collection(c, t2).features) <= vertex_count(
            simplified_collection(c, t1).features,
        ) <= vertex_count(c.features),
{
    lemma_vertex_count_monotonic(c.features, t1, t2);
}

/// Induction step of `lemma_simplified_collection_monotonic`, over the
/// bare feature sequence.
proof fn lemma_vertex_count_monotonic(fs: Seq<FeatureView>, t1: u128, t2: u128)
    requires
        t1 <= t2,
    ensures
        vertex_count(fs.map_values(|f: FeatureView| simplified_feature(f, t2))) <= vertex_count(
            fs.map_values(|f: FeatureView| simplified_feature(f, t1)),
        ) <= vertex_count(fs),
    decreases fs.len(),
{
    let m1 = fs.map_values(|f: FeatureView| simplified_feature(f, t1));
    let m2 = fs.map_values(|f: FeatureView| simplified_feature(f, t2));
    if fs.len() == 0 {
        assert(m1.len() == 0);
        assert(m2.len() == 0);
    } else {
        let head = fs.drop_last();
        assert(m1.drop_last() =~= head.map_values(|f: FeatureView| simplified_feature(f, t1)));
        assert(m2.drop_last() =~= head.map_values(|f: FeatureView| simplified_feature(f, t2)));
        assert(m1.last() == simplified_feature(fs.last(), t1));
        assert(m2.last() == simplified_feature(fs.last(), t2));
        lemma_vertex_count_monotonic(head, t1, t2);
        lemma_feature_monotonic(fs.last(), t1, t2);
    }
}

} // verus!
