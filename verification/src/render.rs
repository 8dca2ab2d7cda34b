//! Bounding-box-driven rendering of a feature collection into a
//! fixed-size line drawing.
//!
//! The renderer scans every line-string coordinate to find the bounding
//! box, scales each axis independently onto the canvas, flips the
//! vertical axis so increasing source `y` runs towards the top-left
//! image origin, and emits one stroked, unfilled path per line-string
//! feature, in feature order. Canvas positions are computed with
//! truncating integer division, so every point provably lands inside
//! the canvas.
//!
//! When one axis of the bounding box has zero extent its scale is taken
//! as 1, so a degenerate collection (for instance a single point, which
//! lands on the bottom-left corner) still renders at a deterministic
//! position instead of dividing by zero.

use vstd::prelude::*;
use vstd::arithmetic::div_mod::lemma_div_is_ordered;
use vstd::arithmetic::div_mod::lemma_div_multiples_vanish;
use vstd::arithmetic::mul::lemma_mul_inequality;

use crate::geometry::COORD_LIMIT;
use crate::geometry::Coord;
use crate::geometry::FeatureCollection;
use crate::geometry::FeatureView;
use crate::geometry::GeoError;
use crate::geometry::Geometry;
use crate::geometry::GeometryView;
use crate::geometry::collection_in_range;
use crate::geometry::coord_in_range;
use crate::geometry::feature_coords;
use crate::geometry::polyline_in_range;

verus! {

/// A point of the output drawing, in canvas coordinates with the origin
/// at the top-left corner.
#[derive(Clone, Copy, PartialEq, Eq, Structural, Debug)]
pub struct CanvasPoint {
    pub x: u64,
    pub y: u64,
}

/// The minimal axis-aligned rectangle around a set of coordinates.
#[derive(Clone, Copy, PartialEq, Eq, Structural, Debug)]
pub struct BoundingBox {
    pub min_x: i64,
    pub min_y: i64,
    pub max_x: i64,
    pub max_y: i64,
}

/// One stroked, unfilled path of the drawing: the first point is where
/// the pen moves to, every further point extends the line.
#[derive(Debug)]
pub struct Path {
    pub points: Vec<CanvasPoint>,
}

impl View for Path {
    type V = Seq<CanvasPoint>;

    open spec fn view(&self) -> Seq<CanvasPoint> {
        self.points@
    }
}

/// A fixed-size canvas holding an ordered list of stroked paths, ready
/// for serialization by an external vector-image writer.
#[derive(Debug)]
pub struct Drawing {
    pub width: u64,
    pub height: u64,
    pub stroke_width: u64,
    pub paths: Vec<Path>,
}

/// Mathematical shape of a `Drawing`.
pub struct DrawingView {
    pub width: u64,
    pub height: u64,
    pub stroke_width: u64,
    pub paths: Seq<Seq<CanvasPoint>>,
}

impl View for Drawing {
    type V = DrawingView;

    open spec fn view(&self) -> DrawingView {
        DrawingView {
            width: self.width,
            height: self.height,
            stroke_width: self.stroke_width,
            paths: self.paths@.map_values(|p: Path| p@),
        }
    }
}

/// Every coordinate the renderer reads, in feature order.
pub open spec fn all_coords(fs: Seq<FeatureView>) -> Seq<Coord>
    decreases fs.len(),
{
    if fs.len() == 0 {
        Seq::empty()
    } else {
        all_coords(fs.drop_last()) + feature_coords(fs.last())
    }
}

/// Bounding box of a non-empty coordinate sequence.
pub open spec fn bbox_of(s: Seq<Coord>) -> BoundingBox
    recommends
        s.len() >= 1,
    decreases s.len(),
{
    if s.len() <= 1 {
        BoundingBox { min_x: s[0].x, min_y: s[0].y, max_x: s[0].x, max_y: s[0].y }
    } else {
        let b = bbox_of(s.drop_last());
        let c = s.last();
        BoundingBox {
            min_x: if c.x < b.min_x {
                c.x
            } else {
                b.min_x
            },
            min_y: if c.y < b.min_y {
                c.y
            } else {
                b.min_y
            },
            max_x: if c.x > b.max_x {
                c.x
            } else {
                b.max_x
            },
            max_y: if c.y > b.max_y {
                c.y
            } else {
                b.max_y
            },
        }
    }
}

/// Position of `v` on an axis of extent `hi - lo`, scaled onto a canvas
/// axis of length `extent` by truncating division. A degenerate axis
/// (`lo == hi`) is given scale 1, so every value maps to offset zero.
pub open spec fn scale_pos(v: i64, lo: i64, hi: i64, extent: u64) -> int
    recommends
        lo <= v <= hi,
{
    if lo == hi {
        v - lo
    } else {
        ((v - lo) * extent) / (hi - lo)
    }
}

/// Canvas image of one source coordinate: scaled on both axes, with the
/// vertical axis flipped to the top-left image convention.
pub open spec fn canvas_point(c: Coord, b: BoundingBox, w: u64, h: u64) -> CanvasPoint {
    CanvasPoint {
        x: scale_pos(c.x, b.min_x, b.max_x, w) as u64,
        y: (h - scale_pos(c.y, b.min_y, b.max_y, h)) as u64,
    }
}

/// Canvas image of one polyline.
pub open spec fn canvas_path(s: Seq<Coord>, b: BoundingBox, w: u64, h: u64) -> Seq<CanvasPoint> {
    s.map_values(|c: Coord| canvas_point(c, b, w, h))
}

/// Canvas image of a collection: one path per line-string feature, in
/// feature order; features with other or missing geometry produce no
/// path.
pub open spec fn canvas_paths(fs: Seq<FeatureView>, b: BoundingBox, w: u64, h: u64) -> Seq<
    Seq<CanvasPoint>,
>
    decreases fs.len(),
{
    if fs.len() == 0 {
        Seq::empty()
    } else {
        let rest = canvas_paths(fs.drop_last(), b, w, h);
        match fs.last().geometry {
            Option::Some(GeometryView::LineString(s)) => rest.push(canvas_path(s, b, w, h)),
            _ => rest,
        }
    }
}

/// The point lies on the canvas.
pub open spec fn point_in_canvas(p: CanvasPoint, w: u64, h: u64) -> bool {
    p.x <= w && p.y <= h
}

/// Every point of every path lies on the canvas.
pub open spec fn drawing_in_bounds(d: DrawingView) -> bool {
    forall|i: int, j: int|
        0 <= i < d.paths.len() && 0 <= j < d.paths[i].len() ==> point_in_canvas(
            #[trigger] d.paths[i][j],
            d.width,
            d.height,
        )
}

/// The bounding box encloses every coordinate of the sequence.
pub proof fn lemma_bbox_bounds(s: Seq<Coord>)
    requires
        s.len() >= 1,
    ensures
        forall|k: int|
            0 <= k < s.len() ==> bbox_of(s).min_x <= (#[trigger] s[k]).x <= bbox_of(s).max_x,
        forall|k: int|
            0 <= k < s.len() ==> bbox_of(s).min_y <= (#[trigger] s[k]).y <= bbox_of(s).max_y,
        bbox_of(s).min_x <= bbox_of(s).max_x,
        bbox_of(s).min_y <= bbox_of(s).max_y,
    decreases s.len(),
{
    if s.len() > 1 {
        lemma_bbox_bounds(s.drop_last());
        assert forall|k: int| 0 <= k < s.len() implies bbox_of(s).min_x <= (#[trigger] s[k]).x
            <= bbox_of(s).max_x && bbox_of(s).min_y <= s[k].y <= bbox_of(s).max_y by {
            if k < s.len() - 1 {
                assert(s.drop_last()[k] == s[k]);
            }
        }
    }
}

/// The bounding box of in-range coordinates has in-range sides.
pub proof fn lemma_bbox_in_range(s: Seq<Coord>)
    requires
        s.len() >= 1,
        polyline_in_range(s),
    ensures
        -COORD_LIMIT <= bbox_of(s).min_x <= COORD_LIMIT,
        -COORD_LIMIT <= bbox_of(s).min_y <= COORD_LIMIT,
        -COORD_LIMIT <= bbox_of(s).max_x <= COORD_LIMIT,
        -COORD_LIMIT <= bbox_of(s).max_y <= COORD_LIMIT,
    decreases s.len(),
{
    if s.len() > 1 {
        assert(polyline_in_range(s.drop_last())) by {
            assert(forall|k: int|
                0 <= k < s.len() - 1 ==> #[trigger] s.drop_last()[k] == s[k]);
        }
        lemma_bbox_in_range(s.drop_last());
    }
}

/// Every coordinate of every feature occurs in `all_coords`.
pub proof fn lemma_all_coords_contains(fs: Seq<FeatureView>, i: int, j: int)
    requires
        0 <= i < fs.len(),
        0 <= j < feature_coords(fs[i]).len(),
    ensures
        all_coords(fs).contains(feature_coords(fs[i])[j]),
    decreases fs.len(),
{
    let c = feature_coords(fs[i])[j];
    let prefix = all_coords(fs.drop_last());
    if i == fs.len() - 1 {
        assert(all_coords(fs)[prefix.len() + j] == c);
    } else {
        assert(fs.drop_last()[i] == fs[i]);
        lemma_all_coords_contains(fs.drop_last(), i, j);
        let k = choose|k: int| 0 <= k < prefix.len() && prefix[k] == c;
        assert(all_coords(fs)[k] == c);
    }
}

/// Every coordinate of `all_coords` is in range if the collection is.
pub proof fn lemma_all_coords_in_range(fs: Seq<FeatureView>)
    requires
        forall|i: int| 0 <= i < fs.len() ==> crate::geometry::feature_in_range(#[trigger] fs[i]),
    ensures
        polyline_in_range(all_coords(fs)),
    decreases fs.len(),
{
    if fs.len() > 0 {
        assert(forall|i: int|
            0 <= i < fs.len() - 1 ==> #[trigger] fs.drop_last()[i] == fs[i]);
        lemma_all_coords_in_range(fs.drop_last());
        let prefix = all_coords(fs.drop_last());
        let tail = feature_coords(fs.last());
        assert forall|k: int| 0 <= k < all_coords(fs).len() implies coord_in_range(
            #[trigger] all_coords(fs)[k],
        ) by {
            if k < prefix.len() {
                assert(all_coords(fs)[k] == prefix[k]);
            } else {
                assert(all_coords(fs)[k] == tail[k - prefix.len()]);
            }
        }
    }
}

/// Gather every coordinate the renderer reads, in feature order.
fn collect_coords(collection: &FeatureCollection) -> (r: Vec<Coord>)
    ensures
        r@ == all_coords(collection@.features),
{
    let ghost fs = collection@.features;
    let mut coords: Vec<Coord> = Vec::new();
    let n = collection.features.len();
    let mut i: usize = 0;
    #[verifier::loop_isolation(false)]
    while i < n
        invariant
            0 <= i <= n,
            coords@ == all_coords(fs.subrange(0, i as int)),
        decreases n - i,
    {
        match &collection.features[i].geometry {
            Option::Some(Geometry::LineString(pts)) => {
                let m = pts.len();
                let mut j: usize = 0;
                #[verifier::loop_isolation(false)]
                while j < m
                    invariant
                        0 <= j <= m,
                        coords@ == all_coords(fs.subrange(0, i as int)) + pts@.take(j as int),
                    decreases m - j,
                {
                    coords.push(pts[j]);
                    proof {
                        assert(pts@.take(j + 1) =~= pts@.take(j as int).push(pts@[j as int]));
                        assert(coords@ =~= all_coords(fs.subrange(0, i as int)) + pts@.take(
                            j + 1,
                        ));
                    }
                    j = j + 1;
                }
                proof {
                    assert(pts@.take(m as int) =~= pts@);
                    assert(fs.subrange(0, i + 1).drop_last() =~= fs.subrange(0, i as int));
                    assert(fs.subrange(0, i + 1).last() == fs[i as int]);
                    assert(feature_coords(fs[i as int]) == pts@);
                }
            },
            _ => {
                proof {
                    assert(fs.subrange(0, i + 1).drop_last() =~= fs.subrange(0, i as int));
                    assert(fs.subrange(0, i + 1).last() == fs[i as int]);
                    assert(feature_coords(fs[i as int]) =~= Seq::<Coord>::empty());
                    assert(coords@ =~= all_coords(fs.subrange(0, i + 1)));
                }
            },
        }
        i = i + 1;
    }
    proof {
        assert(fs.subrange(0, n as int) =~= fs);
    }
    coords
}

/// Bounding box of a non-empty coordinate vector.
fn compute_bbox(coords: &Vec<Coord>) -> (r: BoundingBox)
    requires
        coords@.len() >= 1,
    ensures
        r == bbox_of(coords@),
{
    let c0 = coords[0];
    let mut b = BoundingBox { min_x: c0.x, min_y: c0.y, max_x: c0.x, max_y: c0.y };
    proof {
        assert(coords@.take(1).len() == 1);
        assert(coords@.take(1)[0] == coords@[0]);
    }
    let mut k: usize = 1;
    #[verifier::loop_isolation(false)]
    while k < coords.len()
        invariant
            1 <= k <= coords@.len(),
            b == bbox_of(coords@.take(k as int)),
        decreases coords@.len() - k,
    {
        let c = coords[k];
        proof {
            assert(coords@.take(k + 1).drop_last() =~= coords@.take(k as int));
            assert(coords@.take(k + 1).last() == coords@[k as int]);
        }
        b =
        BoundingBox {
            min_x: if c.x < b.min_x {
                c.x
            } else {
                b.min_x
            },
            min_y: if c.y < b.min_y {
                c.y
            } else {
                b.min_y
            },
            max_x: if c.x > b.max_x {
                c.x
            } else {
                b.max_x
            },
            max_y: if c.y > b.max_y {
                c.y
            } else {
                b.max_y
            },
        };
        k = k + 1;
    }
    proof {
        assert(coords@.take(coords@.len() as int) =~= coords@);
    }
    b
}

/// Scaled offset of `v` within `[lo, hi]` on a canvas axis of length
/// `extent`; never exceeds `extent`.
fn scale_component(v: i64, lo: i64, hi: i64, extent: u64) -> (r: u64)
    requires
        lo <= v <= hi,
        -COORD_LIMIT <= lo,
        hi <= COORD_LIMIT,
    ensures
        r == scale_pos(v, lo, hi, extent),
        r <= extent,
{
    if lo == hi {
        0
    } else {
        let dv: u128 = (v - lo) as u128;
        let dd: u128 = (hi - lo) as u128;
        let e: u128 = extent as u128;
        proof {
            assert(dv * e <= 40_000_000_000_000_000_000_000_000_000_000_000) by (nonlinear_arith)
                requires
                    dv <= 2_000_000_000_000,
                    e <= 18_446_744_073_709_551_615,
            ;
            lemma_mul_inequality(dv as int, dd as int, e as int);
            lemma_div_is_ordered((dv * e) as int, (dd * e) as int, dd as int);
            lemma_div_multiples_vanish(e as int, dd as int);
            assert(dd * e == (dd as int) * (e as int));
        }
        let q: u128 = (dv * e) / dd;
        q as u64
    }
}

/// Canvas image of one in-range coordinate inside its bounding box.
fn transform_point(c: Coord, b: &BoundingBox, width: u64, height: u64) -> (r: CanvasPoint)
    requires
        b.min_x <= c.x <= b.max_x,
        b.min_y <= c.y <= b.max_y,
        -COORD_LIMIT <= b.min_x,
        b.max_x <= COORD_LIMIT,
        -COORD_LIMIT <= b.min_y,
        b.max_y <= COORD_LIMIT,
    ensures
        r == canvas_point(c, *b, width, height),
        point_in_canvas(r, width, height),
{
    let cx = scale_component(c.x, b.min_x, b.max_x, width);
    let sy = scale_component(c.y, b.min_y, b.max_y, height);
    CanvasPoint { x: cx, y: height - sy }
}

/// Bounding box of every line-string coordinate of the collection, or
/// `None` when the collection holds no coordinates.
pub fn bounding_box(collection: &FeatureCollection) -> (r: Option<BoundingBox>)
    requires
        collection_in_range(collection@),
    ensures
        r is Some <==> all_coords(collection@.features).len() > 0,
        r matches Some(b) ==> b == bbox_of(all_coords(collection@.features)),
{
    let coords = collect_coords(collection);
    if coords.len() == 0 {
        Option::None
    } else {
        Option::Some(compute_bbox(&coords))
    }
}

/// Render a collection onto a `width` by `height` canvas: one stroked
/// path of unit stroke width per line-string feature, in feature order,
/// every point scaled into the canvas and vertically flipped.
///
/// Fails with `EmptyGeometry` — and hands no drawing back — when the
/// collection holds no line-string coordinates to scale against.
pub fn render(collection: &FeatureCollection, width: u64, height: u64) -> (r: Result<
    Drawing,
    GeoError,
>)
    requires
        collection_in_range(collection@),
    ensures
        r is Ok <==> all_coords(collection@.features).len() > 0,
        r matches Err(e) ==> e == GeoError::EmptyGeometry,
        r matches Ok(d) ==> ({
            &&& d@.width == width
            &&& d@.height == height
            &&& d@.stroke_width == 1
            &&& d@.paths == canvas_paths(
                collection@.features,
                bbox_of(all_coords(collection@.features)),
                width,
                height,
            )
            &&& drawing_in_bounds(d@)
        }),
{
    let ghost fs = collection@.features;
    let coords = collect_coords(collection);
    if coords.len() == 0 {
        return Result::Err(GeoError::EmptyGeometry);
    }
    let b = compute_bbox(&coords);
    proof {
        lemma_bbox_bounds(coords@);
        lemma_all_coords_in_range(fs);
        lemma_bbox_in_range(coords@);
    }
    let mut paths: Vec<Path> = Vec::new();
    let n = collection.features.len();
    let mut i: usize = 0;
    #[verifier::loop_isolation(false)]
    while i < n
        invariant
            0 <= i <= n,
            paths@.map_values(|p: Path| p@) == canvas_paths(
                fs.subrange(0, i as int),
                b,
                width,
                height,
            ),
            forall|a: int, z: int|
                0 <= a < paths@.len() && 0 <= z < paths@[a]@.len() ==> point_in_canvas(
                    #[trigger] paths@[a]@[z],
                    width,
                    height,
                ),
        decreases n - i,
    {
        let ghost prev = paths@.map_values(|p: Path| p@);
        match &collection.features[i].geometry {
            Option::Some(Geometry::LineString(pts)) => {
                let m = pts.len();
                let mut points: Vec<CanvasPoint> = Vec::new();
                let mut j: usize = 0;
                #[verifier::loop_isolation(false)]
                while j < m
                    invariant
                        0 <= j <= m,
                        points@.len() == j,
                        forall|z: int|
                            0 <= z < j ==> #[trigger] points@[z] == canvas_point(
                                pts@[z],
                                b,
                                width,
                                height,
                            ),
                        forall|z: int|
                            0 <= z < j ==> point_in_canvas(#[trigger] points@[z], width, height),
                    decreases m - j,
                {
                    proof {
                        assert(feature_coords(fs[i as int]) == pts@);
                        lemma_all_coords_contains(fs, i as int, j as int);
                        let c = pts@[j as int];
                        let w = choose|w: int| 0 <= w < coords@.len() && coords@[w] == c;
                        assert(coords@[w] == c);
                    }
                    let p = transform_point(pts[j], &b, width, height);
                    points.push(p);
                    j = j + 1;
                }
                proof {
                    assert(points@ =~= canvas_path(pts@, b, width, height));
                }
                paths.push(Path { points });
                proof {
                    assert(fs.subrange(0, i + 1).drop_last() =~= fs.subrange(0, i as int));
                    assert(fs.subrange(0, i + 1).last() == fs[i as int]);
                    assert(paths@.map_values(|p: Path| p@) =~= prev.push(
                        canvas_path(pts@, b, width, height),
                    ));
                }
            },
            _ => {
                proof {
                    assert(fs.subrange(0, i + 1).drop_last() =~= fs.subrange(0, i as int));
                    assert(fs.subrange(0, i + 1).last() == fs[i as int]);
                }
            },
        }
        i = i + 1;
    }
    proof {
        assert(fs.subrange(0, n as int) =~= fs);
    }
    let drawing = Drawing { width, height, stroke_width: 1, paths };
    Result::Ok(drawing)
}

} // verus!
