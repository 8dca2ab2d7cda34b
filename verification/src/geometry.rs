//! Data model of the contour pipeline: coordinates, polylines, features
//! and feature collections, together with their mathematical views.
//!
//! Coordinates are fixed-point integers (the caller chooses the scale
//! when it converts from its interchange format); keeping every
//! coordinate within `COORD_LIMIT` lets every derived quantity — triangle
//! areas, bounding boxes, canvas positions — be computed exactly in
//! 128-bit arithmetic.

use vstd::prelude::*;

verus! {

/// Largest coordinate magnitude the pipeline accepts. Triangle areas of
/// in-range coordinates stay below 8 * 10^24, far inside `i128`.
pub const COORD_LIMIT: i64 = 1_000_000_000_000;

/// A vertex of a polyline, in fixed-point planar coordinates.
#[derive(Clone, Copy, PartialEq, Eq, Structural, Debug)]
pub struct Coord {
    pub x: i64,
    pub y: i64,
}

/// A coordinate whose components are small enough for exact area and
/// scaling arithmetic.
pub open spec fn coord_in_range(c: Coord) -> bool {
    &&& -COORD_LIMIT <= c.x <= COORD_LIMIT
    &&& -COORD_LIMIT <= c.y <= COORD_LIMIT
}

/// Every vertex of the polyline is in range.
pub open spec fn polyline_in_range(s: Seq<Coord>) -> bool {
    forall|i: int| 0 <= i < s.len() ==> coord_in_range(#[trigger] s[i])
}

/// The geometry of a feature. Only line strings are simplified and
/// rendered; any other geometry kind is carried through as an opaque
/// payload chosen by the caller (for instance its serialized form).
#[derive(Debug)]
pub enum Geometry {
    LineString(Vec<Coord>),
    Other(String),
}

/// Mathematical shape of a `Geometry`.
pub enum GeometryView {
    LineString(Seq<Coord>),
    Other(Seq<char>),
}

impl View for Geometry {
    type V = GeometryView;

    open spec fn view(&self) -> GeometryView {
        match self {
            Geometry::LineString(pts) => GeometryView::LineString(pts@),
            Geometry::Other(payload) => GeometryView::Other(payload@),
        }
    }
}

/// A geometry object plus an opaque attribute bag (for instance the
/// serialized elevation properties). The pipeline never reads the bag;
/// it only carries it through unchanged.
#[derive(Debug)]
pub struct Feature {
    pub geometry: Option<Geometry>,
    pub attributes: String,
}

/// Mathematical shape of a `Feature`.
pub struct FeatureView {
    pub geometry: Option<GeometryView>,
    pub attributes: Seq<char>,
}

impl View for Feature {
    type V = FeatureView;

    open spec fn view(&self) -> FeatureView {
        FeatureView {
            geometry: match &self.geometry {
                Option::Some(g) => Option::Some(g@),
                Option::None => Option::None,
            },
            attributes: self.attributes@,
        }
    }
}

/// An ordered collection of features plus opaque collection-level
/// metadata (bounding-box annotations, foreign members, and the like).
#[derive(Debug)]
pub struct FeatureCollection {
    pub features: Vec<Feature>,
    pub metadata: String,
}

/// Mathematical shape of a `FeatureCollection`.
pub struct CollectionView {
    pub features: Seq<FeatureView>,
    pub metadata: Seq<char>,
}

impl View for FeatureCollection {
    type V = CollectionView;

    open spec fn view(&self) -> CollectionView {
        CollectionView {
            features: self.features@.map_values(|f: Feature| f@),
            metadata: self.metadata@,
        }
    }
}

/// Coordinates of a line-string geometry; other geometry kinds carry no
/// coordinates that the pipeline reads.
pub open spec fn geometry_coords(g: GeometryView) -> Seq<Coord> {
    match g {
        GeometryView::LineString(s) => s,
        GeometryView::Other(_) => Seq::empty(),
    }
}

/// Coordinates the pipeline reads from one feature.
pub open spec fn feature_coords(f: FeatureView) -> Seq<Coord> {
    match f.geometry {
        Option::Some(g) => geometry_coords(g),
        Option::None => Seq::empty(),
    }
}

/// Every coordinate of the feature is in range.
pub open spec fn feature_in_range(f: FeatureView) -> bool {
    polyline_in_range(feature_coords(f))
}

/// Every coordinate of every feature is in range.
pub open spec fn collection_in_range(c: CollectionView) -> bool {
    forall|i: int| 0 <= i < c.features.len() ==> feature_in_range(#[trigger] c.features[i])
}

/// The failures the pipeline can report.
#[derive(Clone, Copy, PartialEq, Eq, Structural, Debug)]
pub enum GeoError {
    /// A feature lacks geometry where one is required.
    MissingGeometry,
    /// The collection holds no coordinates to scale against.
    EmptyGeometry,
}

} // verus!
