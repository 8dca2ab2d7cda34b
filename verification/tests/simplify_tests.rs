use terrain_image_generator::geometry::Coord;
use terrain_image_generator::geometry::Feature;
use terrain_image_generator::geometry::FeatureCollection;
use terrain_image_generator::geometry::GeoError;
use terrain_image_generator::geometry::Geometry;
use terrain_image_generator::simplify::simplify;
use terrain_image_generator::simplify::simplify_geometry;
use terrain_image_generator::simplify::simplify_polyline;

fn c(x: i64, y: i64) -> Coord {
    Coord { x, y }
}

fn line_feature(pts: Vec<Coord>, attributes: &str) -> Feature {
    Feature {
        geometry: Some(Geometry::LineString(pts)),
        attributes: String::from(attributes),
    }
}

fn xs(pts: &Vec<Coord>) -> Vec<(i64, i64)> {
    pts.iter().map(|p| (p.x, p.y)).collect()
}

#[test]
fn collinear_points_removed_at_zero_tolerance() {
    let pts = vec![c(0, 0), c(5, 5), c(10, 10)];
    let out = simplify_polyline(pts, 0);
    assert_eq!(xs(&out), vec![(0, 0), (10, 10)]);
}

#[test]
fn zero_tolerance_keeps_noncollinear_shape() {
    let pts = vec![c(0, 0), c(5, 6), c(10, 0)];
    let out = simplify_polyline(pts, 0);
    assert_eq!(xs(&out), vec![(0, 0), (5, 6), (10, 0)]);
}

#[test]
fn two_point_polyline_passes_through() {
    let pts = vec![c(3, 4), c(9, 1)];
    let out = simplify_polyline(pts, u128::MAX);
    assert_eq!(xs(&out), vec![(3, 4), (9, 1)]);
}

#[test]
fn single_point_polyline_passes_through() {
    let pts = vec![c(3, 4)];
    let out = simplify_polyline(pts, u128::MAX);
    assert_eq!(xs(&out), vec![(3, 4)]);
}

#[test]
fn neighbour_areas_are_recomputed_after_each_removal() {
    // Every interior vertex of the zigzag starts with doubled triangle
    // area 4, but removing vertices grows the area of the survivors:
    // after (2,1) and (4,0) go, (6,1) scores 8 and stays at tolerance 4.
    let pts = vec![c(0, 0), c(2, 1), c(4, 0), c(6, 1), c(8, 0)];
    let partial = simplify_polyline(pts.clone(), 4);
    assert_eq!(xs(&partial), vec![(0, 0), (6, 1), (8, 0)]);
    let removed = simplify_polyline(pts.clone(), 8);
    assert_eq!(xs(&removed), vec![(0, 0), (8, 0)]);
    let kept = simplify_polyline(pts, 3);
    assert_eq!(
        xs(&kept),
        vec![(0, 0), (2, 1), (4, 0), (6, 1), (8, 0)]
    );
}

#[test]
fn endpoints_survive_any_tolerance() {
    let pts = vec![c(-7, 2), c(0, 50), c(3, -9), c(11, 4)];
    let out = simplify_polyline(pts, u128::MAX);
    assert_eq!(out.first().map(|p| (p.x, p.y)), Some((-7, 2)));
    assert_eq!(out.last().map(|p| (p.x, p.y)), Some((11, 4)));
    assert!(out.len() >= 2);
}

#[test]
fn simplify_is_idempotent_on_concrete_input() {
    let pts = vec![c(0, 0), c(1, 3), c(2, 0), c(3, 40), c(4, 0)];
    let once = simplify_polyline(pts, 7);
    let twice = simplify_polyline(once.clone(), 7);
    assert_eq!(xs(&once), xs(&twice));
}

#[test]
fn looser_tolerance_never_keeps_more_vertices() {
    let pts = vec![c(0, 0), c(1, 3), c(2, 0), c(3, 40), c(4, 0), c(9, 2), c(12, 0)];
    let tight = simplify_polyline(pts.clone(), 5);
    let loose = simplify_polyline(pts.clone(), 50);
    assert!(loose.len() <= tight.len());
    assert!(tight.len() <= pts.len());
}

#[test]
fn other_geometry_passes_through_unchanged() {
    let g = Geometry::Other(String::from("{\"type\":\"Point\",\"coordinates\":[1.0,2.0]}"));
    let out = simplify_geometry(g, u128::MAX);
    match out {
        Geometry::Other(payload) => {
            assert_eq!(payload, "{\"type\":\"Point\",\"coordinates\":[1.0,2.0]}");
        }
        Geometry::LineString(_) => panic!("geometry kind changed"),
    }
}

#[test]
fn attributes_order_and_metadata_preserved() {
    let collection = FeatureCollection {
        features: vec![
            line_feature(vec![c(0, 0), c(5, 5), c(10, 10)], "{\"elev\":100}"),
            line_feature(vec![c(0, 0), c(4, 4)], "{\"elev\":200}"),
        ],
        metadata: String::from("{\"name\":\"contours\"}"),
    };
    let out = simplify(collection, 0).unwrap();
    assert_eq!(out.features.len(), 2);
    assert_eq!(out.features[0].attributes, "{\"elev\":100}");
    assert_eq!(out.features[1].attributes, "{\"elev\":200}");
    assert_eq!(out.metadata, "{\"name\":\"contours\"}");
    match &out.features[0].geometry {
        Some(Geometry::LineString(pts)) => assert_eq!(xs(pts), vec![(0, 0), (10, 10)]),
        _ => panic!("first feature lost its line string"),
    }
    match &out.features[1].geometry {
        Some(Geometry::LineString(pts)) => assert_eq!(xs(pts), vec![(0, 0), (4, 4)]),
        _ => panic!("second feature lost its line string"),
    }
}

#[test]
fn missing_geometry_fails_the_batch() {
    let collection = FeatureCollection {
        features: vec![
            line_feature(vec![c(0, 0), c(1, 1)], "{}"),
            Feature { geometry: None, attributes: String::from("{}") },
        ],
        metadata: String::new(),
    };
    assert_eq!(simplify(collection, 0).unwrap_err(), GeoError::MissingGeometry);
}

#[test]
fn empty_collection_simplifies_to_empty() {
    let collection = FeatureCollection { features: vec![], metadata: String::new() };
    let out = simplify(collection, 99).unwrap();
    assert_eq!(out.features.len(), 0);
}
