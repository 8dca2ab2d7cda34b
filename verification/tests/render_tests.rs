use terrain_image_generator::geometry::Coord;
use terrain_image_generator::geometry::Feature;
use terrain_image_generator::geometry::FeatureCollection;
use terrain_image_generator::geometry::GeoError;
use terrain_image_generator::geometry::Geometry;
use terrain_image_generator::render::bounding_box;
use terrain_image_generator::render::render;
use terrain_image_generator::simplify::simplify;

fn c(x: i64, y: i64) -> Coord {
    Coord { x, y }
}

fn line_feature(pts: Vec<Coord>) -> Feature {
    Feature {
        geometry: Some(Geometry::LineString(pts)),
        attributes: String::new(),
    }
}

fn collection(features: Vec<Feature>) -> FeatureCollection {
    FeatureCollection { features, metadata: String::new() }
}

fn path_points(
    d: &terrain_image_generator::render::Drawing,
    i: usize,
) -> Vec<(u64, u64)> {
    d.paths[i].points.iter().map(|p| (p.x, p.y)).collect()
}

#[test]
fn bounding_box_spans_all_features() {
    let coll = collection(vec![
        line_feature(vec![c(0, 0), c(10, 0)]),
        line_feature(vec![c(10, 5), c(0, 5)]),
    ]);
    let b = bounding_box(&coll).unwrap();
    assert_eq!((b.min_x, b.min_y, b.max_x, b.max_y), (0, 0, 10, 5));
}

#[test]
fn bounding_box_of_empty_collection_is_none() {
    let coll = collection(vec![]);
    assert!(bounding_box(&coll).is_none());
}

#[test]
fn corners_map_onto_canvas_with_vertical_flip() {
    let coll = collection(vec![line_feature(vec![
        c(0, 0),
        c(10, 0),
        c(10, 5),
        c(0, 5),
    ])]);
    let d = render(&coll, 1000, 600).unwrap();
    assert_eq!(d.width, 1000);
    assert_eq!(d.height, 600);
    assert_eq!(d.stroke_width, 1);
    assert_eq!(d.paths.len(), 1);
    assert_eq!(
        path_points(&d, 0),
        vec![(0, 600), (1000, 600), (1000, 0), (0, 0)]
    );
}

#[test]
fn rendering_empty_collection_fails() {
    let coll = collection(vec![]);
    assert_eq!(render(&coll, 1000, 600).unwrap_err(), GeoError::EmptyGeometry);
}

#[test]
fn rendering_only_other_geometry_fails() {
    let coll = collection(vec![Feature {
        geometry: Some(Geometry::Other(String::from("{}"))),
        attributes: String::new(),
    }]);
    assert_eq!(render(&coll, 1000, 600).unwrap_err(), GeoError::EmptyGeometry);
}

#[test]
fn single_point_renders_at_bottom_left() {
    // Both axes are degenerate, so both scales fall back to 1 and the
    // point lands at canvas (0, height).
    let coll = collection(vec![line_feature(vec![c(7, 9)])]);
    let d = render(&coll, 1000, 600).unwrap();
    assert_eq!(d.paths.len(), 1);
    assert_eq!(path_points(&d, 0), vec![(0, 600)]);
}

#[test]
fn degenerate_vertical_axis_uses_unit_scale() {
    let coll = collection(vec![line_feature(vec![c(0, 5), c(10, 5)])]);
    let d = render(&coll, 100, 50).unwrap();
    assert_eq!(path_points(&d, 0), vec![(0, 50), (100, 50)]);
}

#[test]
fn non_line_geometry_produces_no_path() {
    let coll = collection(vec![
        Feature {
            geometry: Some(Geometry::Other(String::from("{}"))),
            attributes: String::new(),
        },
        line_feature(vec![c(0, 0), c(2, 2)]),
        Feature { geometry: None, attributes: String::new() },
    ]);
    let d = render(&coll, 100, 100).unwrap();
    assert_eq!(d.paths.len(), 1);
    assert_eq!(path_points(&d, 0), vec![(0, 100), (100, 0)]);
}

#[test]
fn truncating_division_keeps_points_inside_canvas() {
    let coll = collection(vec![line_feature(vec![c(0, 0), c(1, 1), c(3, 3)])]);
    let d = render(&coll, 1000, 600).unwrap();
    // 1 * 1000 / 3 truncates to 333; 600 - 1 * 600 / 3 = 400.
    assert_eq!(
        path_points(&d, 0),
        vec![(0, 600), (333, 400), (1000, 0)]
    );
}

#[test]
fn simplify_then_render_end_to_end() {
    // One nearly-collinear five-point polyline and one two-point
    // polyline; a tolerance loose enough to empty the first one's
    // interior leaves exactly two two-point paths.
    let coll = collection(vec![
        line_feature(vec![c(0, 0), c(2, 1), c(4, 0), c(6, 1), c(8, 0)]),
        line_feature(vec![c(0, 4), c(8, 4)]),
    ]);
    let simplified = simplify(coll, 100).unwrap();
    match &simplified.features[0].geometry {
        Some(Geometry::LineString(pts)) => {
            assert_eq!(pts.len(), 2);
            assert_eq!((pts[0].x, pts[0].y), (0, 0));
            assert_eq!((pts[1].x, pts[1].y), (8, 0));
        }
        _ => panic!("first feature lost its line string"),
    }
    match &simplified.features[1].geometry {
        Some(Geometry::LineString(pts)) => assert_eq!(pts.len(), 2),
        _ => panic!("second feature lost its line string"),
    }
    let d = render(&simplified, 800, 400).unwrap();
    assert_eq!(d.paths.len(), 2);
    assert_eq!(path_points(&d, 0), vec![(0, 400), (800, 400)]);
    assert_eq!(path_points(&d, 1), vec![(0, 0), (800, 0)]);
}
