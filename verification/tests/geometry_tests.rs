use idmybee::errors::GeometryError;
use idmybee::geometry::{
    correction_correspondence, order_markers, target_quad, DetectionResult, Marker, OutputSpec,
    Point, Quad,
};

fn pt(x: i64, y: i64) -> Point {
    Point { x, y }
}

fn quad(p0: (i64, i64), p1: (i64, i64), p2: (i64, i64), p3: (i64, i64)) -> Quad {
    Quad { p0: pt(p0.0, p0.1), p1: pt(p1.0, p1.1), p2: pt(p2.0, p2.1), p3: pt(p3.0, p3.1) }
}

fn marker(id: u32, corners: Quad) -> Marker {
    Marker { id, corners }
}

fn four_markers() -> Vec<Marker> {
    vec![
        marker(0, quad((10, 11), (12, 13), (14, 15), (16, 17))),
        marker(1, quad((20, 21), (22, 23), (24, 25), (26, 27))),
        marker(2, quad((30, 31), (32, 33), (34, 35), (36, 37))),
        marker(3, quad((40, 41), (42, 43), (44, 45), (46, 47))),
    ]
}

#[test]
fn target_quad_at_unit_zoom_is_output_rectangle() {
    // 200 subpixel units per pixel: the rectangle (0,0)-(600,400) exactly.
    let spec = OutputSpec { width: 600, height: 400, zoom100: 100 };
    let q = target_quad(&spec);
    assert_eq!(q.p0, pt(0, 0));
    assert_eq!(q.p1, pt(120_000, 0));
    assert_eq!(q.p2, pt(120_000, 80_000));
    assert_eq!(q.p3, pt(0, 80_000));
}

#[test]
fn target_quad_at_zoom_one_and_a_half() {
    // top_y = -0.5*400*0.5 = -100 px, bottom_y = 500 px, right_x = 900 px.
    let spec = OutputSpec { width: 600, height: 400, zoom100: 150 };
    let q = target_quad(&spec);
    assert_eq!(q.p0, pt(0, -20_000));
    assert_eq!(q.p1, pt(180_000, -20_000));
    assert_eq!(q.p2, pt(180_000, 100_000));
    assert_eq!(q.p3, pt(0, 100_000));
}

#[test]
fn target_quad_below_unit_zoom_shrinks_symmetrically() {
    // zoom 0.5: top_y = +0.25*h, bottom_y = 0.75*h, right_x = 0.5*w.
    let spec = OutputSpec { width: 600, height: 400, zoom100: 50 };
    let q = target_quad(&spec);
    assert_eq!(q.p0, pt(0, 20_000));
    assert_eq!(q.p1, pt(60_000, 20_000));
    assert_eq!(q.p2, pt(60_000, 60_000));
    assert_eq!(q.p3, pt(0, 60_000));
}

#[test]
fn order_markers_picks_each_markers_own_corner() {
    let detection = DetectionResult { markers: four_markers(), rejected: vec![] };
    let q = order_markers(&detection).unwrap();
    assert_eq!(q.p0, pt(10, 11));
    assert_eq!(q.p1, pt(22, 23));
    assert_eq!(q.p2, pt(34, 35));
    assert_eq!(q.p3, pt(46, 47));
}

#[test]
fn order_markers_is_order_independent() {
    let mut markers = four_markers();
    let straight = order_markers(&DetectionResult { markers: markers.clone(), rejected: vec![] })
        .unwrap();
    markers.reverse();
    markers.swap(0, 2);
    let shuffled = order_markers(&DetectionResult { markers, rejected: vec![] }).unwrap();
    assert_eq!(straight, shuffled);
}

#[test]
fn order_markers_ignores_foreign_identities() {
    let mut markers = four_markers();
    markers.push(marker(7, quad((90, 90), (91, 91), (92, 92), (93, 93))));
    let q = order_markers(&DetectionResult { markers, rejected: vec![] }).unwrap();
    assert_eq!(q.p0, pt(10, 11));
    assert_eq!(q.p3, pt(46, 47));
}

#[test]
fn order_markers_with_three_markers_reports_count_three() {
    let mut markers = four_markers();
    markers.pop();
    let rejected = vec![quad((0, 0), (2, 0), (2, 2), (0, 2))];
    let err = order_markers(&DetectionResult { markers, rejected }).unwrap_err();
    assert_eq!(err.count, 3);
    // Centroids come back exact, as four times the mean: (1, 1) scaled by 4.
    assert_eq!(err.rejected_centroids.len(), 1);
    assert_eq!(err.rejected_centroids[0], pt(4, 4));
}

#[test]
fn order_markers_rejects_duplicate_identities() {
    let mut markers = four_markers();
    markers[3] = marker(2, quad((50, 50), (51, 51), (52, 52), (53, 53)));
    let err = order_markers(&DetectionResult { markers, rejected: vec![] }).unwrap_err();
    assert_eq!(err.count, 4);
}

#[test]
fn order_markers_rejects_empty_detection() {
    let err = order_markers(&DetectionResult { markers: vec![], rejected: vec![] }).unwrap_err();
    assert_eq!(err.count, 0);
    assert!(err.rejected_centroids.is_empty());
}

#[test]
fn correspondence_pairs_canonical_and_target_quads() {
    let detection = DetectionResult { markers: four_markers(), rejected: vec![] };
    let spec = OutputSpec { width: 600, height: 400, zoom100: 100 };
    let c = correction_correspondence(&detection, &spec).unwrap();
    assert_eq!(c.source.p0, pt(10, 11));
    assert_eq!(c.target.p2, pt(120_000, 80_000));
}

#[test]
fn already_rectified_quad_at_unit_zoom_maps_to_itself() {
    // The canonical quad already sits on the crop rectangle (in subpixel
    // units); at zoom 1 the solve is handed an identity correspondence.
    let rect = quad((0, 0), (120_000, 0), (120_000, 80_000), (0, 80_000));
    // Each marker's own corner lands on the rectangle.
    let markers = vec![
        marker(0, quad((0, 0), (1, 1), (2, 2), (3, 3))),
        marker(1, quad((4, 4), (120_000, 0), (5, 5), (6, 6))),
        marker(2, quad((7, 7), (8, 8), (120_000, 80_000), (9, 9))),
        marker(3, quad((10, 10), (11, 11), (12, 12), (0, 80_000))),
    ];
    let detection = DetectionResult { markers, rejected: vec![] };
    let spec = OutputSpec { width: 600, height: 400, zoom100: 100 };
    let c = correction_correspondence(&detection, &spec).unwrap();
    assert_eq!(c.source, rect);
    assert_eq!(c.source, c.target);
}

#[test]
fn geometry_error_variants_are_distinct() {
    assert_ne!(GeometryError::DegenerateQuad, GeometryError::WarpSizeMismatch);
}
