//! Geometric core: pixel points in exact subpixel units, marker-to-corner
//! assignment, and the zoom-parameterized target quadrilateral of the
//! perspective solve.

use vstd::prelude::*;
use vstd::multiset::Multiset;
use crate::errors::MarkerCountMismatch;

verus! {

broadcast use vstd::multiset::group_multiset_axioms, vstd::seq_lib::group_to_multiset_ensures;

/// Coordinate units per image pixel.  Coordinates are integers in this
/// subpixel unit, so the target quadrilateral of the perspective solve is
/// exact: with the zoom held in hundredths, its corners are multiples of
/// 1/200 pixel (the extra factor 2 comes from the halved symmetric margin).
pub const SUBPIX: i64 = 200;

/// Largest accepted output width or height, in pixels.  A bound is needed so
/// that pixel buffers (4 bytes per pixel) and subpixel coordinates stay
/// representable.
pub const MAX_DIM: u32 = 1_000_000;

/// Largest accepted zoom, in hundredths (a zoom factor of 1000).  A bound is
/// needed so that target-quadrilateral coordinates stay representable.
pub const MAX_ZOOM100: u32 = 100_000;

/// Largest coordinate magnitude a detected point may carry, so that corner
/// sums of a quadrilateral cannot overflow `i64`.
pub const COORD_LIMIT: i64 = 0x1000_0000_0000_0000;

/// One pixel position, in subpixel units ([`SUBPIX`] units per pixel).
#[derive(Clone, Copy, PartialEq, Eq, Structural, Debug)]
pub struct Point {
    pub x: i64,
    pub y: i64,
}

/// Four corners of one marker or of the card's outer boundary, in a fixed
/// rotational order starting at the marker's own top-left.
#[derive(Clone, Copy, PartialEq, Eq, Structural, Debug)]
pub struct Quad {
    pub p0: Point,
    pub p1: Point,
    pub p2: Point,
    pub p3: Point,
}

/// One detected fiducial marker: a decoded identity and the corners of the
/// marker's own square.
#[derive(Clone, Copy, PartialEq, Eq, Structural, Debug)]
pub struct Marker {
    pub id: u32,
    pub corners: Quad,
}

/// Everything one run of the external detector reports: the resolved
/// markers, and the candidate quadrilaterals it rejected (kept only for
/// diagnostics).
#[derive(Clone, Debug)]
pub struct DetectionResult {
    pub markers: Vec<Marker>,
    pub rejected: Vec<Quad>,
}

/// The caller-chosen output rectangle and zoom (zoom in hundredths, so 100
/// is a zoom factor of 1).
#[derive(Clone, Copy, PartialEq, Eq, Structural, Debug)]
pub struct OutputSpec {
    pub width: u32,
    pub height: u32,
    pub zoom100: u32,
}

/// A point from mathematical coordinates (meaningful only in `i64` range).
pub open spec fn pt(x: int, y: int) -> Point {
    Point { x: x as i64, y: y as i64 }
}

pub open spec fn coord_bounded(p: Point) -> bool {
    &&& -COORD_LIMIT <= p.x <= COORD_LIMIT
    &&& -COORD_LIMIT <= p.y <= COORD_LIMIT
}

impl Quad {
    /// Corner at position `i` of the fixed rotational order.
    pub open spec fn idx(self, i: int) -> Point {
        if i == 0 {
            self.p0
        } else if i == 1 {
            self.p1
        } else if i == 2 {
            self.p2
        } else {
            self.p3
        }
    }

    pub open spec fn bounded(self) -> bool {
        &&& coord_bounded(self.p0)
        &&& coord_bounded(self.p1)
        &&& coord_bounded(self.p2)
        &&& coord_bounded(self.p3)
    }

    /// Corner at position `i`, 0 to 3.
    pub fn corner(&self, i: u32) -> (r: Point)
        requires
            i < 4,
        ensures
            r == self.idx(i as int),
    {
        if i == 0 {
            self.p0
        } else if i == 1 {
            self.p1
        } else if i == 2 {
            self.p2
        } else {
            self.p3
        }
    }

    /// Sum of the four corners: four times the centroid, kept exact in
    /// integers (so in quarter-subpixel units).
    pub fn corner_sum(&self) -> (r: Point)
        requires
            self.bounded(),
        ensures
            r.x == self.p0.x + self.p1.x + self.p2.x + self.p3.x,
            r.y == self.p0.y + self.p1.y + self.p2.y + self.p3.y,
    {
        Point { x: self.p0.x + self.p1.x + self.p2.x + self.p3.x, y: self.p0.y + self.p1.y + self.p2.y + self.p3.y }
    }
}

impl OutputSpec {
    /// Dimensions are positive and small enough for pixel buffers; the zoom
    /// is positive and small enough for subpixel coordinates.
    pub open spec fn is_valid(self) -> bool {
        &&& 1 <= self.width <= MAX_DIM
        &&& 1 <= self.height <= MAX_DIM
        &&& 1 <= self.zoom100 <= MAX_ZOOM100
    }

    pub fn check_valid(&self) -> (r: bool)
        ensures
            r == self.is_valid(),
    {
        1 <= self.width && self.width <= MAX_DIM && 1 <= self.height && self.height <= MAX_DIM
            && 1 <= self.zoom100 && self.zoom100 <= MAX_ZOOM100
    }
}

/// The axis-aligned rectangle (0,0)-(w,h), as a quadrilateral in subpixel
/// units, in the same corner order as a canonical quadrilateral.
pub open spec fn rect_quad_spec(w: u32, h: u32) -> Quad {
    Quad {
        p0: pt(0, 0),
        p1: pt(SUBPIX * w, 0),
        p2: pt(SUBPIX * w, SUBPIX * h),
        p3: pt(0, SUBPIX * h),
    }
}

/// The zoom-expanded target quadrilateral: at zoom z (in hundredths of
/// `spec.zoom100`), the rectangle widened to w*z and grown symmetrically by
/// half the extra height above and below, in subpixel units.
pub open spec fn target_quad_spec(spec: OutputSpec) -> Quad {
    let w = spec.width as int;
    let h = spec.height as int;
    let z = spec.zoom100 as int;
    let top_y = -(h * (z - 100));
    let bot_y = 200 * h + h * (z - 100);
    let right_x = (2 * w) * z;
    Quad { p0: pt(0, top_y), p1: pt(right_x, top_y), p2: pt(right_x, bot_y), p3: pt(0, bot_y) }
}

/// Builds the target quadrilateral handed to the perspective solve.  At a
/// zoom of exactly 1 it is exactly the output rectangle, so the markers map
/// precisely onto the crop boundary.
pub fn target_quad(spec: &OutputSpec) -> (r: Quad)
    requires
        spec.is_valid(),
    ensures
        r == target_quad_spec(*spec),
        spec.zoom100 == 100 ==> r == rect_quad_spec(spec.width, spec.height),
{
    let w = spec.width as i64;
    let h = spec.height as i64;
    let z = spec.zoom100 as i64;
    proof {
        lemma_target_coords_bounded(w as int, h as int, z as int);
        if z == 100 {
            assert(((h as int)) * ((z as int) - 100) == 0) by (nonlinear_arith)
                requires
                    z == 100,
            ;
            assert((2 * (w as int)) * (z as int) == 200 * (w as int)) by (nonlinear_arith)
                requires
                    z == 100,
            ;
        }
    }
    let top_y = -(h * (z - 100));
    let bot_y = 200 * h + h * (z - 100);
    let right_x = (2 * w) * z;
    Quad {
        p0: Point { x: 0, y: top_y },
        p1: Point { x: right_x, y: top_y },
        p2: Point { x: right_x, y: bot_y },
        p3: Point { x: 0, y: bot_y },
    }
}

proof fn lemma_target_coords_bounded(w: int, h: int, z: int)
    requires
        1 <= w <= MAX_DIM,
        1 <= h <= MAX_DIM,
        1 <= z <= MAX_ZOOM100,
    ensures
        -0x10000000000000 <= h * (z - 100) <= 0x10000000000000,
        0 <= (2 * w) * z <= 0x10000000000000,
{
    assert(h * (z - 100) <= 1_000_000 * 100_000) by (nonlinear_arith)
        requires
            1 <= h <= 1_000_000,
            z <= 100_000,
    ;
    assert(h * (z - 100) >= -(1_000_000 * 100)) by (nonlinear_arith)
        requires
            1 <= h <= 1_000_000,
            1 <= z,
    ;
    assert(0 <= (2 * w) * z <= 2_000_000 * 100_000) by (nonlinear_arith)
        requires
            1 <= w <= 1_000_000,
            1 <= z <= 100_000,
    ;
}

/// The resolved markers carrying layout identity `id`.
pub open spec fn with_id(d: Multiset<Marker>, id: u32) -> Multiset<Marker> {
    d.filter(|m: Marker| m.id == id)
}

/// How many detected markers carry layout identity `id`.
pub open spec fn id_count(d: Multiset<Marker>, id: u32) -> nat {
    with_id(d, id).len()
}

/// How many detected markers carry one of the four layout identities.
pub open spec fn resolved_count(d: Multiset<Marker>) -> nat {
    (id_count(d, 0) + id_count(d, 1) + id_count(d, 2) + id_count(d, 3)) as nat
}

/// Each of the four layout identities 0 to 3 was resolved exactly once.
/// Markers with other identities do not matter either way.
pub open spec fn ids_complete(d: Multiset<Marker>) -> bool {
    forall|id: u32| id < 4 ==> #[trigger] id_count(d, id) == 1
}

/// The corner that the marker with identity `id` contributes to the card's
/// outer boundary: the corner of the marker's own square at the position
/// matching its identity.
pub open spec fn canonical_corner(d: Multiset<Marker>, id: u32) -> Point {
    (choose|m: Marker| d.contains(m) && m.id == id).corners.idx(id as int)
}

/// The card's outer boundary, read off a complete detection.
pub open spec fn canonical_quad_spec(d: Multiset<Marker>) -> Quad {
    Quad {
        p0: canonical_corner(d, 0),
        p1: canonical_corner(d, 1),
        p2: canonical_corner(d, 2),
        p3: canonical_corner(d, 3),
    }
}

/// The sum of a quadrilateral's corners: four times its centroid, exact.
pub open spec fn corner_sum_spec(q: Quad) -> Point {
    pt(q.p0.x + q.p1.x + q.p2.x + q.p3.x, q.p0.y + q.p1.y + q.p2.y + q.p3.y)
}

proof fn lemma_with_id_insert(d: Multiset<Marker>, m: Marker, id: u32)
    ensures
        m.id == id ==> with_id(d.insert(m), id) == with_id(d, id).insert(m),
        m.id != id ==> with_id(d.insert(m), id) == with_id(d, id),
        id_count(d.insert(m), id) == id_count(d, id) + (if m.id == id {
            1int
        } else {
            0int
        }),
{
    if m.id == id {
        assert(with_id(d.insert(m), id) =~= with_id(d, id).insert(m));
    } else {
        assert(with_id(d.insert(m), id) =~= with_id(d, id));
    }
}

proof fn lemma_unique_with_id(d: Multiset<Marker>, id: u32, m1: Marker, m2: Marker)
    requires
        id_count(d, id) == 1,
        d.contains(m1),
        m1.id == id,
        d.contains(m2),
        m2.id == id,
    ensures
        m1 == m2,
{
    if m1 != m2 {
        let w = with_id(d, id);
        assert(w.count(m1) == d.count(m1));
        assert(w.count(m2) == d.count(m2));
        assert(Multiset::singleton(m1).subset_of(w)) by {
            assert forall|v: Marker| Multiset::singleton(m1).count(v) <= w.count(v) by {
                if v == m1 {
                    assert(w.count(m1) >= 1);
                }
            }
        }
        let w2 = w.remove(m1);
        assert(w2.len() == w.len() - 1);
        assert(w2.count(m2) == w.count(m2));
        assert(w2.count(m2) <= w2.len());
        assert(false);
    }
}

proof fn lemma_canonical_corner_unique(d: Multiset<Marker>, id: u32, m: Marker)
    requires
        id_count(d, id) == 1,
        d.contains(m),
        m.id == id,
    ensures
        canonical_corner(d, id) == m.corners.idx(id as int),
{
    let c = choose|mm: Marker| d.contains(mm) && mm.id == id;
    assert(d.contains(c) && c.id == id);
    lemma_unique_with_id(d, id, c, m);
}

/// The multiset of markers seen after `i` of them were read.
spec fn prefix_detected(markers: Seq<Marker>, i: int) -> Multiset<Marker> {
    markers.subrange(0, i).to_multiset()
}

proof fn lemma_detected_empty()
    ensures
        Seq::<Marker>::empty().to_multiset() == Multiset::<Marker>::empty(),
        forall|id: u32| #[trigger] id_count(Multiset::<Marker>::empty(), id) == 0,
{
    Seq::<Marker>::empty().to_multiset_ensures();
    vstd::multiset::lemma_multiset_empty_len(Seq::<Marker>::empty().to_multiset());
    assert forall|id: u32| #[trigger] id_count(Multiset::<Marker>::empty(), id) == 0 by {
        assert(with_id(Multiset::<Marker>::empty(), id) =~= Multiset::<Marker>::empty());
    }
}

proof fn lemma_prefix_detected_step(s: Seq<Marker>, i: int)
    requires
        0 <= i < s.len(),
    ensures
        prefix_detected(s, i + 1) == prefix_detected(s, i).insert(s[i]),
{
    assert(s.subrange(0, i + 1) =~= s.subrange(0, i).push(s[i]));
    s.subrange(0, i).to_multiset_ensures();
}

/// Converts the detector's output into the card's canonical outer
/// quadrilateral: the marker with identity `id` contributes its own corner
/// at position `id`.  Succeeds exactly when each of the four layout
/// identities 0 to 3 was resolved exactly once (markers with other
/// identities are ignored); the result depends only on which (identity,
/// corners) pairs were detected, never on their order.  On failure, the
/// error carries the number of markers with a layout identity and the
/// corner sums of the rejected candidates.
pub fn order_markers(detection: &DetectionResult) -> (r: Result<Quad, MarkerCountMismatch>)
    requires
        forall|i: int|
            0 <= i < detection.rejected@.len() ==> (#[trigger] detection.rejected@[i]).bounded(),
    ensures
        ({
            let d = detection.markers@.to_multiset();
            match r {
                Ok(q) => ids_complete(d) && q == canonical_quad_spec(d),
                Err(e) => {
                    &&& !ids_complete(d)
                    &&& e.count == resolved_count(d)
                    &&& e.rejected_centroids@.len() == detection.rejected@.len()
                    &&& forall|i: int|
                        0 <= i < detection.rejected@.len()
                            ==> #[trigger] e.rejected_centroids@[i] == corner_sum_spec(
                            detection.rejected@[i],
                        )
                },
            }
        }),
{
    let markers = &detection.markers;
    let ghost s = detection.markers@;
    let mut c0: Option<Point> = None;
    let mut c1: Option<Point> = None;
    let mut c2: Option<Point> = None;
    let mut c3: Option<Point> = None;
    let mut n0: usize = 0;
    let mut n1: usize = 0;
    let mut n2: usize = 0;
    let mut n3: usize = 0;
    let mut resolved: usize = 0;
    let mut i: usize = 0;
    proof {
        assert(s.subrange(0, 0) =~= Seq::<Marker>::empty());
        lemma_detected_empty();
    }
    while i < markers.len()
        invariant
            s == detection.markers@,
            markers@ == s,
            i <= s.len(),
            n0 == id_count(prefix_detected(s, i as int), 0),
            n1 == id_count(prefix_detected(s, i as int), 1),
            n2 == id_count(prefix_detected(s, i as int), 2),
            n3 == id_count(prefix_detected(s, i as int), 3),
            resolved == resolved_count(prefix_detected(s, i as int)),
            resolved <= i,
            n0 <= i && n1 <= i && n2 <= i && n3 <= i,
            c0 is None <==> n0 == 0,
            c1 is None <==> n1 == 0,
            c2 is None <==> n2 == 0,
            c3 is None <==> n3 == 0,
            c0 is Some ==> (exists|m: Marker|
                #[trigger] prefix_detected(s, i as int).contains(m) && m.id == 0 && c0.unwrap()
                    == m.corners.idx(0)),
            c1 is Some ==> (exists|m: Marker|
                #[trigger] prefix_detected(s, i as int).contains(m) && m.id == 1 && c1.unwrap()
                    == m.corners.idx(1)),
            c2 is Some ==> (exists|m: Marker|
                #[trigger] prefix_detected(s, i as int).contains(m) && m.id == 2 && c2.unwrap()
                    == m.corners.idx(2)),
            c3 is Some ==> (exists|m: Marker|
                #[trigger] prefix_detected(s, i as int).contains(m) && m.id == 3 && c3.unwrap()
                    == m.corners.idx(3)),
        decreases s.len() - i,
    {
        let m = markers[i];
        proof {
            lemma_prefix_detected_step(s, i as int);
            lemma_with_id_insert(prefix_detected(s, i as int), m, 0);
            lemma_with_id_insert(prefix_detected(s, i as int), m, 1);
            lemma_with_id_insert(prefix_detected(s, i as int), m, 2);
            lemma_with_id_insert(prefix_detected(s, i as int), m, 3);
            assert(prefix_detected(s, i + 1 as int).contains(m));
            assert(forall|w: Marker|
                prefix_detected(s, i as int).contains(w) ==> #[trigger] prefix_detected(
                    s,
                    i + 1 as int,
                ).contains(w));
            if c0 is Some {
                let w = choose|mm: Marker|
                    #[trigger] prefix_detected(s, i as int).contains(mm) && mm.id == 0
                        && c0.unwrap() == mm.corners.idx(0);
                assert(prefix_detected(s, i + 1 as int).contains(w));
            }
            if c1 is Some {
                let w = choose|mm: Marker|
                    #[trigger] prefix_detected(s, i as int).contains(mm) && mm.id == 1
                        && c1.unwrap() == mm.corners.idx(1);
                assert(prefix_detected(s, i + 1 as int).contains(w));
            }
            if c2 is Some {
                let w = choose|mm: Marker|
                    #[trigger] prefix_detected(s, i as int).contains(mm) && mm.id == 2
                        && c2.unwrap() == mm.corners.idx(2);
                assert(prefix_detected(s, i + 1 as int).contains(w));
            }
            if c3 is Some {
                let w = choose|mm: Marker|
                    #[trigger] prefix_detected(s, i as int).contains(mm) && mm.id == 3
                        && c3.unwrap() == mm.corners.idx(3);
                assert(prefix_detected(s, i + 1 as int).contains(w));
            }
        }
        if m.id < 4 {
            resolved = resolved + 1;
            let corner = m.corners.corner(m.id);
            if m.id == 0 {
                n0 = n0 + 1;
                if c0.is_none() {
                    c0 = Some(corner);
                }
            } else if m.id == 1 {
                n1 = n1 + 1;
                if c1.is_none() {
                    c1 = Some(corner);
                }
            } else if m.id == 2 {
                n2 = n2 + 1;
                if c2.is_none() {
                    c2 = Some(corner);
                }
            } else {
                n3 = n3 + 1;
                if c3.is_none() {
                    c3 = Some(corner);
                }
            }
        }
        i = i + 1;
    }
    proof {
        assert(s.subrange(0, s.len() as int) =~= s);
    }
    let ghost d = s.to_multiset();
    if n0 == 1 && n1 == 1 && n2 == 1 && n3 == 1 {
        proof {
            assert forall|id: u32| id < 4 implies #[trigger] id_count(d, id) == 1 by {
                assert(id == 0 || id == 1 || id == 2 || id == 3);
            }
            let m0 = choose|m: Marker| #[trigger] d.contains(m) && m.id == 0 && c0.unwrap()
                == m.corners.idx(0);
            lemma_canonical_corner_unique(d, 0, m0);
            let m1 = choose|m: Marker| #[trigger] d.contains(m) && m.id == 1 && c1.unwrap()
                == m.corners.idx(1);
            lemma_canonical_corner_unique(d, 1, m1);
            let m2 = choose|m: Marker| #[trigger] d.contains(m) && m.id == 2 && c2.unwrap()
                == m.corners.idx(2);
            lemma_canonical_corner_unique(d, 2, m2);
            let m3 = choose|m: Marker| #[trigger] d.contains(m) && m.id == 3 && c3.unwrap()
                == m.corners.idx(3);
            lemma_canonical_corner_unique(d, 3, m3);
        }
        Ok(Quad { p0: c0.unwrap(), p1: c1.unwrap(), p2: c2.unwrap(), p3: c3.unwrap() })
    } else {
        let mut centroids: Vec<Point> = Vec::new();
        let mut j: usize = 0;
        while j < detection.rejected.len()
            invariant
                forall|k: int|
                    0 <= k < detection.rejected@.len() ==> (
                    #[trigger] detection.rejected@[k]).bounded(),
                j <= detection.rejected@.len(),
                centroids@.len() == j,
                forall|k: int|
                    0 <= k < j ==> #[trigger] centroids@[k] == corner_sum_spec(
                        detection.rejected@[k],
                    ),
            decreases detection.rejected@.len() - j,
        {
            let sum = detection.rejected[j].corner_sum();
            centroids.push(sum);
            j = j + 1;
        }
        Err(MarkerCountMismatch { count: resolved, rejected_centroids: centroids })
    }
}

/// The canonical quadrilateral is invariant under permutation of detection
/// order: two detections whose (identity, corners) pairs form the same
/// multiset — that is, one lists the markers of the other in some other
/// order — agree on whether ordering succeeds, on the resolved count, and
/// on the canonical quadrilateral itself.
pub proof fn lemma_order_markers_permutation_invariant(s1: Seq<Marker>, s2: Seq<Marker>)
    requires
        s1.to_multiset() == s2.to_multiset(),
    ensures
        ids_complete(s1.to_multiset()) == ids_complete(s2.to_multiset()),
        resolved_count(s1.to_multiset()) == resolved_count(s2.to_multiset()),
        canonical_quad_spec(s1.to_multiset()) == canonical_quad_spec(s2.to_multiset()),
{
}

/// The point correspondence handed to the perspective solve: each corner of
/// the card's canonical quadrilateral maps to the matching corner of the
/// zoom-expanded target quadrilateral.
#[derive(Clone, Copy, PartialEq, Eq, Structural, Debug)]
pub struct Correspondence {
    pub source: Quad,
    pub target: Quad,
}

/// Validates one detection against one output request and builds the
/// correspondence for the perspective solve: the canonical quadrilateral as
/// the source, the zoom's target quadrilateral as the destination.  Whether
/// the four source points admit a transform is for the solver to decide;
/// everything decidable from the detection alone is decided here.
pub fn correction_correspondence(detection: &DetectionResult, spec: &OutputSpec) -> (r: Result<
    Correspondence,
    MarkerCountMismatch,
>)
    requires
        spec.is_valid(),
        forall|i: int|
            0 <= i < detection.rejected@.len() ==> (#[trigger] detection.rejected@[i]).bounded(),
    ensures
        ({
            let d = detection.markers@.to_multiset();
            match r {
                Ok(c) => {
                    &&& ids_complete(d)
                    &&& c.source == canonical_quad_spec(d)
                    &&& c.target == target_quad_spec(*spec)
                },
                Err(e) => {
                    &&& !ids_complete(d)
                    &&& e.count == resolved_count(d)
                    &&& e.rejected_centroids@.len() == detection.rejected@.len()
                    &&& forall|i: int|
                        0 <= i < detection.rejected@.len()
                            ==> #[trigger] e.rejected_centroids@[i] == corner_sum_spec(
                            detection.rejected@[i],
                        )
                },
            }
        }),
{
    let source = order_markers(detection)?;
    let target = target_quad(spec);
    Ok(Correspondence { source, target })
}

/// If the card's canonical quadrilateral already coincides with the output
/// rectangle and the zoom is 1, the point correspondence handed to the
/// perspective solve maps that quadrilateral to itself, so the solved
/// transform is the identity correspondence.
pub proof fn lemma_identity_correspondence_at_zoom_one(q: Quad, spec: OutputSpec)
    requires
        spec.is_valid(),
        spec.zoom100 == 100,
        q == rect_quad_spec(spec.width, spec.height),
    ensures
        target_quad_spec(spec) == q,
{
}

} // verus!
