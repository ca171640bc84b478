//! Geometries as coordinate nestings, and the bounding box each one spans.
//!
//! Coordinates are fixed-point numbers in millionths of a degree, longitude
//! before latitude. A position may carry further values (elevation); the
//! bounding box reads only the first two.

use vstd::prelude::*;
use vstd::math::{max, min};

verus! {

/// A geometry: a typed nesting of coordinate positions.
#[derive(Debug, PartialEq, Eq)]
pub enum Geometry {
    /// A single position.
    Point { coordinates: Vec<i64> },
    /// A line of positions.
    LineString { coordinates: Vec<Vec<i64>> },
    /// Rings of positions; the first ring is the outer boundary.
    Polygon { coordinates: Vec<Vec<Vec<i64>>> },
    /// Several single positions.
    MultiPoint { coordinates: Vec<Vec<i64>> },
    /// Several lines.
    MultiLineString { coordinates: Vec<Vec<Vec<i64>>> },
    /// Several polygons.
    MultiPolygon { coordinates: Vec<Vec<Vec<Vec<i64>>>> },
    /// A collection of geometries.
    GeometryCollection { geometries: Vec<Geometry> },
}

/// A bounding box under construction: least longitude, least latitude,
/// greatest longitude, greatest latitude.
pub type BboxAcc = (int, int, int, int);

/// Folds one position into a bounding box.
pub open spec fn bbox_step(acc: BboxAcc, p: Seq<i64>) -> BboxAcc
    recommends
        p.len() >= 2,
{
    (
        min(acc.0, p[0] as int),
        min(acc.1, p[1] as int),
        max(acc.2, p[0] as int),
        max(acc.3, p[1] as int),
    )
}

/// Folds a run of positions into a bounding box.
pub open spec fn bbox_fold(ps: Seq<Seq<i64>>, init: BboxAcc) -> BboxAcc
    decreases ps.len(),
{
    if ps.len() == 0 {
        init
    } else {
        bbox_step(bbox_fold(ps.drop_last(), init), ps.last())
    }
}

/// Folds rings of positions into a bounding box.
pub open spec fn bbox_fold2(rs: Seq<Seq<Seq<i64>>>, init: BboxAcc) -> BboxAcc
    decreases rs.len(),
{
    if rs.len() == 0 {
        init
    } else {
        bbox_fold(rs.last(), bbox_fold2(rs.drop_last(), init))
    }
}

/// Folds polygons of rings of positions into a bounding box.
pub open spec fn bbox_fold3(gs: Seq<Seq<Seq<Seq<i64>>>>, init: BboxAcc) -> BboxAcc
    decreases gs.len(),
{
    if gs.len() == 0 {
        init
    } else {
        bbox_fold2(gs.last(), bbox_fold3(gs.drop_last(), init))
    }
}

/// The seed box spanning the single position `p`.
pub open spec fn bbox_seed(p: Seq<i64>) -> BboxAcc
    recommends
        p.len() >= 2,
{
    (p[0] as int, p[1] as int, p[0] as int, p[1] as int)
}

/// The box that stands for a geometry with nothing to span.
pub open spec fn bbox_zero() -> BboxAcc {
    (0, 0, 0, 0)
}

/// Whether every position in the geometry carries at least longitude and
/// latitude.
pub open spec fn geom_wf(g: Geometry) -> bool
    decreases g,
{
    match g {
        Geometry::Point { coordinates } => true,
        Geometry::LineString { coordinates } => forall|i: int|
            0 <= i < coordinates@.len() ==> (#[trigger] coordinates@[i])@.len() >= 2,
        Geometry::MultiPoint { coordinates } => forall|i: int|
            0 <= i < coordinates@.len() ==> (#[trigger] coordinates@[i])@.len() >= 2,
        Geometry::Polygon { coordinates } => forall|i: int, j: int|
            0 <= i < coordinates@.len() && 0 <= j < (#[trigger] coordinates@[i])@.len() ==> (
            #[trigger] coordinates@[i]@[j])@.len() >= 2,
        Geometry::MultiLineString { coordinates } => forall|i: int, j: int|
            0 <= i < coordinates@.len() && 0 <= j < (#[trigger] coordinates@[i])@.len() ==> (
            #[trigger] coordinates@[i]@[j])@.len() >= 2,
        Geometry::MultiPolygon { coordinates } => forall|i: int, j: int, k: int|
            0 <= i < coordinates@.len() && 0 <= j < (#[trigger] coordinates@[i])@.len() && 0 <= k
                < (#[trigger] coordinates@[i]@[j])@.len() ==> (
            #[trigger] coordinates@[i]@[j]@[k])@.len() >= 2,
        Geometry::GeometryCollection { geometries } => forall|i: int|
            0 <= i < geometries@.len() ==> geom_wf(#[trigger] geometries@[i]),
    }
}

/// The bounding box a geometry spans, as the least and greatest longitude
/// and latitude over its positions, in the order least longitude, least
/// latitude, greatest longitude, greatest latitude. A geometry with nothing
/// to span yields the zero box.
pub open spec fn spec_geom_bbox(g: Geometry) -> BboxAcc
    decreases g, 0int,
{
    match g {
        Geometry::Point { coordinates } => if coordinates@.len() >= 2 {
            bbox_seed(coordinates@)
        } else {
            bbox_zero()
        },
        Geometry::LineString { coordinates } => if coordinates@.len() == 0 {
            bbox_zero()
        } else {
            bbox_fold(coordinates.deep_view(), bbox_seed(coordinates@[0]@))
        },
        Geometry::MultiPoint { coordinates } => if coordinates@.len() == 0 {
            bbox_zero()
        } else {
            bbox_fold(coordinates.deep_view(), bbox_seed(coordinates@[0]@))
        },
        Geometry::Polygon { coordinates } => if coordinates@.len() == 0 || coordinates@[0]@.len()
            == 0 {
            bbox_zero()
        } else {
            bbox_fold2(coordinates.deep_view(), bbox_seed(coordinates@[0]@[0]@))
        },
        Geometry::MultiLineString { coordinates } => if coordinates@.len() == 0
            || coordinates@[0]@.len() == 0 {
            bbox_zero()
        } else {
            bbox_fold2(coordinates.deep_view(), bbox_seed(coordinates@[0]@[0]@))
        },
        Geometry::MultiPolygon { coordinates } => if coordinates@.len() == 0
            || coordinates@[0]@.len() == 0 || coordinates@[0]@[0]@.len() == 0 {
            bbox_zero()
        } else {
            bbox_fold3(coordinates.deep_view(), bbox_seed(coordinates@[0]@[0]@[0]@))
        },
        Geometry::GeometryCollection { geometries } => if geometries@.len() == 0 {
            bbox_zero()
        } else {
            gc_fold(geometries@, geometries@.len() as int)
        },
    }
}

/// Folds the boxes of the first `n` geometries of a collection, seeded with
/// the first geometry's box.
pub open spec fn gc_fold(gs: Seq<Geometry>, n: int) -> BboxAcc
    recommends
        1 <= n <= gs.len(),
    decreases gs, n,
{
    if gs.len() == 0 || n < 1 || n > gs.len() {
        bbox_zero()
    } else if n == 1 {
        spec_geom_bbox(gs[0])
    } else {
        let prev = gc_fold(gs, n - 1);
        let b = spec_geom_bbox(gs[n - 1]);
        (min(prev.0, b.0), min(prev.1, b.1), max(prev.2, b.2), max(prev.3, b.3))
    }
}

fn min_i64(a: i64, b: i64) -> (r: i64)
    ensures
        r as int == min(a as int, b as int),
{
    if a < b {
        a
    } else {
        b
    }
}

fn max_i64(a: i64, b: i64) -> (r: i64)
    ensures
        r as int == max(a as int, b as int),
{
    if a > b {
        a
    } else {
        b
    }
}

/// Accumulator state carried by the executable folds.
struct Acc {
    min_lon: i64,
    min_lat: i64,
    max_lon: i64,
    max_lat: i64,
}

impl Acc {
    spec fn view(&self) -> BboxAcc {
        (self.min_lon as int, self.min_lat as int, self.max_lon as int, self.max_lat as int)
    }

    fn seed(p: &Vec<i64>) -> (r: Acc)
        requires
            p@.len() >= 2,
        ensures
            r.view() == bbox_seed(p.deep_view()),
    {
        Acc { min_lon: p[0], min_lat: p[1], max_lon: p[0], max_lat: p[1] }
    }

    fn step(&mut self, p: &Vec<i64>)
        requires
            p@.len() >= 2,
        ensures
            final(self).view() == bbox_step(old(self).view(), p.deep_view()),
    {
        self.min_lon = min_i64(self.min_lon, p[0]);
        self.min_lat = min_i64(self.min_lat, p[1]);
        self.max_lon = max_i64(self.max_lon, p[0]);
        self.max_lat = max_i64(self.max_lat, p[1]);
    }

    fn merge(&mut self, other: &Acc)
        ensures
            final(self).view() == (
                min(old(self).view().0, other.view().0),
                min(old(self).view().1, other.view().1),
                max(old(self).view().2, other.view().2),
                max(old(self).view().3, other.view().3),
            ),
    {
        self.min_lon = min_i64(self.min_lon, other.min_lon);
        self.min_lat = min_i64(self.min_lat, other.min_lat);
        self.max_lon = max_i64(self.max_lon, other.max_lon);
        self.max_lat = max_i64(self.max_lat, other.max_lat);
    }

    fn into_bbox(self) -> (r: Vec<i64>)
        ensures
            r@.len() == 4,
            r@[0] == self.min_lon,
            r@[1] == self.min_lat,
            r@[2] == self.max_lon,
            r@[3] == self.max_lat,
    {
        let mut out: Vec<i64> = Vec::new();
        out.push(self.min_lon);
        out.push(self.min_lat);
        out.push(self.max_lon);
        out.push(self.max_lat);
        out
    }
}

fn zero_bbox() -> (r: Vec<i64>)
    ensures
        r@.len() == 4,
        r@[0] == 0 && r@[1] == 0 && r@[2] == 0 && r@[3] == 0,
{
    let mut out: Vec<i64> = Vec::new();
    out.push(0);
    out.push(0);
    out.push(0);
    out.push(0);
    out
}

/// Folds every position of `ps` into `acc`.
fn fold_positions(acc: &mut Acc, ps: &Vec<Vec<i64>>)
    requires
        forall|i: int| 0 <= i < ps@.len() ==> (#[trigger] ps@[i])@.len() >= 2,
    ensures
        final(acc).view() == bbox_fold(ps.deep_view(), old(acc).view()),
{
    let n = ps.len();
    let mut i: usize = 0;
    proof {
        assert(ps.deep_view().take(0) =~= Seq::<Seq<i64>>::empty());
    }
    while i < n
        invariant
            i <= n,
            n == ps@.len(),
            ps.deep_view().len() == n,
            forall|k: int| 0 <= k < ps@.len() ==> (#[trigger] ps@[k])@.len() >= 2,
            forall|k: int| 0 <= k < ps@.len() ==> ps.deep_view()[k] == (#[trigger] ps@[k])@,
            acc.view() == bbox_fold(ps.deep_view().take(i as int), old(acc).view()),
        decreases n - i,
    {
        proof {
            let dv = ps.deep_view();
            assert(dv.take(i + 1).drop_last() =~= dv.take(i as int));
            assert(dv.take(i + 1).last() == dv[i as int]);
        }
        acc.step(&ps[i]);
        i = i + 1;
    }
    proof {
        assert(ps.deep_view().take(n as int) =~= ps.deep_view());
    }
}

/// Folds every position of every ring of `rs` into `acc`.
fn fold_rings(acc: &mut Acc, rs: &Vec<Vec<Vec<i64>>>)
    requires
        forall|i: int, j: int|
            0 <= i < rs@.len() && 0 <= j < (#[trigger] rs@[i])@.len() ==> (
            #[trigger] rs@[i]@[j])@.len() >= 2,
    ensures
        final(acc).view() == bbox_fold2(rs.deep_view(), old(acc).view()),
{
    let n = rs.len();
    let mut i: usize = 0;
    proof {
        assert(rs.deep_view().take(0) =~= Seq::<Seq<Seq<i64>>>::empty());
    }
    while i < n
        invariant
            i <= n,
            n == rs@.len(),
            rs.deep_view().len() == n,
            forall|a: int, b: int|
                0 <= a < rs@.len() && 0 <= b < (#[trigger] rs@[a])@.len() ==> (
                #[trigger] rs@[a]@[b])@.len() >= 2,
            forall|k: int| 0 <= k < rs@.len() ==> rs.deep_view()[k] == (#[trigger] rs@[k]).deep_view(),
            acc.view() == bbox_fold2(rs.deep_view().take(i as int), old(acc).view()),
        decreases n - i,
    {
        proof {
            let dv = rs.deep_view();
            assert(dv.take(i + 1).drop_last() =~= dv.take(i as int));
            assert(dv.take(i + 1).last() == dv[i as int]);
        }
        fold_positions(acc, &rs[i]);
        i = i + 1;
    }
    proof {
        assert(rs.deep_view().take(n as int) =~= rs.deep_view());
    }
}

/// Folds every position of every polygon of `gs` into `acc`.
fn fold_polygons(acc: &mut Acc, gs: &Vec<Vec<Vec<Vec<i64>>>>)
    requires
        forall|i: int, j: int, k: int|
            0 <= i < gs@.len() && 0 <= j < (#[trigger] gs@[i])@.len() && 0 <= k < (
            #[trigger] gs@[i]@[j])@.len() ==> (#[trigger] gs@[i]@[j]@[k])@.len() >= 2,
    ensures
        final(acc).view() == bbox_fold3(gs.deep_view(), old(acc).view()),
{
    let n = gs.len();
    let mut i: usize = 0;
    proof {
        assert(gs.deep_view().take(0) =~= Seq::<Seq<Seq<Seq<i64>>>>::empty());
    }
    while i < n
        invariant
            i <= n,
            n == gs@.len(),
            gs.deep_view().len() == n,
            forall|a: int, b: int, c: int|
                0 <= a < gs@.len() && 0 <= b < (#[trigger] gs@[a])@.len() && 0 <= c < (
                #[trigger] gs@[a]@[b])@.len() ==> (#[trigger] gs@[a]@[b]@[c])@.len() >= 2,
            forall|k: int| 0 <= k < gs@.len() ==> gs.deep_view()[k] == (#[trigger] gs@[k]).deep_view(),
            acc.view() == bbox_fold3(gs.deep_view().take(i as int), old(acc).view()),
        decreases n - i,
    {
        proof {
            let dv = gs.deep_view();
            assert(dv.take(i + 1).drop_last() =~= dv.take(i as int));
            assert(dv.take(i + 1).last() == dv[i as int]);
        }
        fold_rings(acc, &gs[i]);
        i = i + 1;
    }
    proof {
        assert(gs.deep_view().take(n as int) =~= gs.deep_view());
    }
}

/// Calculates the bounding box a geometry spans.
#[verifier::loop_isolation(false)]
pub fn calculate_bbox_for_geometry(geometry: &Geometry) -> (r: Vec<i64>)
    requires
        geom_wf(*geometry),
    ensures
        r@.len() == 4,
        (r@[0] as int, r@[1] as int, r@[2] as int, r@[3] as int) == spec_geom_bbox(*geometry),
    decreases *geometry,
{
    match geometry {
        Geometry::Point { coordinates } => {
            if coordinates.len() >= 2 {
                let mut out: Vec<i64> = Vec::new();
                out.push(coordinates[0]);
                out.push(coordinates[1]);
                out.push(coordinates[0]);
                out.push(coordinates[1]);
                out
            } else {
                zero_bbox()
            }
        },
        Geometry::LineString { coordinates } => {
            if coordinates.len() == 0 {
                zero_bbox()
            } else {
                let mut acc = Acc::seed(&coordinates[0]);
                fold_positions(&mut acc, coordinates);
                acc.into_bbox()
            }
        },
        Geometry::MultiPoint { coordinates } => {
            if coordinates.len() == 0 {
                zero_bbox()
            } else {
                let mut acc = Acc::seed(&coordinates[0]);
                fold_positions(&mut acc, coordinates);
                acc.into_bbox()
            }
        },
        Geometry::Polygon { coordinates } => {
            if coordinates.len() == 0 || coordinates[0].len() == 0 {
                zero_bbox()
            } else {
                let mut acc = Acc::seed(&coordinates[0][0]);
                fold_rings(&mut acc, coordinates);
                acc.into_bbox()
            }
        },
        Geometry::MultiLineString { coordinates } => {
            if coordinates.len() == 0 || coordinates[0].len() == 0 {
                zero_bbox()
            } else {
                let mut acc = Acc::seed(&coordinates[0][0]);
                fold_rings(&mut acc, coordinates);
                acc.into_bbox()
            }
        },
        Geometry::MultiPolygon { coordinates } => {
            if coordinates.len() == 0 || coordinates[0].len() == 0 || coordinates[0][0].len()
                == 0 {
                zero_bbox()
            } else {
                let mut acc = Acc::seed(&coordinates[0][0][0]);
                fold_polygons(&mut acc, coordinates);
                acc.into_bbox()
            }
        },
        Geometry::GeometryCollection { geometries } => {
            if geometries.len() == 0 {
                zero_bbox()
            } else {
                proof {
                    assert(*geometry == Geometry::GeometryCollection { geometries: *geometries });
                    assert(forall|k: int|
                        0 <= k < geometries@.len() ==> geom_wf(#[trigger] geometries@[k]));
                }
                let first = calculate_bbox_for_geometry(&geometries[0]);
                let mut acc = Acc {
                    min_lon: first[0],
                    min_lat: first[1],
                    max_lon: first[2],
                    max_lat: first[3],
                };
                proof {
                    assert(acc.view() == gc_fold(geometries@, 1));
                }
                let n = geometries.len();
                let mut i: usize = 1;
                while i < n
                    invariant
                        1 <= i <= n,
                        n == geometries@.len(),
                        *geometry == (Geometry::GeometryCollection { geometries: *geometries }),
                        forall|k: int|
                            0 <= k < geometries@.len() ==> geom_wf(#[trigger] geometries@[k]),
                        acc.view() == gc_fold(geometries@, i as int),
                    decreases n - i,
                {
                    let sub = calculate_bbox_for_geometry(&geometries[i]);
                    let other = Acc {
                        min_lon: sub[0],
                        min_lat: sub[1],
                        max_lon: sub[2],
                        max_lat: sub[3],
                    };
                    acc.merge(&other);
                    i = i + 1;
                }
                acc.into_bbox()
            }
        },
    }
}

impl Geometry {
    /// A point geometry.
    pub fn point(longitude: i64, latitude: i64) -> (r: Geometry)
        ensures
            (r matches Geometry::Point { coordinates } && coordinates@ =~= seq![
                longitude,
                latitude,
            ]),
    {
        let mut coordinates: Vec<i64> = Vec::new();
        coordinates.push(longitude);
        coordinates.push(latitude);
        Geometry::Point { coordinates }
    }

    /// A point geometry with elevation.
    pub fn point_3d(longitude: i64, latitude: i64, elevation: i64) -> (r: Geometry)
        ensures
            (r matches Geometry::Point { coordinates } && coordinates@ =~= seq![
                longitude,
                latitude,
                elevation,
            ]),
    {
        let mut coordinates: Vec<i64> = Vec::new();
        coordinates.push(longitude);
        coordinates.push(latitude);
        coordinates.push(elevation);
        Geometry::Point { coordinates }
    }

    /// A line geometry.
    pub fn line_string(coordinates: Vec<Vec<i64>>) -> (r: Geometry)
        ensures
            r == (Geometry::LineString { coordinates }),
    {
        Geometry::LineString { coordinates }
    }

    /// A polygon geometry.
    pub fn polygon(coordinates: Vec<Vec<Vec<i64>>>) -> (r: Geometry)
        ensures
            r == (Geometry::Polygon { coordinates }),
    {
        Geometry::Polygon { coordinates }
    }

    /// The rectangle of a bounding box, as a polygon with one closed ring.
    pub fn polygon_from_bbox(min_lon: i64, min_lat: i64, max_lon: i64, max_lat: i64) -> (r:
        Geometry)
        ensures
            (r matches Geometry::Polygon { coordinates } && coordinates@.len() == 1
                && coordinates@[0]@.len() == 5 && coordinates@[0]@[0]@ =~= seq![min_lon, min_lat]
                && coordinates@[0]@[1]@ =~= seq![max_lon, min_lat] && coordinates@[0]@[2]@ =~= seq![
                max_lon,
                max_lat,
            ] && coordinates@[0]@[3]@ =~= seq![min_lon, max_lat] && coordinates@[0]@[4]@ =~= seq![
                min_lon,
                min_lat,
            ]),
    {
        let mut p0: Vec<i64> = Vec::new();
        p0.push(min_lon);
        p0.push(min_lat);
        let mut p1: Vec<i64> = Vec::new();
        p1.push(max_lon);
        p1.push(min_lat);
        let mut p2: Vec<i64> = Vec::new();
        p2.push(max_lon);
        p2.push(max_lat);
        let mut p3: Vec<i64> = Vec::new();
        p3.push(min_lon);
        p3.push(max_lat);
        let mut p4: Vec<i64> = Vec::new();
        p4.push(min_lon);
        p4.push(min_lat);
        let mut ring: Vec<Vec<i64>> = Vec::new();
        ring.push(p0);
        ring.push(p1);
        ring.push(p2);
        ring.push(p3);
        ring.push(p4);
        let mut coordinates: Vec<Vec<Vec<i64>>> = Vec::new();
        coordinates.push(ring);
        Geometry::Polygon { coordinates }
    }

    /// A geometry of several points.
    pub fn multi_point(coordinates: Vec<Vec<i64>>) -> (r: Geometry)
        ensures
            r == (Geometry::MultiPoint { coordinates }),
    {
        Geometry::MultiPoint { coordinates }
    }

    /// A geometry of several lines.
    pub fn multi_line_string(coordinates: Vec<Vec<Vec<i64>>>) -> (r: Geometry)
        ensures
            r == (Geometry::MultiLineString { coordinates }),
    {
        Geometry::MultiLineString { coordinates }
    }

    /// A geometry of several polygons.
    pub fn multi_polygon(coordinates: Vec<Vec<Vec<Vec<i64>>>>) -> (r: Geometry)
        ensures
            r == (Geometry::MultiPolygon { coordinates }),
    {
        Geometry::MultiPolygon { coordinates }
    }

    /// A collection of geometries.
    pub fn geometry_collection(geometries: Vec<Geometry>) -> (r: Geometry)
        ensures
            r == (Geometry::GeometryCollection { geometries }),
    {
        Geometry::GeometryCollection { geometries }
    }
}

} // verus!
