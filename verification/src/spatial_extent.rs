//! Spatial extents: bounding boxes in two or three dimensions, the first
//! box describing the overall span. Coordinates are fixed-point numbers in
//! millionths.

use vstd::prelude::*;

verus! {

/// The spatial extents of a grouping: each inner list is one box of four
/// (planar) or six (with elevation) coordinates, southwesterly corner
/// first.
#[derive(Debug, Clone, PartialEq, Eq)]
pub struct SpatialExtent {
    /// The boxes; the first always describes the overall extent.
    pub bbox: Vec<Vec<i64>>,
}

impl SpatialExtent {
    /// An extent with the given boxes.
    pub fn new(bbox: Vec<Vec<i64>>) -> (r: SpatialExtent)
        ensures
            r.bbox == bbox,
    {
        SpatialExtent { bbox }
    }

    /// A planar extent covering the whole Earth.
    pub fn whole_earth_2d() -> (r: SpatialExtent)
        ensures
            r.bbox@.len() == 1,
            r.bbox@[0]@ =~= seq![
                -180000000i64,
                -90000000i64,
                180000000i64,
                90000000i64,
            ],
    {
        let mut b: Vec<i64> = Vec::new();
        b.push(-180000000);
        b.push(-90000000);
        b.push(180000000);
        b.push(90000000);
        let mut bbox: Vec<Vec<i64>> = Vec::new();
        bbox.push(b);
        SpatialExtent { bbox }
    }

    /// An extent covering the whole Earth with the given elevation span.
    pub fn whole_earth_3d(min_elevation: i64, max_elevation: i64) -> (r: SpatialExtent)
        ensures
            r.bbox@.len() == 1,
            r.bbox@[0]@ =~= seq![
                -180000000i64,
                -90000000i64,
                min_elevation,
                180000000i64,
                90000000i64,
                max_elevation,
            ],
    {
        let mut b: Vec<i64> = Vec::new();
        b.push(-180000000);
        b.push(-90000000);
        b.push(min_elevation);
        b.push(180000000);
        b.push(90000000);
        b.push(max_elevation);
        let mut bbox: Vec<Vec<i64>> = Vec::new();
        bbox.push(b);
        SpatialExtent { bbox }
    }

    /// A planar extent from its four corner coordinates.
    pub fn from_2d_coords(min_lon: i64, min_lat: i64, max_lon: i64, max_lat: i64) -> (r:
        SpatialExtent)
        ensures
            r.bbox@.len() == 1,
            r.bbox@[0]@ =~= seq![min_lon, min_lat, max_lon, max_lat],
    {
        let mut b: Vec<i64> = Vec::new();
        b.push(min_lon);
        b.push(min_lat);
        b.push(max_lon);
        b.push(max_lat);
        let mut bbox: Vec<Vec<i64>> = Vec::new();
        bbox.push(b);
        SpatialExtent { bbox }
    }

    /// An extent with elevation from its six corner coordinates.
    pub fn from_3d_coords(
        min_lon: i64,
        min_lat: i64,
        min_elevation: i64,
        max_lon: i64,
        max_lat: i64,
        max_elevation: i64,
    ) -> (r: SpatialExtent)
        ensures
            r.bbox@.len() == 1,
            r.bbox@[0]@ =~= seq![min_lon, min_lat, min_elevation, max_lon, max_lat, max_elevation],
    {
        let mut b: Vec<i64> = Vec::new();
        b.push(min_lon);
        b.push(min_lat);
        b.push(min_elevation);
        b.push(max_lon);
        b.push(max_lat);
        b.push(max_elevation);
        let mut bbox: Vec<Vec<i64>> = Vec::new();
        bbox.push(b);
        SpatialExtent { bbox }
    }

    /// Adds one more box to the extent.
    pub fn add_bbox(&mut self, bbox: Vec<i64>)
        ensures
            final(self).bbox@ == old(self).bbox@.push(bbox),
    {
        self.bbox.push(bbox);
    }

    /// The overall extent: the first box, when one exists.
    pub fn overall_extent(&self) -> (r: Option<&Vec<i64>>)
        ensures
            (r is Some) <==> self.bbox@.len() > 0,
            r matches Some(b) ==> *b == self.bbox@[0],
    {
        if self.bbox.len() > 0 {
            Some(&self.bbox[0])
        } else {
            None
        }
    }

    /// Whether every box is planar.
    pub fn is_2d(&self) -> (r: bool)
        ensures
            r == (forall|i: int| 0 <= i < self.bbox@.len() ==> (#[trigger] self.bbox@[i])@.len() == 4),
    {
        let n = self.bbox.len();
        let mut i: usize = 0;
        while i < n
            invariant
                i <= n,
                n == self.bbox@.len(),
                forall|j: int| 0 <= j < i ==> (#[trigger] self.bbox@[j])@.len() == 4,
            decreases n - i,
        {
            if self.bbox[i].len() != 4 {
                return false;
            }
            i = i + 1;
        }
        true
    }

    /// Whether every box carries elevation.
    pub fn is_3d(&self) -> (r: bool)
        ensures
            r == (forall|i: int| 0 <= i < self.bbox@.len() ==> (#[trigger] self.bbox@[i])@.len() == 6),
    {
        let n = self.bbox.len();
        let mut i: usize = 0;
        while i < n
            invariant
                i <= n,
                n == self.bbox@.len(),
                forall|j: int| 0 <= j < i ==> (#[trigger] self.bbox@[j])@.len() == 6,
            decreases n - i,
        {
            if self.bbox[i].len() != 6 {
                return false;
            }
            i = i + 1;
        }
        true
    }

    /// Whether the extent is valid: at least one box, the first of four or
    /// six coordinates, and every box of the first's dimension.
    pub fn is_valid(&self) -> (r: bool)
        ensures
            r == (self.bbox@.len() > 0 && (self.bbox@[0]@.len() == 4 || self.bbox@[0]@.len() == 6)
                && (forall|i: int|
                0 <= i < self.bbox@.len() ==> (#[trigger] self.bbox@[i])@.len()
                    == self.bbox@[0]@.len())),
    {
        if self.bbox.len() == 0 {
            return false;
        }
        let first_dim = self.bbox[0].len();
        if first_dim != 4 && first_dim != 6 {
            return false;
        }
        let n = self.bbox.len();
        let mut i: usize = 0;
        while i < n
            invariant
                i <= n,
                n == self.bbox@.len(),
                n > 0,
                first_dim == self.bbox@[0]@.len(),
                forall|j: int| 0 <= j < i ==> (#[trigger] self.bbox@[j])@.len() == first_dim,
            decreases n - i,
        {
            if self.bbox[i].len() != first_dim {
                return false;
            }
            i = i + 1;
        }
        true
    }

    /// The number of dimensions: two for planar boxes, three with
    /// elevation, judged by the first box.
    pub fn dimensions(&self) -> (r: Option<usize>)
        ensures
            self.bbox@.len() == 0 ==> r is None,
            self.bbox@.len() > 0 && self.bbox@[0]@.len() == 4 ==> r == Some(2usize),
            self.bbox@.len() > 0 && self.bbox@[0]@.len() == 6 ==> r == Some(3usize),
            self.bbox@.len() > 0 && self.bbox@[0]@.len() != 4 && self.bbox@[0]@.len() != 6 ==> r
                is None,
    {
        if self.bbox.len() == 0 {
            return None;
        }
        match self.bbox[0].len() {
            4 => Some(2),
            6 => Some(3),
            _ => None,
        }
    }

    /// An extent of one planar box, which must have exactly four
    /// coordinates.
    pub fn single_2d_bbox(bbox: Vec<i64>) -> (r: Result<SpatialExtent, String>)
        ensures
            (r is Ok) <==> bbox@.len() == 4,
            r matches Ok(e) ==> e.bbox@.len() == 1 && e.bbox@[0] == bbox,
            r matches Err(m) ==> m@ == "2D bounding box must have exactly 4 coordinates"@,
    {
        if bbox.len() != 4 {
            return Err("2D bounding box must have exactly 4 coordinates".to_owned());
        }
        let mut boxes: Vec<Vec<i64>> = Vec::new();
        boxes.push(bbox);
        Ok(SpatialExtent { bbox: boxes })
    }

    /// An extent of one box with elevation, which must have exactly six
    /// coordinates.
    pub fn single_3d_bbox(bbox: Vec<i64>) -> (r: Result<SpatialExtent, String>)
        ensures
            (r is Ok) <==> bbox@.len() == 6,
            r matches Ok(e) ==> e.bbox@.len() == 1 && e.bbox@[0] == bbox,
            r matches Err(m) ==> m@ == "3D bounding box must have exactly 6 coordinates"@,
    {
        if bbox.len() != 6 {
            return Err("3D bounding box must have exactly 6 coordinates".to_owned());
        }
        let mut boxes: Vec<Vec<i64>> = Vec::new();
        boxes.push(bbox);
        Ok(SpatialExtent { bbox: boxes })
    }
}

} // verus!
