use std::ops;
use vstd::prelude::*;
use vstd::std_specs::cmp::PartialOrdSpec;
use vstd::std_specs::ops::{MulSpec, SubSpec};

use crate::vector::{max_of, min_of, Point2, Vector2};

verus! {

/// An axis-aligned rectangle given by two opposite corners.
#[derive(Clone, Copy)]
pub struct BBox2<T> where T: PartialOrd {
    pub min: Point2<T>,
    pub max: Point2<T>,
}

impl<T> BBox2<T> where T: Copy + PartialOrd {
    /// The rectangle spanned by two corners, whatever their order:
    /// `min` gets the smaller and `max` the larger coordinate on each axis.
    pub fn new(min: Point2<T>, max: Point2<T>) -> (r: BBox2<T>)
        ensures
            r.min.x == min.x || r.min.x == max.x,
            r.min.y == min.y || r.min.y == max.y,
            r.max.x == min.x || r.max.x == max.x,
            r.max.y == min.y || r.max.y == max.y,
            T::obeys_partial_cmp_spec() ==> {
                &&& r.min.x == min_of(min.x, max.x)
                &&& r.min.y == min_of(min.y, max.y)
                &&& r.max.x == max_of(max.x, min.x)
                &&& r.max.y == max_of(max.y, min.y)
            },
    {
        BBox2 { min: min.min(max), max: max.max(min) }
    }
}

impl<T> BBox2<T> where T: Copy + PartialOrd + ops::Sub<Output = T> + ops::Mul<Output = T> {
    /// The vector from `min` to `max`.
    pub fn diagonal(&self) -> (r: Vector2<T>)
        requires
            self.max.x.sub_req(self.min.x),
            self.max.y.sub_req(self.min.y),
        ensures
            T::obeys_sub_spec() ==> r.x == self.max.x.sub_spec(self.min.x) && r.y
                == self.max.y.sub_spec(self.min.y),
    {
        Vector2::new(self.max.x - self.min.x, self.max.y - self.min.y)
    }

    /// Width times height.
    pub fn area(&self) -> (r: T)
        requires
            T::obeys_sub_spec(),
            self.max.x.sub_req(self.min.x),
            self.max.y.sub_req(self.min.y),
            self.max.x.sub_spec(self.min.x).mul_req(self.max.y.sub_spec(self.min.y)),
        ensures
            T::obeys_mul_spec() ==> r == self.max.x.sub_spec(self.min.x).mul_spec(
                self.max.y.sub_spec(self.min.y),
            ),
    {
        let d = self.diagonal();
        return d.x * d.y;
    }
}

/// The rectangle that `BBox2::new` builds from two corners.
pub open spec fn bbox_spanned<T: PartialOrd>(a: Point2<T>, b: Point2<T>) -> BBox2<T> {
    BBox2 {
        min: Point2 { x: min_of(a.x, b.x), y: min_of(a.y, b.y) },
        max: Point2 { x: max_of(b.x, a.x), y: max_of(b.y, a.y) },
    }
}

/// On integer coordinates the spanned rectangle has its minimum below its
/// maximum on both axes, does not depend on the order of the corners, and
/// spanning it again from its own corners changes nothing.
pub proof fn lemma_bbox_spanned_i32(a: Point2<i32>, b: Point2<i32>)
    ensures
        bbox_spanned(a, b).min.x <= bbox_spanned(a, b).max.x,
        bbox_spanned(a, b).min.y <= bbox_spanned(a, b).max.y,
        bbox_spanned(a, b) == bbox_spanned(b, a),
        bbox_spanned(bbox_spanned(a, b).min, bbox_spanned(a, b).max) == bbox_spanned(a, b),
{
}

} // verus!
