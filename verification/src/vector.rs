use vstd::prelude::*;

use vstd::std_specs::cmp::{PartialOrdIs, PartialOrdSpec};
use vstd::std_specs::convert::FromSpec;
use vstd::std_specs::ops::{AddSpec, DivSpec, MulSpec, NegSpec, SubSpec};

verus! {

/// A two-dimensional vector.
#[derive(Default, Clone, Copy, Debug, PartialEq)]
pub struct Vector2<T> {
    pub x: T,
    pub y: T,
}

/// A point on a plane.
#[derive(Default, Clone, Copy, Debug, PartialEq)]
pub struct Point2<T> where T: PartialOrd {
    pub x: T,
    pub y: T,
}

impl<T> Vector2<T> {
    pub fn new(x: T, y: T) -> (r: Vector2<T>)
        ensures
            r.x == x,
            r.y == y,
    {
        Vector2 { x, y }
    }
}

impl<T> Point2<T> where T: PartialOrd {
    pub fn new(x: T, y: T) -> (r: Point2<T>)
        ensures
            r.x == x,
            r.y == y,
    {
        Point2 { x, y }
    }
}

/// The smaller of two values by `<`: `v1` when `v1 < v2`, else `v2`.
pub open spec fn min_of<T: PartialOrd>(v1: T, v2: T) -> T {
    if v1.is_lt(&v2) {
        v1
    } else {
        v2
    }
}

/// The larger of two values by `>`: `v1` when `v1 > v2`, else `v2`.
pub open spec fn max_of<T: PartialOrd>(v1: T, v2: T) -> T {
    if v1.is_gt(&v2) {
        v1
    } else {
        v2
    }
}

impl<T> Point2<T> where T: Copy + PartialOrd {
    /// Componentwise minimum.
    pub fn min(&self, p: Point2<T>) -> (r: Point2<T>)
        ensures
            r.x == self.x || r.x == p.x,
            r.y == self.y || r.y == p.y,
            T::obeys_partial_cmp_spec() ==> r.x == min_of(self.x, p.x) && r.y == min_of(self.y, p.y),
    {
        Point2::new(min(self.x, p.x), min(self.y, p.y))
    }

    /// Componentwise maximum.
    pub fn max(&self, p: Point2<T>) -> (r: Point2<T>)
        ensures
            r.x == self.x || r.x == p.x,
            r.y == self.y || r.y == p.y,
            T::obeys_partial_cmp_spec() ==> r.x == max_of(self.x, p.x) && r.y == max_of(self.y, p.y),
    {
        Point2::new(max(self.x, p.x), max(self.y, p.y))
    }
}

fn min<T>(v1: T, v2: T) -> (r: T) where T: PartialOrd
    ensures
        r == v1 || r == v2,
        T::obeys_partial_cmp_spec() ==> r == min_of(v1, v2),
{
    if v1 < v2 {
        v1
    } else {
        v2
    }
}

fn max<T>(v1: T, v2: T) -> (r: T) where T: PartialOrd
    ensures
        r == v1 || r == v2,
        T::obeys_partial_cmp_spec() ==> r == max_of(v1, v2),
{
    if v1 > v2 {
        v1
    } else {
        v2
    }
}

/// On integers, the componentwise minimum and maximum of two points are the
/// same whatever the order of the points, and the minimum is below the
/// maximum.
pub proof fn lemma_min_max_i32(a: i32, b: i32)
    ensures
        min_of(a, b) == min_of(b, a),
        max_of(a, b) == max_of(b, a),
        min_of(a, b) <= max_of(a, b),
        min_of(a, b) == a || min_of(a, b) == b,
        min_of(a, b) <= a && min_of(a, b) <= b,
        max_of(a, b) >= a && max_of(a, b) >= b,
{
}

// Componentwise operations of a Vector2 with a scalar.

impl<T> std::ops::Neg for Vector2<T> where T: Copy + std::ops::Neg<Output = T> {
    type Output = Vector2<T>;

    fn neg(self) -> (r: Vector2<T>) {
        Vector2::<T>::new(self.x.neg(), self.y.neg())
    }
}

impl<T> vstd::std_specs::ops::NegSpecImpl for Vector2<T> where T: Copy + std::ops::Neg<Output = T> {
    open spec fn obeys_neg_spec() -> bool {
        T::obeys_neg_spec()
    }

    open spec fn neg_req(self) -> bool {
        self.x.neg_req() && self.y.neg_req()
    }

    open spec fn neg_spec(self) -> Vector2<T> {
        Vector2 { x: self.x.neg_spec(), y: self.y.neg_spec() }
    }
}

impl<T> std::ops::Add<T> for Vector2<T> where T: Copy + std::ops::Add<Output = T> {
    type Output = Vector2<T>;

    fn add(self, n: T) -> (r: Vector2<T>) {
        Vector2::<T>::new(self.x + n, self.y + n)
    }
}

impl<T> vstd::std_specs::ops::AddSpecImpl<T> for Vector2<T> where T: Copy + std::ops::Add<Output = T> {
    open spec fn obeys_add_spec() -> bool {
        T::obeys_add_spec()
    }

    open spec fn add_req(self, n: T) -> bool {
        self.x.add_req(n) && self.y.add_req(n)
    }

    open spec fn add_spec(self, n: T) -> Vector2<T> {
        Vector2 { x: self.x.add_spec(n), y: self.y.add_spec(n) }
    }
}

impl<T> std::ops::Sub<T> for Vector2<T> where T: Copy + std::ops::Sub<Output = T> {
    type Output = Vector2<T>;

    fn sub(self, n: T) -> (r: Vector2<T>) {
        Vector2::<T>::new(self.x - n, self.y - n)
    }
}

impl<T> vstd::std_specs::ops::SubSpecImpl<T> for Vector2<T> where T: Copy + std::ops::Sub<Output = T> {
    open spec fn obeys_sub_spec() -> bool {
        T::obeys_sub_spec()
    }

    open spec fn sub_req(self, n: T) -> bool {
        self.x.sub_req(n) && self.y.sub_req(n)
    }

    open spec fn sub_spec(self, n: T) -> Vector2<T> {
        Vector2 { x: self.x.sub_spec(n), y: self.y.sub_spec(n) }
    }
}

impl<T> std::ops::Mul<T> for Vector2<T> where T: Copy + std::ops::Mul<Output = T> {
    type Output = Vector2<T>;

    fn mul(self, n: T) -> (r: Vector2<T>) {
        Vector2::<T>::new(self.x * n, self.y * n)
    }
}

impl<T> vstd::std_specs::ops::MulSpecImpl<T> for Vector2<T> where T: Copy + std::ops::Mul<Output = T> {
    open spec fn obeys_mul_spec() -> bool {
        T::obeys_mul_spec()
    }

    open spec fn mul_req(self, n: T) -> bool {
        self.x.mul_req(n) && self.y.mul_req(n)
    }

    open spec fn mul_spec(self, n: T) -> Vector2<T> {
        Vector2 { x: self.x.mul_spec(n), y: self.y.mul_spec(n) }
    }
}

impl<T> std::ops::Div<T> for Vector2<T> where T: Copy + std::ops::Div<Output = T> {
    type Output = Vector2<T>;

    fn div(self, n: T) -> (r: Vector2<T>) {
        Vector2::<T>::new(self.x / n, self.y / n)
    }
}

impl<T> vstd::std_specs::ops::DivSpecImpl<T> for Vector2<T> where T: Copy + std::ops::Div<Output = T> {
    open spec fn obeys_div_spec() -> bool {
        T::obeys_div_spec()
    }

    open spec fn div_req(self, n: T) -> bool {
        self.x.div_req(n) && self.y.div_req(n)
    }

    open spec fn div_spec(self, n: T) -> Vector2<T> {
        Vector2 { x: self.x.div_spec(n), y: self.y.div_spec(n) }
    }
}

// Componentwise operations of a Point2 with a scalar.

impl<T> std::ops::Neg for Point2<T> where T: Copy + std::ops::Neg<Output = T> + PartialOrd {
    type Output = Point2<T>;

    fn neg(self) -> (r: Point2<T>) {
        Point2::<T>::new(self.x.neg(), self.y.neg())
    }
}

impl<T> vstd::std_specs::ops::NegSpecImpl for Point2<T> where T: Copy + std::ops::Neg<Output = T> + PartialOrd {
    open spec fn obeys_neg_spec() -> bool {
        T::obeys_neg_spec()
    }

    open spec fn neg_req(self) -> bool {
        self.x.neg_req() && self.y.neg_req()
    }

    open spec fn neg_spec(self) -> Point2<T> {
        Point2 { x: self.x.neg_spec(), y: self.y.neg_spec() }
    }
}

impl<T> std::ops::Add<T> for Point2<T> where T: Copy + std::ops::Add<Output = T> + PartialOrd {
    type Output = Point2<T>;

    fn add(self, n: T) -> (r: Point2<T>) {
        Point2::<T>::new(self.x + n, self.y + n)
    }
}

impl<T> vstd::std_specs::ops::AddSpecImpl<T> for Point2<T> where T: Copy + std::ops::Add<Output = T> + PartialOrd {
    open spec fn obeys_add_spec() -> bool {
        T::obeys_add_spec()
    }

    open spec fn add_req(self, n: T) -> bool {
        self.x.add_req(n) && self.y.add_req(n)
    }

    open spec fn add_spec(self, n: T) -> Point2<T> {
        Point2 { x: self.x.add_spec(n), y: self.y.add_spec(n) }
    }
}

impl<T> std::ops::Sub<T> for Point2<T> where T: Copy + std::ops::Sub<Output = T> + PartialOrd {
    type Output = Point2<T>;

    fn sub(self, n: T) -> (r: Point2<T>) {
        Point2::<T>::new(self.x - n, self.y - n)
    }
}

impl<T> vstd::std_specs::ops::SubSpecImpl<T> for Point2<T> where T: Copy + std::ops::Sub<Output = T> + PartialOrd {
    open spec fn obeys_sub_spec() -> bool {
        T::obeys_sub_spec()
    }

    open spec fn sub_req(self, n: T) -> bool {
        self.x.sub_req(n) && self.y.sub_req(n)
    }

    open spec fn sub_spec(self, n: T) -> Point2<T> {
        Point2 { x: self.x.sub_spec(n), y: self.y.sub_spec(n) }
    }
}

impl<T> std::ops::Mul<T> for Point2<T> where T: Copy + std::ops::Mul<Output = T> + PartialOrd {
    type Output = Point2<T>;

    fn mul(self, n: T) -> (r: Point2<T>) {
        Point2::<T>::new(self.x * n, self.y * n)
    }
}

impl<T> vstd::std_specs::ops::MulSpecImpl<T> for Point2<T> where T: Copy + std::ops::Mul<Output = T> + PartialOrd {
    open spec fn obeys_mul_spec() -> bool {
        T::obeys_mul_spec()
    }

    open spec fn mul_req(self, n: T) -> bool {
        self.x.mul_req(n) && self.y.mul_req(n)
    }

    open spec fn mul_spec(self, n: T) -> Point2<T> {
        Point2 { x: self.x.mul_spec(n), y: self.y.mul_spec(n) }
    }
}

impl<T> std::ops::Div<T> for Point2<T> where T: Copy + std::ops::Div<Output = T> + PartialOrd {
    type Output = Point2<T>;

    fn div(self, n: T) -> (r: Point2<T>) {
        Point2::<T>::new(self.x / n, self.y / n)
    }
}

impl<T> vstd::std_specs::ops::DivSpecImpl<T> for Point2<T> where T: Copy + std::ops::Div<Output = T> + PartialOrd {
    open spec fn obeys_div_spec() -> bool {
        T::obeys_div_spec()
    }

    open spec fn div_req(self, n: T) -> bool {
        self.x.div_req(n) && self.y.div_req(n)
    }

    open spec fn div_spec(self, n: T) -> Point2<T> {
        Point2 { x: self.x.div_spec(n), y: self.y.div_spec(n) }
    }
}

// Sums and differences of vectors and points.

impl<T> std::ops::Add<Vector2<T>> for Vector2<T> where T: Copy + std::ops::Add<Output = T> {
    type Output = Vector2<T>;

    fn add(self, v: Vector2<T>) -> (r: Vector2<T>) {
        Vector2::<T>::new(self.x + v.x, self.y + v.y)
    }
}

impl<T> vstd::std_specs::ops::AddSpecImpl<Vector2<T>> for Vector2<T> where T: Copy + std::ops::Add<Output = T> {
    open spec fn obeys_add_spec() -> bool {
        T::obeys_add_spec()
    }

    open spec fn add_req(self, v: Vector2<T>) -> bool {
        self.x.add_req(v.x) && self.y.add_req(v.y)
    }

    open spec fn add_spec(self, v: Vector2<T>) -> Vector2<T> {
        Vector2 { x: self.x.add_spec(v.x), y: self.y.add_spec(v.y) }
    }
}

impl<T> std::ops::Sub<Vector2<T>> for Vector2<T> where T: Copy + std::ops::Sub<Output = T> {
    type Output = Vector2<T>;

    fn sub(self, v: Vector2<T>) -> (r: Vector2<T>) {
        Vector2::<T>::new(self.x - v.x, self.y - v.y)
    }
}

impl<T> vstd::std_specs::ops::SubSpecImpl<Vector2<T>> for Vector2<T> where T: Copy + std::ops::Sub<Output = T> {
    open spec fn obeys_sub_spec() -> bool {
        T::obeys_sub_spec()
    }

    open spec fn sub_req(self, v: Vector2<T>) -> bool {
        self.x.sub_req(v.x) && self.y.sub_req(v.y)
    }

    open spec fn sub_spec(self, v: Vector2<T>) -> Vector2<T> {
        Vector2 { x: self.x.sub_spec(v.x), y: self.y.sub_spec(v.y) }
    }
}

impl<T> std::ops::Add<Point2<T>> for Point2<T> where T: Copy + std::ops::Add<Output = T> + PartialOrd {
    type Output = Point2<T>;

    fn add(self, v: Point2<T>) -> (r: Point2<T>) {
        Point2::<T>::new(self.x + v.x, self.y + v.y)
    }
}

impl<T> vstd::std_specs::ops::AddSpecImpl<Point2<T>> for Point2<T> where T: Copy + std::ops::Add<Output = T> + PartialOrd {
    open spec fn obeys_add_spec() -> bool {
        T::obeys_add_spec()
    }

    open spec fn add_req(self, v: Point2<T>) -> bool {
        self.x.add_req(v.x) && self.y.add_req(v.y)
    }

    open spec fn add_spec(self, v: Point2<T>) -> Point2<T> {
        Point2 { x: self.x.add_spec(v.x), y: self.y.add_spec(v.y) }
    }
}

impl<T> std::ops::Sub<Point2<T>> for Point2<T> where T: Copy + std::ops::Sub<Output = T> + PartialOrd {
    type Output = Vector2<T>;

    fn sub(self, v: Point2<T>) -> (r: Vector2<T>) {
        Vector2::<T>::new(self.x - v.x, self.y - v.y)
    }
}

impl<T> vstd::std_specs::ops::SubSpecImpl<Point2<T>> for Point2<T> where T: Copy + std::ops::Sub<Output = T> + PartialOrd {
    open spec fn obeys_sub_spec() -> bool {
        T::obeys_sub_spec()
    }

    open spec fn sub_req(self, v: Point2<T>) -> bool {
        self.x.sub_req(v.x) && self.y.sub_req(v.y)
    }

    open spec fn sub_spec(self, v: Point2<T>) -> Vector2<T> {
        Vector2 { x: self.x.sub_spec(v.x), y: self.y.sub_spec(v.y) }
    }
}

impl<T> From<Vector2<T>> for Point2<T> where T: Copy + PartialOrd {
    fn from(v: Vector2<T>) -> (r: Point2<T>) {
        Point2::<T>::new(v.x, v.y)
    }
}

impl<T> vstd::std_specs::convert::FromSpecImpl<Vector2<T>> for Point2<T> where T: Copy + PartialOrd {
    open spec fn obeys_from_spec() -> bool {
        true
    }

    open spec fn from_spec(v: Vector2<T>) -> Point2<T> {
        Point2 { x: v.x, y: v.y }
    }
}

/// Subtracting a vector undoes adding it, and a point is reached from
/// another by adding their difference, whenever the sums fit in `i32`.
pub proof fn lemma_vector2_add_sub_i32(a: Vector2<i32>, b: Vector2<i32>, p: Point2<i32>, q: Point2<i32>)
    requires
        a.add_req(b),
        p.sub_req(q),
    ensures
        a.add_spec(b).sub_req(b),
        a.add_spec(b).sub_spec(b) == a,
        q.add_req(Point2::<i32>::from_spec(p.sub_spec(q))),
        q.add_spec(Point2::<i32>::from_spec(p.sub_spec(q))) == p,
{
}

} // verus!
