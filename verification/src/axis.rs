use vstd::prelude::*;

verus! {

/// One of the three coordinate axes.
#[derive(Clone, Copy, Debug, PartialEq, Eq, Structural)]
pub enum Axis {
    X,
    Y,
    Z,
}

impl Axis {
    /// Position of the axis in the cyclic order X, Y, Z.
    pub open spec fn ord(self) -> nat {
        match self {
            Axis::X => 0,
            Axis::Y => 1,
            Axis::Z => 2,
        }
    }

    /// Return next axis.
    pub fn NextAxis(&self) -> (r: Axis)
        ensures
            r.ord() == (self.ord() + 1) % 3,
    {
        match *self {
            Axis::X => Axis::Y,
            Axis::Y => Axis::Z,
            Axis::Z => Axis::X,
        }
    }

    /// Return other two axes.
    pub fn OtherAxes(&self) -> (r: (Axis, Axis))
        ensures
            r.0 != *self,
            r.1 != *self,
            r.0.ord() < r.1.ord(),
    {
        match *self {
            Axis::X => (Axis::Y, Axis::Z),
            Axis::Y => (Axis::X, Axis::Z),
            Axis::Z => (Axis::X, Axis::Y),
        }
    }
}


/// Number of an axis as documented: X is 0, Y is 1 and Z is 3.
pub open spec fn axis_number(a: Axis) -> usize {
    match a {
        Axis::X => 0,
        Axis::Y => 1,
        Axis::Z => 3,
    }
}

impl From<Axis> for usize {
    /// Convert axis to usize
    ///
    /// X -> 0
    ///
    /// Y -> 1
    ///
    /// Z -> 3
    fn from(a: Axis) -> (r: usize) {
        match a {
            Axis::X => 0,
            Axis::Y => 1,
            Axis::Z => 3,
        }
    }
}

impl vstd::std_specs::convert::FromSpecImpl<Axis> for usize {
    open spec fn obeys_from_spec() -> bool {
        true
    }

    open spec fn from_spec(v: Axis) -> usize {
        axis_number(v)
    }
}

/// Stepping to the next axis three times comes back to the start, and the
/// three axes reached on the way are pairwise different.
pub proof fn lemma_next_axis_cycle(a: Axis, b: Axis, c: Axis, d: Axis)
    requires
        b.ord() == (a.ord() + 1) % 3,
        c.ord() == (b.ord() + 1) % 3,
        d.ord() == (c.ord() + 1) % 3,
    ensures
        d == a,
        a != b,
        b != c,
        a != c,
{
}

/// The two axes returned by `OtherAxes` together with the axis itself are
/// exactly the three axes: every axis equals one of them.
pub proof fn lemma_other_axes_cover(a: Axis, o: (Axis, Axis), e: Axis)
    requires
        o.0 != a,
        o.1 != a,
        o.0.ord() < o.1.ord(),
    ensures
        e == a || e == o.0 || e == o.1,
        o.0 != o.1,
{
}

/// Different axes have different numbers.
pub proof fn lemma_axis_number_injective(a: Axis, b: Axis)
    requires
        axis_number(a) == axis_number(b),
    ensures
        a == b,
{
}

} // verus!
