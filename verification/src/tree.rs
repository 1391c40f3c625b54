use vstd::prelude::*;

use crate::axis::Axis;

verus! {

/// What a node of the k-d tree holds: a split plane, given by its axis and
/// its position on that axis, or a number of shapes.
pub enum SplitOrShape<F> {
    Split(Axis, F),
    Shape(usize),
}

/// A node of the k-d tree. `Index` is the index of the upper child for a
/// split; for a leaf of one shape it is that shape's index, and for a leaf
/// of several shapes the position of their indices in the tree's list of
/// shape indices.
pub struct Node<F> {
    pub SplitOrShape: SplitOrShape<F>,
    pub Index: usize,
}

impl<F> Node<F> {
    /// An interior node splitting space at `point` along `axis`; its upper
    /// child is not known yet.
    pub fn newInterior(axis: Axis, point: F) -> (r: Node<F>)
        ensures
            r.SplitOrShape == SplitOrShape::Split(axis, point),
            r.Index == 0,
    {
        return Node { SplitOrShape: SplitOrShape::Split(axis, point), Index: 0 };
    }

    /// A leaf holding the shapes whose indices are in `shapes`. One shape is
    /// held by its index; several are moved to the end of `shapeIndices`
    /// and held by the position where they start.
    pub fn newLeaf(shapes: &mut Vec<usize>, shapeIndices: &mut Vec<usize>) -> (r: Node<F>)
        requires
            old(shapeIndices)@.len() + old(shapes)@.len() <= usize::MAX,
        ensures
            r.SplitOrShape == SplitOrShape::<F>::Shape(old(shapes)@.len() as usize),
            old(shapes)@.len() == 0 ==> r.Index == 0,
            old(shapes)@.len() == 1 ==> r.Index == old(shapes)@[0],
            old(shapes)@.len() <= 1 ==> final(shapes)@ == old(shapes)@ && final(shapeIndices)@
                == old(shapeIndices)@,
            old(shapes)@.len() >= 2 ==> {
                &&& r.Index == old(shapeIndices)@.len()
                &&& final(shapeIndices)@ == old(shapeIndices)@ + old(shapes)@
                &&& final(shapes)@.len() == 0
            },
    {
        let (Shape, Index) = match shapes.len() {
            0 => { (SplitOrShape::Shape(0), 0) },
            1 => { (SplitOrShape::Shape(1), shapes[0]) },
            n => {
                let i = shapeIndices.len();
                shapeIndices.append(shapes);
                (SplitOrShape::Shape(n), i)
            },
        };
        return Node { SplitOrShape: Shape, Index: Index };
    }
}

} // verus!
