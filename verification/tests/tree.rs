use pt::axis::Axis;
use pt::tree::{Node, SplitOrShape};

#[test]
fn tree_leaf_of_no_shape() {
    let mut shapes: Vec<usize> = Vec::new();
    let mut indices: Vec<usize> = vec![4, 5];
    let node: Node<f32> = Node::newLeaf(&mut shapes, &mut indices);
    assert!(matches!(node.SplitOrShape, SplitOrShape::Shape(0)));
    assert_eq!(node.Index, 0);
    assert_eq!(indices, vec![4, 5]);
}

#[test]
fn tree_leaf_of_one_shape() {
    let mut shapes: Vec<usize> = vec![7];
    let mut indices: Vec<usize> = vec![4, 5];
    let node: Node<f32> = Node::newLeaf(&mut shapes, &mut indices);
    assert!(matches!(node.SplitOrShape, SplitOrShape::Shape(1)));
    assert_eq!(node.Index, 7);
    assert_eq!(shapes, vec![7]);
    assert_eq!(indices, vec![4, 5]);
}

#[test]
fn tree_leaf_of_several_shapes() {
    let mut shapes: Vec<usize> = vec![9, 2, 6];
    let mut indices: Vec<usize> = vec![4, 5];
    let node: Node<f32> = Node::newLeaf(&mut shapes, &mut indices);
    assert!(matches!(node.SplitOrShape, SplitOrShape::Shape(3)));
    assert_eq!(node.Index, 2);
    assert_eq!(indices, vec![4, 5, 9, 2, 6]);
    assert!(shapes.is_empty());
}

#[test]
fn tree_interior_node() {
    let node = Node::newInterior(Axis::Y, 2.5f32);
    match node.SplitOrShape {
        SplitOrShape::Split(axis, point) => {
            assert_eq!(axis, Axis::Y);
            assert_eq!(point, 2.5);
        }
        SplitOrShape::Shape(_) => panic!("expected a split node"),
    }
    assert_eq!(node.Index, 0);
}
