use rustyml::ast::{Add, Bool, ChildrenGettable, If, Int, Node, Unit, Var};

#[test]
fn test_create_node() {
    match *Bool::new(true, 1, 2) {
        Node::Bool(b) => {
            assert_eq!(b.value, true);
            assert_eq!(b.pos.start_byte_index, 1);
            assert_eq!(b.pos.end_byte_index, 2);
            assert_eq!(b.pos.offset, 1);
        }
        _ => assert!(false),
    }

    match *Add::new(Bool::new(true, 1, 2), Unit::new(1, 2), 1, 2) {
        Node::Add(add) => {
            match *add.lhs {
                Node::Bool(b) => {
                    assert_eq!(b.value, true);
                    assert_eq!(b.pos.start_byte_index, 1);
                    assert_eq!(b.pos.end_byte_index, 2);
                    assert_eq!(b.pos.offset, 1);
                }
                _ => assert!(false),
            }
            match *add.rhs {
                Node::Unit(u) => {
                    assert_eq!(u.pos.start_byte_index, 1);
                    assert_eq!(u.pos.end_byte_index, 2);
                    assert_eq!(u.pos.offset, 1);
                }
                _ => assert!(false),
            }
            assert_eq!(add.pos.start_byte_index, 1);
            assert_eq!(add.pos.end_byte_index, 2);
            assert_eq!(add.pos.offset, 1);
        }
        _ => assert!(false),
    }
}

#[test]
fn test_children() {
    match *Bool::new(true, 1, 2) {
        Node::Bool(b) => {
            assert_eq!(b.children().len(), 0);
        }
        _ => unreachable!(),
    }
    match *Add::new(Bool::new(true, 1, 2), Unit::new(1, 2), 1, 2) {
        Node::Add(add) => {
            assert_eq!(add.children().len(), 2);
            match *add.children().first().unwrap() {
                &Node::Bool(ref b) => {
                    assert!(b.value);
                }
                _ => unreachable!(),
            }
        }
        _ => unreachable!(),
    }
}

#[test]
fn test_children_if_order() {
    // children() of a conditional yields exactly cond, first branch,
    // second branch, in that order.
    let cond = Bool::new(true, 0, 4);
    let a = Int::new(1, 5, 6);
    let b = Int::new(2, 7, 8);
    match *If::new(cond, a, b, 0, 8) {
        Node::If(node) => {
            let kids = node.children();
            assert_eq!(kids.len(), 3);
            match kids[0] {
                Node::Bool(x) => assert!(x.value),
                _ => unreachable!(),
            }
            match kids[1] {
                Node::Int(x) => assert_eq!(x.value, 1),
                _ => unreachable!(),
            }
            match kids[2] {
                Node::Int(x) => assert_eq!(x.value, 2),
                _ => unreachable!(),
            }
        }
        _ => unreachable!(),
    }
}

#[test]
fn test_children_leaves_empty() {
    match *Int::new(7, 0, 1) {
        Node::Int(n) => assert!(n.children().is_empty()),
        _ => unreachable!(),
    }
    match *Var::new("x".to_string(), 0, 1) {
        Node::Var(n) => assert!(n.children().is_empty()),
        _ => unreachable!(),
    }
}
