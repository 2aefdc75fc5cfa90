use rope_editor::rope::{Rope, RopeError, RopeLeafNode, RopeNode, RopeTrunkNode};

#[test]
fn insert_byte() {
    let mut r = Rope::new();
    r.insert_byte(b'c', 0).unwrap();
    r.insert_byte(b'b', 0).unwrap();
    r.insert_byte(b'a', 0).unwrap();
    println!("{:?}", r);
    assert_eq!(r.collapse(), b"abc");
}

#[test]
fn insert_bytes() {
    let mut r = Rope::new();

    r.insert_bytes(b"Hello, World!", 0).unwrap();
    println!("{:?}", r);
    assert_eq!(r.clone().collapse(), b"Hello, World!");

    r.insert_bytes(b" Rusty", 6).unwrap();
    println!("{:?}", r);
    assert_eq!(r.collapse(), b"Hello, Rusty World!");
}

#[test]
#[should_panic]
fn insert_past_end() {
    let mut r = Rope::new();

    r.insert_byte(b'A', 1).unwrap();
}

#[test]
fn insert_past_end_is_an_error() {
    let mut r = Rope::new();
    assert_eq!(r.insert_byte(b'A', 1), Err(RopeError::IndexOutOfRange));
    assert_eq!(r.len(), 0);
    r.insert_bytes(b"abc", 0).unwrap();
    assert_eq!(r.insert_bytes(b"xy", 4), Err(RopeError::IndexOutOfRange));
    assert_eq!(r.to_bytes(), b"abc");
    assert_eq!(r.len(), 3);
}

#[test]
fn byte_at_past_end_is_an_error() {
    let mut r = Rope::new();
    assert_eq!(r.byte_at(0), Err(RopeError::IndexOutOfRange));
    r.insert_bytes(b"xyz", 0).unwrap();
    assert_eq!(r.byte_at(2), Ok(b'z'));
    assert_eq!(r.byte_at(3), Err(RopeError::IndexOutOfRange));
}

#[test]
fn append_at_end_and_insert_empty() {
    let mut r = Rope::new();
    r.insert_bytes(b"", 0).unwrap();
    assert_eq!(r.len(), 0);
    r.insert_bytes(b"ab", 0).unwrap();
    r.insert_bytes(b"cd", 2).unwrap();
    r.insert_byte(b'e', 4).unwrap();
    assert_eq!(r.to_bytes(), b"abcde");
    assert_eq!(r.len(), 5);
}

#[test]
fn matches_flat_buffer_over_many_inserts() {
    let mut r = Rope::new();
    let mut reference: Vec<u8> = Vec::new();
    let mut seed: u64 = 12345;
    let mut total: usize = 0;
    for step in 0..300u64 {
        seed = seed.wrapping_mul(6364136223846793005).wrapping_add(1442695040888963407);
        let at = (seed >> 33) as usize % (reference.len() + 1);
        let count = ((seed >> 20) % 4) as usize;
        let bytes: Vec<u8> = (0..count).map(|k| (step as u8).wrapping_add(k as u8)).collect();
        if step % 3 == 0 {
            let b = (seed >> 8) as u8;
            r.insert_byte(b, at).unwrap();
            reference.insert(at, b);
            total += 1;
        } else {
            r.insert_bytes(&bytes, at).unwrap();
            for (k, b) in bytes.iter().enumerate() {
                reference.insert(at + k, *b);
            }
            total += bytes.len();
        }
        assert_eq!(r.len(), total);
    }
    assert_eq!(r.to_bytes(), reference);
    for i in 0..reference.len() {
        assert_eq!(r.byte_at(i), Ok(reference[i]));
    }
    assert_eq!(r.collapse(), reference);
}

#[test]
fn iterators_yield_every_byte_in_order() {
    let mut r = Rope::new();
    r.insert_bytes(b"world", 0).unwrap();
    r.insert_bytes(b"hello ", 0).unwrap();
    let mut first = Vec::new();
    let mut it = r.iter();
    while let Some(b) = it.next() {
        first.push(b);
    }
    assert_eq!(it.next(), None);
    assert_eq!(first.len(), r.len());
    assert_eq!(first, b"hello world");
    let second = r.iter().rest();
    assert_eq!(second, first);
    assert_eq!(Rope::new().iter().rest(), Vec::<u8>::new());
}

fn two_leaves() -> RopeNode {
    RopeNode::Trunk(RopeTrunkNode {
        child0: Box::new(RopeNode::Leaf(RopeLeafNode(b"ab".to_vec()))),
        child1: Box::new(RopeNode::Leaf(RopeLeafNode(b"cd".to_vec()))),
        length: 4,
    })
}

#[test]
fn boundary_routes_to_second_child() {
    let mut n = two_leaves();
    assert_eq!(n.byte_at(1), Ok(b'b'));
    assert_eq!(n.byte_at(2), Ok(b'c'));
    n.insert_bytes(b"X", 2).unwrap();
    match &n {
        RopeNode::Trunk(t) => {
            assert_eq!(t.length, 5);
            assert!(matches!(&*t.child0, RopeNode::Leaf(l) if l.0 == b"ab"));
            assert_eq!(t.child1.deep_copy().collapse(), b"Xcd");
        }
        _ => panic!("expected a trunk"),
    }
    n.insert_byte(b'Y', 1).unwrap();
    match &n {
        RopeNode::Trunk(t) => {
            assert!(matches!(&*t.child1, RopeNode::Trunk(_)));
            assert_eq!(t.child1.deep_copy().collapse(), b"Xcd");
            assert_eq!(t.child0.deep_copy().collapse(), b"aYb");
        }
        _ => panic!("expected a trunk"),
    }
    assert_eq!(n.len(), 6);
    assert_eq!(n.collapse(), b"aYbXcd");
}

#[test]
fn leaf_split_and_append() {
    let t = RopeLeafNode(b"hello".to_vec()).split(2);
    assert_eq!(t.length, 5);
    assert!(matches!(&*t.child0, RopeNode::Leaf(l) if l.0 == b"he"));
    assert!(matches!(&*t.child1, RopeNode::Leaf(l) if l.0 == b"llo"));
    assert_eq!(t.collapse().0, b"hello");
    let mut l = RopeLeafNode(b"ab".to_vec());
    l.append(RopeLeafNode(b"cd".to_vec()));
    assert_eq!(l.0, b"abcd");
    assert_eq!(RopeLeafNode(b"xyz".to_vec()).split(0).collapse_bytes(), b"xyz");
}

#[test]
fn insert_into_middle_of_leaf_splits_it() {
    let mut n = RopeNode::Leaf(RopeLeafNode(b"ace".to_vec()));
    n.insert_byte(b'b', 1).unwrap();
    assert!(matches!(&n, RopeNode::Trunk(_)));
    n.insert_bytes(b"d", 3).unwrap();
    n.insert_bytes(b"_", 0).unwrap();
    assert_eq!(n.len(), 6);
    assert_eq!(n.collapse(), b"_abcde");
    let mut e = RopeNode::Empty;
    assert_eq!(e.insert_byte(b'q', 1), Err(RopeError::IndexOutOfRange));
    e.insert_byte(b'q', 0).unwrap();
    assert_eq!(e.collapse(), b"q");
}

#[test]
fn clone_is_independent() {
    let mut a = Rope::new();
    a.insert_bytes(b"one", 0).unwrap();
    let b = a.clone();
    a.insert_bytes(b"two", 3).unwrap();
    assert_eq!(a.to_bytes(), b"onetwo");
    assert_eq!(b.collapse(), b"one");
}

#[test]
fn node_from_bytes_is_a_leaf() {
    let n = RopeNode::from(b"ab".to_vec());
    assert!(matches!(&n, RopeNode::Leaf(l) if l.0 == b"ab"));
    assert_eq!(n.len(), 2);
    assert_eq!(n.byte_at(1), Ok(b'b'));
}
