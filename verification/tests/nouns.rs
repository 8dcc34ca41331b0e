use nockpool_miner::noun::{copy_bytes, eq_bytes, Node, NounSlab};

fn show_at(nodes: &Vec<Node>, i: usize) -> String {
    match &nodes[i] {
        Node::Atom(bytes) => format!("{:?}", bytes),
        Node::Cell(head, tail) => {
            format!("({} . {})", show_at(nodes, *head), show_at(nodes, *tail))
        }
    }
}

fn show(slab: &NounSlab) -> String {
    let (nodes, root) = slab.parts();
    show_at(nodes, root)
}

#[test]
fn tags_match_up_to_trailing_zeros() {
    assert!(eq_bytes(b"pool", b"pool"));
    assert!(eq_bytes(b"pool\0\0\0\0", b"pool"));
    assert!(!eq_bytes(b"pools", b"pool"));
    assert!(!eq_bytes(b"poo", b"pool"));
    assert!(!eq_bytes(b"pool\0x", b"pool"));
    assert!(!eq_bytes(b"miss", b"pool"));
    assert!(eq_bytes(b"", b""));
    assert!(eq_bytes(b"\0\0", b""));
    assert!(!eq_bytes(b"", b"pool"));
}

#[test]
fn atoms_and_cells_keep_their_parts() {
    let a = NounSlab::atom(vec![1, 2]);
    let b = NounSlab::atom(vec![]);
    let ab = NounSlab::cell(&a, &b);
    let nested = NounSlab::cell(&ab, &NounSlab::cell(&a, &ab));
    assert_eq!(show(&a), "[1, 2]");
    assert_eq!(show(&ab), "([1, 2] . [])");
    assert_eq!(show(&nested), "(([1, 2] . []) . ([1, 2] . ([1, 2] . [])))");
}

#[test]
fn words_are_eight_bytes_least_significant_first() {
    assert_eq!(show(&NounSlab::word(0)), "[0, 0, 0, 0, 0, 0, 0, 0]");
    assert_eq!(show(&NounSlab::word(0x0102)), "[2, 1, 0, 0, 0, 0, 0, 0]");
    assert_eq!(
        show(&NounSlab::word(u64::MAX)),
        "[255, 255, 255, 255, 255, 255, 255, 255]"
    );
    let word: u64 = 0x8877665544332211;
    assert_eq!(show(&NounSlab::word(word)), format!("{:?}", word.to_le_bytes()));
}

#[test]
fn only_lists_that_point_backwards_are_nouns() {
    let shared = NounSlab::from_nodes(
        vec![Node::Atom(vec![7]), Node::Cell(0, 0), Node::Cell(1, 0)],
        2,
    );
    assert_eq!(show(&shared.unwrap()), "(([7] . [7]) . [7])");
    assert!(NounSlab::from_nodes(vec![], 0).is_none());
    assert!(NounSlab::from_nodes(vec![Node::Atom(vec![])], 1).is_none());
    assert!(NounSlab::from_nodes(vec![Node::Cell(0, 0)], 0).is_none());
    assert!(NounSlab::from_nodes(
        vec![Node::Cell(0, 1), Node::Atom(vec![])],
        1
    )
    .is_none());
}

#[test]
fn subnouns_and_clones_stand_alone() {
    let a = NounSlab::atom(vec![1]);
    let b = NounSlab::atom(vec![2]);
    let ab = NounSlab::cell(&a, &b);
    let whole = NounSlab::cell(&ab, &b);
    assert_eq!(show(&whole.clone()), "(([1] . [2]) . [2])");
    let (nodes, root) = whole.parts();
    if let Node::Cell(head, tail) = &nodes[root] {
        assert_eq!(show(&whole.subnoun(*head)), "([1] . [2])");
        assert_eq!(show(&whole.subnoun(*tail)), "[2]");
    } else {
        panic!("the root is a cell");
    }
}

#[test]
fn bytes_are_copied() {
    assert_eq!(copy_bytes(&[1, 2, 3]), vec![1, 2, 3]);
    assert_eq!(copy_bytes(&[]), Vec::<u8>::new());
}
