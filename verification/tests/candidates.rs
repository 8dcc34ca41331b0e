use nockpool_miner::candidate::{
    candidate, mine, nonce_of, random_nonce, CuedTemplate, MineError, PRIME,
};
use nockpool_miner::noun::{Node, NounSlab};

fn show_at(nodes: &Vec<Node>, i: usize) -> String {
    match &nodes[i] {
        Node::Atom(bytes) => format!("{:?}", bytes),
        Node::Cell(head, tail) => {
            format!("({} . {})", show_at(nodes, *head), show_at(nodes, *tail))
        }
    }
}

fn show(slab: &NounSlab) -> String {
    let (nodes, root) = slab.parts();
    show_at(nodes, root)
}

fn atom(byte: u8) -> NounSlab {
    NounSlab::atom(vec![byte])
}

fn template() -> CuedTemplate {
    CuedTemplate {
        version: vec![1],
        commit: Some(atom(2)),
        network_target: Some(atom(3)),
        pool_target: Some(atom(4)),
        pow_len: vec![5],
    }
}

fn words(slab: &NounSlab) -> Vec<u64> {
    let (nodes, root) = slab.parts();
    let mut found = Vec::new();
    let mut at = root;
    loop {
        match &nodes[at] {
            Node::Cell(head, tail) => {
                found.push(word(&nodes[*head]));
                at = *tail;
            }
            last => {
                found.push(word(last));
                return found;
            }
        }
    }
}

fn word(node: &Node) -> u64 {
    match node {
        Node::Atom(bytes) => {
            let mut le = [0u8; 8];
            le.copy_from_slice(bytes);
            u64::from_le_bytes(le)
        }
        Node::Cell(_, _) => panic!("a cell"),
    }
}

#[test]
fn prime_is_the_goldilocks_prime() {
    assert_eq!(PRIME as u128, (1u128 << 64) - (1u128 << 32) + 1);
}

#[test]
fn candidates_are_laid_out_in_order() {
    let built = candidate(Some(&template()), &atom(9)).unwrap();
    let tag = format!("{:?}", b"template".to_vec());
    assert_eq!(
        show(&built),
        format!("({} . ([1] . ([2] . ([9] . ([3] . ([4] . [5]))))))", tag)
    );
}

#[test]
fn missing_parts_are_reported_in_order() {
    let nonce = atom(9);
    assert_eq!(candidate(None, &nonce).unwrap_err(), MineError::NoTemplate);
    let mut t = template();
    t.pool_target = None;
    assert_eq!(candidate(Some(&t), &nonce).unwrap_err(), MineError::PoolTarget);
    t.network_target = None;
    assert_eq!(candidate(Some(&t), &nonce).unwrap_err(), MineError::NetworkTarget);
    t.commit = None;
    assert_eq!(candidate(Some(&t), &nonce).unwrap_err(), MineError::Commit);
    assert_eq!(mine(None, None).unwrap_err(), MineError::NoTemplate);
    assert_eq!(mine(Some(&t), None).unwrap_err(), MineError::Commit);
}

#[test]
fn nonces_hold_the_first_word_innermost() {
    assert_eq!(words(&nonce_of(&[10, 11, 12, 13, 14])), vec![14, 13, 12, 11, 10]);
}

#[test]
fn draws_are_reduced_to_field_elements() {
    let draws = [u64::MAX, PRIME, PRIME - 1, PRIME + 1, 0];
    assert_eq!(
        words(&nonce_of(&draws)),
        vec![0, 1, PRIME - 1, 0, (1u64 << 32) - 2]
    );
}

#[test]
fn random_nonces_are_five_field_elements() {
    let first = words(&random_nonce());
    let second = words(&random_nonce());
    assert_eq!(first.len(), 5);
    assert!(first.iter().all(|w| *w < PRIME));
    assert_ne!(first, second);
}

#[test]
fn a_given_nonce_is_used() {
    let nonce = nonce_of(&[1, 2, 3, 4, 5]);
    let mined = mine(Some(&template()), Some(&nonce)).unwrap();
    let built = candidate(Some(&template()), &nonce).unwrap();
    assert_eq!(show(&mined), show(&built));
    let random = mine(Some(&template()), None).unwrap();
    assert_ne!(show(&random), show(&built));
}
