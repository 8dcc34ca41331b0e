use nockpool_miner::effect::{judge, proof_size_hundredths_kb, Outcome, Target};
use nockpool_miner::noun::{Node, NounSlab};

fn atom(bytes: &[u8]) -> NounSlab {
    NounSlab::atom(bytes.to_vec())
}

fn cell(head: &NounSlab, tail: &NounSlab) -> NounSlab {
    NounSlab::cell(head, tail)
}

fn answer(effect: &NounSlab) -> NounSlab {
    cell(effect, &atom(b""))
}

fn root_atom(slab: &NounSlab) -> Vec<u8> {
    let (nodes, root) = slab.parts();
    match &nodes[root] {
        Node::Atom(bytes) => bytes.clone(),
        Node::Cell(_, _) => panic!("a cell"),
    }
}

fn proof_effect(tag: &[u8]) -> NounSlab {
    let body = cell(&atom(b"commit"), &cell(&atom(b"digest"), &atom(b"proof")));
    answer(&cell(&atom(tag), &body))
}

#[test]
fn an_error_is_a_failure() {
    let outcome = judge(None, false);
    assert!(matches!(outcome, Outcome::Failed));
    assert_eq!(outcome.status_code(), None);
    assert_eq!(outcome.mining_result(), None);
}

#[test]
fn an_atom_is_no_result() {
    let outcome = judge(Some(&atom(b"poke")), false);
    assert!(matches!(outcome, Outcome::InvalidResult));
    assert_eq!(outcome.status_code(), Some("STATUS_CODE_ERROR"));
}

#[test]
fn poke_means_cancelled() {
    let outcome = judge(Some(&answer(&atom(b"poke\0\0\0\0"))), true);
    assert!(matches!(outcome, Outcome::Cancelled));
    assert_eq!(outcome.status_code(), Some("STATUS_CODE_OK"));
    assert_eq!(outcome.mining_result(), Some("cancelled"));
}

#[test]
fn another_atom_is_no_effect() {
    let outcome = judge(Some(&answer(&atom(b"miss"))), false);
    assert!(matches!(outcome, Outcome::InvalidEffect));
    assert_eq!(outcome.status_code(), Some("STATUS_CODE_ERROR"));
}

#[test]
fn a_miss_hands_back_its_nonce() {
    let outcome = judge(Some(&answer(&cell(&atom(b"miss"), &atom(b"nonce")))), true);
    assert_eq!(outcome.status_code(), Some("STATUS_CODE_OK"));
    assert_eq!(outcome.mining_result(), Some("miss"));
    match outcome {
        Outcome::Miss { nonce } => assert_eq!(root_atom(&nonce), b"nonce".to_vec()),
        other => panic!("{:?}", other),
    }
}

#[test]
fn unknown_tags_are_no_target() {
    assert!(matches!(judge(Some(&proof_effect(b"poke")), false), Outcome::InvalidTarget));
    assert!(matches!(judge(Some(&proof_effect(b"pools")), false), Outcome::InvalidTarget));
    let tag = cell(&atom(b"pool"), &atom(b""));
    let effect = cell(&tag, &atom(b""));
    assert!(matches!(judge(Some(&answer(&effect)), false), Outcome::InvalidTarget));
}

#[test]
fn solutions_carry_their_parts() {
    let pool = judge(Some(&proof_effect(b"pool")), false);
    assert_eq!(pool.mining_result(), Some("Pool"));
    assert_eq!(pool.status_code(), Some("STATUS_CODE_OK"));
    match pool {
        Outcome::Solution { target, commit, digest, proof } => {
            assert_eq!(target, Target::Pool);
            assert_eq!(root_atom(&commit), b"commit".to_vec());
            assert_eq!(digest, b"digest".to_vec());
            assert_eq!(root_atom(&proof), b"proof".to_vec());
        }
        other => panic!("{:?}", other),
    }
    let network = judge(Some(&proof_effect(b"network\0")), false);
    assert_eq!(network.mining_result(), Some("Network"));
    assert!(matches!(network, Outcome::Solution { target: Target::Network, .. }));
}

#[test]
fn network_only_drops_pool_proofs() {
    let pool = judge(Some(&proof_effect(b"pool")), true);
    assert!(matches!(pool, Outcome::NetworkMiss));
    assert_eq!(pool.mining_result(), Some("miss"));
    assert_eq!(pool.status_code(), Some("STATUS_CODE_OK"));
    let broken = answer(&cell(&atom(b"pool"), &atom(b"")));
    assert!(matches!(judge(Some(&broken), true), Outcome::NetworkMiss));
    let network = judge(Some(&proof_effect(b"network")), true);
    assert!(matches!(network, Outcome::Solution { target: Target::Network, .. }));
}

#[test]
fn malformed_solutions_are_told_apart() {
    let pool = atom(b"pool");
    let a = atom(b"a");
    let message = judge(Some(&answer(&cell(&pool, &a))), false);
    assert!(matches!(message, Outcome::InvalidMessage));
    assert_eq!(message.status_code(), Some("STATUS_CODE_ERROR"));
    let tail = judge(Some(&answer(&cell(&pool, &cell(&a, &a)))), false);
    assert!(matches!(tail, Outcome::InvalidMessageTail));
    let digest = cell(&a, &cell(&cell(&a, &a), &a));
    let digest = judge(Some(&answer(&cell(&pool, &digest))), false);
    assert!(matches!(digest, Outcome::InvalidDigest));
    assert_eq!(digest.mining_result(), None);
}

#[test]
fn proof_sizes_are_rounded_to_hundredths() {
    for len in [0usize, 1, 5, 6, 1023, 1024, 1536, 10240, 64 * 1024 + 7, 123456789] {
        let shown = ((len as f64) / 1024.0 * 100.0).round() / 100.0;
        assert_eq!(proof_size_hundredths_kb(len) as f64 / 100.0, shown);
    }
    assert_eq!(proof_size_hundredths_kb(1536), 150);
    assert_eq!(proof_size_hundredths_kb(128), 13);
}
