use nockpool_miner::candidate::{nonce_of, CuedTemplate, MineError};
use nockpool_miner::effect::Outcome;
use nockpool_miner::miner::{start, Config, Miner, TemplateAction};
use nockpool_miner::noun::{Node, NounSlab};
use nockpool_miner::threads::BYTES_PER_GB;

fn show_at(nodes: &Vec<Node>, i: usize) -> String {
    match &nodes[i] {
        Node::Atom(bytes) => format!("{:?}", bytes),
        Node::Cell(head, tail) => {
            format!("({} . {})", show_at(nodes, *head), show_at(nodes, *tail))
        }
    }
}

fn show(slab: &NounSlab) -> String {
    let (nodes, root) = slab.parts();
    show_at(nodes, root)
}

fn template(mark: u8) -> CuedTemplate {
    CuedTemplate {
        version: vec![mark],
        commit: Some(NounSlab::atom(vec![2])),
        network_target: Some(NounSlab::atom(vec![3])),
        pool_target: Some(NounSlab::atom(vec![4])),
        pow_len: vec![5],
    }
}

fn version_of(candidate: &NounSlab) -> Vec<u8> {
    let (nodes, root) = candidate.parts();
    let tail = match &nodes[root] {
        Node::Cell(_, tail) => *tail,
        Node::Atom(_) => panic!("an atom"),
    };
    match &nodes[tail] {
        Node::Cell(version, _) => match &nodes[*version] {
            Node::Atom(bytes) => bytes.clone(),
            Node::Cell(_, _) => panic!("a cell"),
        },
        Node::Atom(_) => panic!("an atom"),
    }
}

fn three_threads() -> Miner<u32> {
    let config = Config { max_threads: Some(3), network_only: true };
    let mut miner = start(&config, 16, 64 * BYTES_PER_GB);
    let action = miner.on_template(template(1));
    assert_eq!(action, TemplateAction::StartKernels { count: 3 });
    for thread in 0..3u64 {
        let launch = miner.on_kernel_ready(thread, 100 + thread as u32);
        assert_eq!(launch.thread, thread);
        assert_eq!(version_of(&launch.candidate.unwrap()), vec![1]);
    }
    miner
}

#[test]
fn the_loop_starts_empty() {
    let config = Config { max_threads: None, network_only: false };
    let miner: Miner<u32> = start(&config, 16, 64 * BYTES_PER_GB);
    assert_eq!(miner.num_threads(), 14);
    assert!(!miner.network_only());
    assert_eq!(miner.running(), 0);
    assert_eq!(miner.starting(), 0);
    assert!(miner.cancel_tokens().is_empty());
    assert!(!miner.is_in_use(0));
}

#[test]
fn a_first_template_starts_all_kernels() {
    let miner = three_threads();
    assert_eq!(miner.num_threads(), 3);
    assert!(miner.network_only());
    assert_eq!(miner.running(), 3);
    assert_eq!(miner.starting(), 0);
    assert_eq!(*miner.cancel_tokens(), vec![100, 101, 102]);
    assert!(miner.is_in_use(0) && miner.is_in_use(1) && miner.is_in_use(2));
    assert!(!miner.is_in_use(3));
}

#[test]
fn a_later_template_cancels_and_is_mined_on() {
    let mut miner = three_threads();
    assert_eq!(miner.on_template(template(2)), TemplateAction::CancelAttempts);
    assert_eq!(miner.running(), 3);
    let poke = NounSlab::cell(
        &NounSlab::atom(b"poke".to_vec()),
        &NounSlab::atom(vec![]),
    );
    let (outcome, launch) = miner.on_attempt_ended(1, Some(&poke));
    assert!(matches!(outcome, Outcome::Cancelled));
    assert_eq!(launch.thread, 1);
    assert_eq!(version_of(&launch.candidate.unwrap()), vec![2]);
    assert_eq!(miner.running(), 3);
}

#[test]
fn a_miss_goes_on_with_its_nonce() {
    let mut miner = three_threads();
    let nonce = nonce_of(&[1, 2, 3, 4, 5]);
    let effect = NounSlab::cell(&NounSlab::atom(b"miss".to_vec()), &nonce);
    let answer = NounSlab::cell(&effect, &NounSlab::atom(vec![]));
    let (outcome, launch) = miner.on_attempt_ended(0, Some(&answer));
    assert!(matches!(outcome, Outcome::Miss { .. }));
    assert!(show(&launch.candidate.unwrap()).contains(&show(&nonce)));
}

#[test]
fn failures_are_replaced_too() {
    let mut miner = three_threads();
    let (outcome, launch) = miner.on_attempt_ended(2, None);
    assert!(matches!(outcome, Outcome::Failed));
    assert!(launch.candidate.is_ok());
    assert_eq!(miner.running(), 3);
    assert!(miner.is_in_use(2));
}

#[test]
fn lost_attempts_and_failed_kernels_are_given_up() {
    let config = Config { max_threads: Some(2), network_only: false };
    let mut miner: Miner<u32> = start(&config, 16, 64 * BYTES_PER_GB);
    miner.on_template(template(1));
    miner.on_kernel_failed();
    assert_eq!(miner.starting(), 1);
    miner.on_kernel_ready(1, 7);
    assert_eq!(miner.running(), 1);
    assert!(miner.is_in_use(1));
    miner.on_attempt_lost();
    assert_eq!(miner.running(), 0);
    assert!(miner.is_in_use(1));
    let again = miner.on_template(template(2));
    assert_eq!(again, TemplateAction::StartKernels { count: 2 });
    assert_eq!(*miner.cancel_tokens(), vec![7]);
    assert!(!miner.is_in_use(1));
}

#[test]
fn a_broken_template_stops_the_thread() {
    let mut miner = three_threads();
    let mut broken = template(9);
    broken.commit = None;
    miner.on_template(broken);
    let (_, launch) = miner.on_attempt_ended(0, None);
    assert_eq!(launch.candidate.unwrap_err(), MineError::Commit);
    assert_eq!(miner.running(), 2);
    assert!(!miner.is_in_use(0));
    assert!(miner.is_in_use(1) && miner.is_in_use(2));
    let (_, launch) = miner.on_attempt_ended(2, None);
    assert!(launch.candidate.is_err());
    assert_eq!(miner.running(), 1);
    assert!(miner.is_in_use(1) && !miner.is_in_use(2));
}

#[test]
fn failed_kernels_do_not_hold_up_the_others() {
    let config = Config { max_threads: Some(3), network_only: false };
    let mut miner: Miner<u32> = start(&config, 16, 64 * BYTES_PER_GB);
    miner.on_template(template(1));
    assert!(miner.on_kernel_ready(2, 12).candidate.is_ok());
    miner.on_kernel_failed();
    assert!(miner.on_kernel_ready(0, 10).candidate.is_ok());
    assert_eq!(miner.starting(), 0);
    assert_eq!(miner.running(), 2);
    assert!(miner.is_in_use(0) && !miner.is_in_use(1) && miner.is_in_use(2));
    assert_eq!(*miner.cancel_tokens(), vec![12, 10]);
    assert_eq!(miner.on_template(template(2)), TemplateAction::CancelAttempts);
}

#[test]
fn a_failed_startup_is_repeated() {
    let config = Config { max_threads: Some(2), network_only: false };
    let mut miner: Miner<u32> = start(&config, 16, 64 * BYTES_PER_GB);
    miner.on_template(template(1));
    miner.on_kernel_failed();
    miner.on_kernel_failed();
    let action = miner.on_template(template(2));
    assert_eq!(action, TemplateAction::StartKernels { count: 2 });
    assert_eq!(miner.starting(), 2);
}

#[test]
fn an_unusable_template_starts_no_attempt() {
    let config = Config { max_threads: Some(1), network_only: false };
    let mut miner: Miner<u32> = start(&config, 16, 64 * BYTES_PER_GB);
    let mut broken = template(1);
    broken.pool_target = None;
    miner.on_template(broken);
    let launch = miner.on_kernel_ready(0, 5);
    assert_eq!(launch.candidate.unwrap_err(), MineError::PoolTarget);
    assert_eq!(miner.running(), 0);
    assert!(!miner.is_in_use(0));
    assert_eq!(*miner.cancel_tokens(), vec![5]);
    let action = miner.on_template(template(2));
    assert_eq!(action, TemplateAction::StartKernels { count: 1 });
}
