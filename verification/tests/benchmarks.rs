use nockpool_miner::benchmark::{
    benchmark, benchmark_template, decode_template, durations_fit, extreme_times, total_time,
    Benchmark, Summary, TemplateError, MAX_DURATION,
};
use nockpool_miner::candidate::{CuedTemplate, MineError};
use nockpool_miner::hexadecimal::{to_lower_hex, HexError};
use nockpool_miner::noun::NounSlab;
use std::time::Duration;

const TARGET: &str = "81177307ec6aacb01ef04b58dbf601823db967ef80ed5256e50304ab9031bb015f1c808d1d2058623e470ce8cdf54174c07f08c49a068e8f02";

fn cued() -> CuedTemplate {
    CuedTemplate {
        version: vec![1],
        commit: Some(NounSlab::atom(vec![2])),
        network_target: Some(NounSlab::atom(vec![3])),
        pool_target: Some(NounSlab::atom(vec![4])),
        pow_len: vec![5],
    }
}

#[test]
fn the_template_is_fixed() {
    let t = benchmark_template().unwrap();
    assert_eq!(t.version, vec![2, 0, 0, 0, 0, 0, 0, 0]);
    assert_eq!(t.pow_len, vec![64, 0, 0, 0, 0, 0, 0, 0]);
    assert_eq!(
        to_lower_hex(&t.commit),
        "017ee86437eac9dbae690081199671e25cb54ce700ff8cdb259db500063b409e2aa64f968ec7ed801e75db735d82443707"
    );
    assert_eq!(to_lower_hex(&t.network_target), TARGET);
    assert_eq!(to_lower_hex(&t.pool_target), TARGET);
}

#[test]
fn hexadecimal_text_decodes_in_either_case() {
    let t = decode_template("", "fF", "0a", "A0", "1234").unwrap();
    assert_eq!(t.version, Vec::<u8>::new());
    assert_eq!(t.commit, vec![255]);
    assert_eq!(t.network_target, vec![10]);
    assert_eq!(t.pool_target, vec![160]);
    assert_eq!(t.pow_len, vec![0x12, 0x34]);
}

#[test]
fn each_broken_part_is_named() {
    let odd = HexError::OddLength;
    let bad = HexError::InvalidCharacter { c: 'g', index: 1 };
    assert_eq!(decode_template("1", "g", "g", "g", "g"), Err(TemplateError::Version(odd)));
    assert_eq!(decode_template("", "0g", "g", "g", "g"), Err(TemplateError::Commit(bad)));
    assert_eq!(decode_template("", "", "0g", "g", "g"), Err(TemplateError::NetworkTarget(bad)));
    assert_eq!(decode_template("", "", "", "123", "g"), Err(TemplateError::PoolTarget(odd)));
    assert_eq!(decode_template("", "", "", "", "0g"), Err(TemplateError::PowLen(bad)));
    let wide = HexError::InvalidCharacter { c: '\u{c3}', index: 0 };
    assert_eq!(decode_template("\u{e9}", "", "", "", ""), Err(TemplateError::Version(wide)));
}

#[test]
fn lower_hex_has_two_digits_for_each_byte() {
    assert_eq!(to_lower_hex(&[]), "");
    assert_eq!(to_lower_hex(&[0, 9, 10, 15, 16, 255]), "00090a0f10ff");
    let all: Vec<u8> = (0..=255).collect();
    assert_eq!(to_lower_hex(&all), hex::encode(&all));
}

#[test]
fn one_thread_unless_told_otherwise() {
    assert_eq!(benchmark(None, 3).unwrap().num_threads(), 1);
    assert_eq!(benchmark(Some(5), 3).unwrap().num_threads(), 5);
    let b = benchmark(None, 3).unwrap();
    assert_eq!(b.template().version, vec![2, 0, 0, 0, 0, 0, 0, 0]);
}

/// Records a thread whose first proof took `nanos` and whose others took none.
fn finish(b: &mut Benchmark, thread: u32, proofs: u32, nanos: u128) {
    let mut run = b.on_kernel_ready(thread);
    for n in 0..proofs {
        run.on_proof(if n == 0 { nanos } else { 0 });
    }
    assert!(b.can_record(&run));
    b.on_thread_done(&run);
    assert!(!b.can_record(&run));
}

#[test]
fn a_thread_makes_its_proofs_and_stops() {
    let b = benchmark(Some(5), 2).unwrap();
    let mut run = b.on_kernel_ready(4);
    let t = cued();
    let launch = run.next_attempt(Some(&t)).unwrap();
    assert_eq!(launch.thread, 4);
    assert!(launch.candidate.is_ok());
    assert_eq!(run.on_proof(10), 1);
    let without = run.next_attempt(None).unwrap();
    assert_eq!(without.candidate.unwrap_err(), MineError::NoTemplate);
    assert!(!b.can_record(&run));
    assert_eq!(run.on_proof(20), 2);
    assert!(run.next_attempt(Some(&t)).is_none());
    assert_eq!(*run.times(), vec![10, 20]);
    assert_eq!(run.total(), 30);
    assert!(b.can_record(&run));
    assert!(benchmark(None, 0).unwrap().on_kernel_ready(0).next_attempt(Some(&t)).is_none());
}

#[test]
fn only_finished_threads_of_the_benchmark_are_recorded() {
    let b = benchmark(Some(2), 1).unwrap();
    let mut other = benchmark(Some(2), 2).unwrap().on_kernel_ready(0);
    other.on_proof(1);
    other.on_proof(1);
    assert!(!b.can_record(&other));
    let mut stranger = benchmark(Some(3), 1).unwrap().on_kernel_ready(2);
    stranger.on_proof(1);
    assert!(!b.can_record(&stranger));
    let long = benchmark(Some(1), 2).unwrap();
    let mut run = long.on_kernel_ready(0);
    run.on_proof(MAX_DURATION);
    run.on_proof(1);
    assert!(!long.can_record(&run));
}

#[test]
fn a_summary_needs_a_finished_thread() {
    let b = benchmark(Some(2), 3).unwrap();
    assert!(b.can_summarize());
    assert_eq!(b.summary(1000), None);
}

#[test]
fn summaries_agree_with_durations() {
    let times = [
        Duration::new(7, 999_999_999),
        Duration::new(3, 1),
        Duration::new(11, 500_000_000),
    ];
    let wall = Duration::new(12, 345_678_901);
    let mut b = benchmark(Some(4), 5).unwrap();
    finish(&mut b, 2, 5, times[0].as_nanos());
    finish(&mut b, 0, 5, times[1].as_nanos());
    finish(&mut b, 3, 5, times[2].as_nanos());
    assert!(b.can_summarize());
    let total: Duration = times.iter().sum();
    assert_eq!(
        b.summary(wall.as_nanos()),
        Some(Summary {
            threads: 4,
            proofs_per_thread: 5,
            total_proofs: 15,
            average_time_per_proof: (wall / 15).as_nanos(),
            average_time_per_thread: (total / 3).as_nanos(),
            min_thread_time: times[1].as_nanos(),
            max_thread_time: times[2].as_nanos(),
            total_time_all_threads: total.as_nanos(),
            total_benchmark_time: wall.as_nanos(),
        })
    );
}

#[test]
fn averages_lie_between_the_extremes() {
    let mut b = benchmark(Some(2), 1).unwrap();
    finish(&mut b, 0, 1, 1);
    finish(&mut b, 1, 1, 2);
    let s = b.summary(5).unwrap();
    assert_eq!(s.average_time_per_thread, 1);
    assert_eq!(s.average_time_per_proof, 2);
    assert_eq!((s.min_thread_time, s.max_thread_time), (1, 2));
}

#[test]
fn impossible_summaries_are_seen() {
    let mut none = benchmark(None, 0).unwrap();
    finish(&mut none, 0, 0, 0);
    assert!(!none.can_summarize());
    let mut long = benchmark(Some(2), 1).unwrap();
    finish(&mut long, 0, 1, MAX_DURATION);
    assert!(long.can_summarize());
    finish(&mut long, 1, 1, 1);
    assert!(!long.can_summarize());
}

#[test]
fn durations_fit_up_to_the_longest() {
    assert_eq!(MAX_DURATION, Duration::MAX.as_nanos());
    assert!(durations_fit(&vec![]));
    assert!(durations_fit(&vec![MAX_DURATION, 0]));
    assert!(!durations_fit(&vec![1, MAX_DURATION]));
    assert_eq!(total_time(&vec![]), 0);
    assert_eq!(extreme_times(&vec![5, 3, 9, 3]), (3, 9));
}
