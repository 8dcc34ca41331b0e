use nockpool_miner::threads::{num_threads, BYTES_PER_GB};

fn reference(max_threads: Option<u32>, logical_cores: usize, total_memory: u64) -> u64 {
    let logical_cores = logical_cores as u32;
    let total_ram_gb = total_memory / (1024 * 1024 * 1024);
    let by_ram = (total_ram_gb as f64 / 2.1).floor() as u32;
    let calculated = logical_cores.saturating_sub(2).min(by_ram).max(1);
    match max_threads {
        Some(limit) => limit.min(calculated) as u64,
        None => calculated as u64,
    }
}

#[test]
fn cores_and_memory_bound_the_threads() {
    assert_eq!(num_threads(None, 16, 64 * BYTES_PER_GB), 14);
    assert_eq!(num_threads(None, 64, 64 * BYTES_PER_GB), 30);
    assert_eq!(num_threads(None, 64, 21 * BYTES_PER_GB), 10);
    assert_eq!(num_threads(None, 64, 21 * BYTES_PER_GB - 1), 9);
}

#[test]
fn there_is_at_least_one_thread() {
    assert_eq!(num_threads(None, 0, 0), 1);
    assert_eq!(num_threads(None, 2, 64 * BYTES_PER_GB), 1);
    assert_eq!(num_threads(None, 64, BYTES_PER_GB), 1);
}

#[test]
fn the_limit_holds() {
    assert_eq!(num_threads(Some(4), 16, 64 * BYTES_PER_GB), 4);
    assert_eq!(num_threads(Some(40), 16, 64 * BYTES_PER_GB), 14);
    assert_eq!(num_threads(Some(0), 16, 64 * BYTES_PER_GB), 0);
}

#[test]
fn tenths_of_gigabytes_agree_with_floating_point() {
    for gb in 0..20_000u64 {
        let memory = gb * BYTES_PER_GB;
        let cores = u32::MAX as usize;
        assert_eq!(num_threads(None, cores, memory), reference(None, cores, memory));
    }
    for shift in 0..64 {
        for near in [0u64, 1, 20, 21, 22] {
            let memory = (u64::MAX >> shift).saturating_sub(near * BYTES_PER_GB);
            let cores = u32::MAX as usize;
            assert_eq!(num_threads(None, cores, memory), reference(None, cores, memory));
        }
    }
}

#[test]
fn larger_machines_run_no_fewer_threads() {
    let mut last = 0;
    for n in 0..200usize {
        let threads = num_threads(None, n, 4 * n as u64 * BYTES_PER_GB);
        assert!(threads >= last);
        last = threads;
    }
}
