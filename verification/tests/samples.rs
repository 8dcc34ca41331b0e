use nockpool_miner::telemetry::{DeviceInfo, NockPoolTelemetryProvider, Schedule};

#[test]
fn binaries_are_hashed() {
    assert_eq!(
        NockPoolTelemetryProvider::get_binary_hash(Some(b"hello world")),
        Some("b94d27b9934d3e08a52e52d7da7dabfac484efe37a5380ee9088f7ace2efcde9".to_string())
    );
    assert_eq!(
        NockPoolTelemetryProvider::get_binary_hash(Some(b"")),
        Some("e3b0c44298fc1c149afbf4c8996fb92427ae41e4649b934ca495991b7852b855".to_string())
    );
    assert_eq!(NockPoolTelemetryProvider::get_binary_hash(None), None);
}

#[test]
fn samples_come_after_a_minute_and_then_every_five() {
    let provider = NockPoolTelemetryProvider::new(None, None, "1.0.0".to_string());
    assert_eq!(
        provider.interval(),
        Schedule { first_secs: 60, period_secs: 300, skip_missed: true }
    );
}

#[test]
fn samples_carry_the_machine_and_the_miner() {
    let provider = NockPoolTelemetryProvider::new(
        Some(b"hello world"),
        Some("gpu".to_string()),
        "1.2.3".to_string(),
    );
    for n in 0..2u64 {
        let device = DeviceInfo {
            os: "linux".to_string(),
            cpu_model: "cpu".to_string(),
            ram_capacity_gb: 64u64,
        };
        let sample = provider.next_telemetry(device, 0.5f64, 8 + n, 1_700_000_000_000);
        assert_eq!(sample.device_os, "linux");
        assert_eq!(sample.device_cpu, "cpu");
        assert_eq!(sample.device_ram_capacity_gb, 64);
        assert_eq!(sample.device_proof_rate_per_sec, 0.5);
        assert_eq!(
            sample.zkvm_jetpack_hash,
            NockPoolTelemetryProvider::get_binary_hash(Some(b"hello world"))
        );
        assert_eq!(sample.miner_version, "1.2.3");
        assert_eq!(sample.gpu_info, Some("gpu".to_string()));
        assert_eq!(sample.num_threads, 8 + n);
        assert_eq!(sample.sent_at_unix_ms, 1_700_000_000_000);
    }
}

#[test]
fn an_unread_binary_has_no_hash() {
    let provider = NockPoolTelemetryProvider::new(None, None, "1".to_string());
    let device = DeviceInfo { os: String::new(), cpu_model: String::new(), ram_capacity_gb: 0u8 };
    let sample = provider.next_telemetry(device, 0u8, 0, 0);
    assert_eq!(sample.zkvm_jetpack_hash, None);
    assert_eq!(sample.gpu_info, None);
}
