//! Telemetry: what the miner reports about itself, and when.

use sha2::Digest;
use vstd::prelude::*;

use crate::hexadecimal::to_lower_hex;
use crate::hexadecimal::{decodes_to, lower_hex};
use crate::hexadecimal::{law_lower_hex_decodes_back, law_lower_hex_is_injective};

verus! {

/// Seconds until the first sample.
pub const FIRST_SAMPLE_SECS: u64 = 60;

/// Seconds from one sample to the next.
pub const SAMPLE_PERIOD_SECS: u64 = 300;

/// When samples are due.
#[derive(Clone, Copy, Debug, PartialEq, Eq)]
pub struct Schedule {
    /// Seconds until the first sample.
    pub first_secs: u64,
    /// Seconds from one sample to the next.
    pub period_secs: u64,
    /// Whether samples that were missed are dropped, so that a stalled runtime
    /// does not emit a burst.
    pub skip_missed: bool,
}

/// What a machine tells about itself. `M` is the type in which the caller
/// gives the amount of memory.
#[derive(Debug)]
pub struct DeviceInfo<M> {
    pub os: String,
    pub cpu_model: String,
    pub ram_capacity_gb: M,
}

/// A sample. `M` and `R` are the types in which the caller gives the amount of
/// memory and the rate of proofs.
#[derive(Debug)]
pub struct TelemetryData<M, R> {
    pub device_os: String,
    pub device_cpu: String,
    pub device_ram_capacity_gb: M,
    pub device_proof_rate_per_sec: R,
    pub zkvm_jetpack_hash: Option<String>,
    pub miner_version: String,
    pub gpu_info: Option<String>,
    pub num_threads: u64,
    pub sent_at_unix_ms: i64,
}

/// The SHA-256 digest of a byte string.
pub uninterp spec fn sha256(bytes: Seq<u8>) -> Seq<u8>;

/// The SHA-256 digest of a byte string. Calls `digest` of `sha2::Sha256`,
/// which depends on the bytes alone and returns an array of 32 bytes.
#[verifier::external_body]
fn sha256_digest(bytes: &[u8]) -> (r: Vec<u8>)
    ensures
        r@ == sha256(bytes@),
        r@.len() == 32,
{
    sha2::Sha256::digest(bytes).to_vec()
}

/// The value of a text that may be missing.
pub open spec fn optional_text(text: Option<String>) -> Option<Seq<char>> {
    match text {
        Some(text) => Some(text@),
        None => None,
    }
}

/// A copy of a text that may be missing.
fn copy_text(text: &Option<String>) -> (r: Option<String>)
    ensures
        optional_text(r) == optional_text(*text),
{
    match text {
        Some(text) => Some(text.clone()),
        None => None,
    }
}

/// The source of telemetry samples.
#[derive(Debug)]
pub struct NockPoolTelemetryProvider {
    interval: Schedule,
    binary_hash: Option<String>,
    gpu_info: Option<String>,
    miner_version: String,
}

/// The value of a [`NockPoolTelemetryProvider`].
pub struct ProviderView {
    pub interval: Schedule,
    /// The SHA-256 digest of the miner's binary, in lower-case hexadecimal.
    pub binary_hash: Option<Seq<char>>,
    pub gpu_info: Option<Seq<char>>,
    pub miner_version: Seq<char>,
}

impl View for NockPoolTelemetryProvider {
    type V = ProviderView;

    closed spec fn view(&self) -> ProviderView {
        ProviderView {
            interval: self.interval,
            binary_hash: optional_text(self.binary_hash),
            gpu_info: optional_text(self.gpu_info),
            miner_version: self.miner_version@,
        }
    }
}

/// The hash of a binary, in lower-case hexadecimal; none where the binary
/// could not be read.
pub open spec fn binary_hash_of(binary: Option<Seq<u8>>) -> Option<Seq<char>> {
    match binary {
        Some(bytes) => Some(lower_hex(sha256(bytes))),
        None => None,
    }
}

/// The hash that is reported is that of the whole binary, whatever its length,
/// and as a text it decodes to the digest. Two binaries are reported alike
/// exactly when their digests are the same. Without a binary there is no hash.
pub proof fn law_whole_binary_is_hashed(binary: Seq<u8>, other: Seq<u8>)
    ensures
        binary_hash_of(Some(binary)) == Some(lower_hex(sha256(binary))),
        binary_hash_of(None) is None,
        binary_hash_of(Some(binary)) matches Some(text) && decodes_to(
            Seq::new(text.len(), |i: int| text[i] as u8),
            sha256(binary),
        ),
        binary_hash_of(Some(binary)) == binary_hash_of(Some(other)) <==> sha256(binary) == sha256(
            other,
        ),
{
    let digest = sha256(binary);
    let text = lower_hex(digest);
    law_lower_hex_decodes_back(digest);
    assert(Seq::new(text.len(), |i: int| text[i] as u8) =~= Seq::new(
        2 * digest.len(),
        |i: int| lower_hex(digest)[i] as u8,
    ));
    law_lower_hex_is_injective(digest, sha256(other));
}

/// A text that may be missing has the value of the text.
pub proof fn law_optional_text(text: String)
    ensures
        optional_text(Some(text)) == Some(text@),
        optional_text(None) is None,
{
}

impl NockPoolTelemetryProvider {
    /// A source of samples for a miner with this binary, graphics hardware and
    /// version. The binary is missing where it could not be read.
    pub fn new(
        binary: Option<&[u8]>,
        gpu_info: Option<String>,
        miner_version: String,
    ) -> (r: NockPoolTelemetryProvider)
        ensures
            r@ == (ProviderView {
                interval: Schedule { first_secs: 60, period_secs: 300, skip_missed: true },
                binary_hash: binary_hash_of(
                    match binary {
                        Some(bytes) => Some(bytes@),
                        None => None,
                    },
                ),
                gpu_info: optional_text(gpu_info),
                miner_version: miner_version@,
            }),
    {
        NockPoolTelemetryProvider {
            interval: Schedule {
                first_secs: FIRST_SAMPLE_SECS,
                period_secs: SAMPLE_PERIOD_SECS,
                skip_missed: true,
            },
            binary_hash: Self::get_binary_hash(binary),
            gpu_info,
            miner_version,
        }
    }

    /// The SHA-256 digest of a binary, in lower-case hexadecimal.
    pub fn get_binary_hash(binary: Option<&[u8]>) -> (r: Option<String>)
        ensures
            optional_text(r) == binary_hash_of(
                match binary {
                    Some(bytes) => Some(bytes@),
                    None => None,
                },
            ),
            r is Some <==> binary is Some,
            binary is Some ==> r->0@ == lower_hex(sha256(binary->0@)),
            r matches Some(text) ==> text@.len() == 64,
    {
        match binary {
            Some(bytes) => {
                let digest = sha256_digest(bytes);
                Some(to_lower_hex(digest.as_slice()))
            },
            None => None,
        }
    }

    /// When samples are due.
    pub fn interval(&self) -> (r: Schedule)
        ensures
            r == self@.interval,
    {
        self.interval
    }

    /// The sample that is due, of a machine in this state.
    pub fn next_telemetry<M, R>(
        &self,
        device_info: DeviceInfo<M>,
        proof_rate: R,
        num_threads: u64,
        now_unix_ms: i64,
    ) -> (r: TelemetryData<M, R>)
        ensures
            r.device_os == device_info.os,
            r.device_cpu == device_info.cpu_model,
            r.device_ram_capacity_gb == device_info.ram_capacity_gb,
            r.device_proof_rate_per_sec == proof_rate,
            optional_text(r.zkvm_jetpack_hash) == self@.binary_hash,
            r.miner_version@ == self@.miner_version,
            optional_text(r.gpu_info) == self@.gpu_info,
            r.num_threads == num_threads,
            r.sent_at_unix_ms == now_unix_ms,
    {
        TelemetryData {
            device_os: device_info.os,
            device_cpu: device_info.cpu_model,
            device_ram_capacity_gb: device_info.ram_capacity_gb,
            device_proof_rate_per_sec: proof_rate,
            zkvm_jetpack_hash: copy_text(&self.binary_hash),
            miner_version: self.miner_version.clone(),
            gpu_info: copy_text(&self.gpu_info),
            num_threads,
            sent_at_unix_ms: now_unix_ms,
        }
    }
}

} // verus!
