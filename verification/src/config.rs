//! Configuration of threads, inference and the table manager.

use std::path::PathBuf;

use vstd::prelude::*;

verus! {

/// `std::path::PathBuf`: model and script paths are carried, never looked into.
#[verifier::external_type_specification]
#[verifier::external_body]
pub struct ExPathBuf(std::path::PathBuf);

/// Calls `num_cpus::get`, which its documentation says always returns at
/// least 1; which count comes back depends on the machine and is not stated.
#[verifier::external_body]
fn logical_cores() -> (n: usize)
    ensures
        n >= 1,
{
    num_cpus::get()
}

#[derive(Debug, Clone)]
pub struct ThreadConfig {
    pub tokio_worker_threads: usize,
    pub rayon_worker_threads: usize,
    pub onnx_intra_threads: usize,
    pub onnx_inter_threads: usize,
    pub max_tables: usize,
}

/// The thread counts for a machine with `cores` logical cores: at least two
/// async workers, three quarters of them (rounded down) for data parallelism,
/// two ONNX threads each way and at most eight tables.
pub open spec fn thread_config_for(cores: usize) -> ThreadConfig {
    let c = if cores < 2 { 2 } else { cores };
    ThreadConfig {
        tokio_worker_threads: c,
        rayon_worker_threads: ((3 * c) / 4) as usize,
        onnx_intra_threads: 2,
        onnx_inter_threads: 2,
        max_tables: 8,
    }
}

impl ThreadConfig {
    /// The configuration for a machine with `cores` logical cores.
    pub fn for_cores(cores: usize) -> (c: ThreadConfig)
        ensures
            c == thread_config_for(cores),
    {
        let n = if cores < 2 { 2 } else { cores };
        let q = n / 4;
        let r = n % 4;
        proof {
            vstd::arithmetic::div_mod::lemma_fundamental_div_mod(n as int, 4);
            assert((3 * n) / 4 == 3 * q + (3 * r) / 4) by {
                vstd::arithmetic::div_mod::lemma_fundamental_div_mod_converse(
                    3 * n as int,
                    4,
                    3 * q + (3 * r) / 4,
                    (3 * r) % 4,
                );
            }
        }
        ThreadConfig {
            tokio_worker_threads: n,
            rayon_worker_threads: q * 3 + (r * 3) / 4,
            onnx_intra_threads: 2,
            onnx_inter_threads: 2,
            max_tables: 8,
        }
    }
}

impl Default for ThreadConfig {
    /// The configuration for this machine's logical core count.
    fn default() -> (c: ThreadConfig)
        ensures
            exists|n: usize| n >= 1 && c == thread_config_for(n),
    {
        let n = logical_cores();
        let c = ThreadConfig::for_cores(n);
        assert(n >= 1 && c == thread_config_for(n));
        c
    }
}

#[derive(Debug)]
pub struct InferenceConfig {
    pub card_model_path: PathBuf,
    pub digit_model_path: PathBuf,
    pub onnx_intra_threads: usize,
    pub onnx_inter_threads: usize,
    pub card_session_count: usize,
    pub digit_session_count: usize,
    pub use_gpu: bool,
}

#[derive(Debug, Clone, Copy, PartialEq, Eq, Structural)]
pub enum CaptureBackend {
    Dxgi,
    WindowsGraphicsCapture,
}

#[derive(Debug)]
pub struct ManagerConfig {
    pub max_tables: usize,
    pub fps_per_table: u32,
    pub capture_backend: CaptureBackend,
    pub thread_config: ThreadConfig,
    pub inference_config: InferenceConfig,
}

/// How a poker client's window is recognised.
#[derive(Debug, Clone)]
pub struct ClientSignature {
    /// Regular expression matched against window titles.
    pub window_title_regex: String,
    pub window_class: Option<String>,
    /// A weak hint: the main colour of the felt.
    pub felt_color_hint: Option<(u8, u8, u8)>,
}

} // verus!
