//! The miner's settings and the wallet's network error.
use vstd::prelude::*;

verus! {

/// At most this many workers run at once.
pub const MAX_THREADS: u8 = 255;

pub struct MinerConfig {
    /// Wallet address to mine and receive block rewards on.
    pub miner_address: String,
    /// Work source address to connect to.
    pub daemon_address: String,
    /// Log level, by name.
    pub log_level: String,
    /// Run the hash function benchmark instead of mining.
    pub benchmark: bool,
    /// Iterations per thread in the benchmark.
    pub iterations: usize,
    pub disable_file_logging: bool,
    pub filename_log: String,
    /// Workers to run; 0 asks for one per detected hardware thread.
    pub num_threads: u8,
    /// Worker name shown by the work source.
    pub worker: String,
}

/// The number of workers for a requested count and the detected hardware
/// parallelism: the request when it is not 0, else the detected count
/// capped at 255, and never 0.
pub open spec fn threads_for(num_threads: u8, detected: usize) -> u8 {
    if num_threads >= 1 {
        num_threads
    } else if detected > MAX_THREADS {
        MAX_THREADS
    } else if detected == 0 {
        1
    } else {
        detected as u8
    }
}

impl MinerConfig {
    /// The number of workers to run on a machine with `detected` hardware threads.
    pub fn threads(&self, detected: usize) -> (r: u8)
        ensures
            r == threads_for(self.num_threads, detected),
            r >= 1,
    {
        if self.num_threads >= 1 {
            self.num_threads
        } else if detected > MAX_THREADS as usize {
            MAX_THREADS
        } else if detected == 0 {
            1
        } else {
            detected as u8
        }
    }
}

#[derive(Debug, Clone, Copy, PartialEq, Eq, Structural)]
pub enum NetworkError {
    /// The network handler is already running.
    AlreadyRunning,
}

} // verus!
