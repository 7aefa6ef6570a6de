//! Job configuration: the knobs fixed before a download job starts,
//! and the validation that rejects them before any work is done.
use vstd::prelude::*;

verus! {

/// Why a configuration was rejected.
#[derive(Clone, Copy, PartialEq, Eq, Structural, Debug)]
pub enum ConfigError {
    ZeroConnectionCount,
    ZeroChunkSize,
    ZeroSpeedLimit,
}

/// Immutable parameters of one download job.
#[derive(Clone, Copy, Debug)]
pub struct JobConfig {
    pub connection_count: u8,
    pub chunk_size: usize,
    pub speed_limit: Option<usize>,
    pub progress: bool,
    pub silence: bool,
}

/// A valid configuration: every numeric knob is positive.
pub open spec fn config_wf(c: JobConfig) -> bool {
    &&& 1 <= c.connection_count
    &&& 1 <= c.chunk_size
    &&& (c.speed_limit matches Some(s) ==> 1 <= s)
}

impl JobConfig {
    /// Validates the raw flag values. Zero is rejected wherever a
    /// positive number is required, checked in this order: connection
    /// count, chunk size, speed limit; otherwise the configuration is
    /// accepted with the values as given.
    pub fn new(
        connection_count: u8,
        chunk_size: usize,
        speed_limit: Option<usize>,
        progress: bool,
        silence: bool,
    ) -> (r: Result<JobConfig, ConfigError>)
        ensures
            r matches Err(ConfigError::ZeroConnectionCount) <==> connection_count == 0,
            r matches Err(ConfigError::ZeroChunkSize) <==> connection_count != 0 && chunk_size
                == 0,
            r matches Err(ConfigError::ZeroSpeedLimit) <==> connection_count != 0 && chunk_size
                != 0 && speed_limit == Some(0usize),
            r matches Ok(c) ==> {
                &&& config_wf(c)
                &&& c.connection_count == connection_count
                &&& c.chunk_size == chunk_size
                &&& c.speed_limit == speed_limit
                &&& c.progress == progress
                &&& c.silence == silence
            },
            r is Ok <==> connection_count != 0 && chunk_size != 0 && speed_limit != Some(0usize),
    {
        if connection_count == 0 {
            Err(ConfigError::ZeroConnectionCount)
        } else if chunk_size == 0 {
            Err(ConfigError::ZeroChunkSize)
        } else {
            match speed_limit {
                Some(limit) if limit == 0 => Err(ConfigError::ZeroSpeedLimit),
                _ => Ok(
                    JobConfig { connection_count, chunk_size, speed_limit, progress, silence },
                ),
            }
        }
    }

    /// Whether the job runs a render loop at all: progress display is
    /// on and output is not silenced.
    pub fn should_render(&self) -> (r: bool)
        ensures
            r == (self.progress && !self.silence),
    {
        self.progress && !self.silence
    }

    /// Whether the final summary line and the saved path are printed
    /// once the transfer resolves.
    pub fn prints_summary(&self) -> (r: bool)
        ensures
            r == !self.silence,
    {
        !self.silence
    }
}

impl Default for JobConfig {
    /// Three connections, 4 MiB chunks, no speed ceiling, progress
    /// shown, output not silenced.
    fn default() -> (c: Self)
        ensures
            c.connection_count == 3,
            c.chunk_size == 4194304,
            c.speed_limit is None,
            c.progress == true,
            c.silence == false,
            config_wf(c),
    {
        JobConfig {
            connection_count: 3,
            chunk_size: 4194304,
            speed_limit: None,
            progress: true,
            silence: false,
        }
    }
}

} // verus!
