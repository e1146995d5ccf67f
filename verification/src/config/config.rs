//! Configuration structures.
use vstd::prelude::*;
use crate::config::defaults::{DEFAULT_BATCH_SIZE, DEFAULT_BUFFER_SIZE, DEFAULT_WORKERS};
use crate::json::ObjectMap;

verus! {

/// Input plugin configuration.
#[derive(Debug)]
pub struct InputConfig {
    /// Type of input plugin (e.g. "kafka", "stdin", "tcp", "udp").
    pub kind: String,
    /// Plugin-specific configuration.
    pub config: ObjectMap,
}

/// Filter plugin configuration.
#[derive(Debug)]
pub struct FilterConfig {
    /// Type of filter plugin (e.g. "add", "drop", "grok", "date").
    pub kind: String,
    /// Plugin-specific configuration.
    pub config: ObjectMap,
    /// Optional condition for applying this filter.
    pub condition: Option<String>,
}

/// Output plugin configuration.
#[derive(Debug)]
pub struct OutputConfig {
    /// Type of output plugin (e.g. "elasticsearch", "clickhouse", "kafka", "stdout").
    pub kind: String,
    /// Plugin-specific configuration.
    pub config: ObjectMap,
}

/// Main application configuration.
#[derive(Debug)]
pub struct AppConfig {
    /// Input configurations.
    pub inputs: Vec<InputConfig>,
    /// Filter configurations.
    pub filters: Vec<FilterConfig>,
    /// Output configurations.
    pub outputs: Vec<OutputConfig>,
    /// Number of worker threads.
    pub workers: usize,
    /// Batch size for processing events.
    pub batch_size: usize,
    /// Buffer size for internal channels.
    pub buffer_size: usize,
}

/// The default number of workers.
pub fn default_workers() -> (n: usize)
    ensures
        n == DEFAULT_WORKERS,
{
    DEFAULT_WORKERS
}

/// The default batch size.
pub fn default_batch_size() -> (n: usize)
    ensures
        n == DEFAULT_BATCH_SIZE,
{
    DEFAULT_BATCH_SIZE
}

/// The default buffer size.
pub fn default_buffer_size() -> (n: usize)
    ensures
        n == DEFAULT_BUFFER_SIZE,
{
    DEFAULT_BUFFER_SIZE
}

/// The first problem `AppConfig::validate` reports for these sizes and
/// numbers of inputs and outputs, if any.
pub open spec fn problem_of(workers: usize, batch_size: usize, buffer_size: usize, n_inputs: nat, n_outputs: nat) -> Option<Seq<char>> {
    if workers == 0 {
        Some("workers must be greater than 0"@)
    } else if batch_size == 0 {
        Some("batch_size must be greater than 0"@)
    } else if buffer_size == 0 {
        Some("buffer_size must be greater than 0"@)
    } else if n_inputs == 0 {
        Some("at least one input must be configured"@)
    } else if n_outputs == 0 {
        Some("at least one output must be configured"@)
    } else {
        None
    }
}

/// The first problem with these sizes, if any: a loader checks only these,
/// and accepts a configuration without plugins.
pub open spec fn size_problem(workers: usize, batch_size: usize, buffer_size: usize) -> Option<Seq<char>> {
    if workers == 0 {
        Some("workers must be greater than 0"@)
    } else if batch_size == 0 {
        Some("batch_size must be greater than 0"@)
    } else if buffer_size == 0 {
        Some("buffer_size must be greater than 0"@)
    } else {
        None
    }
}

/// The first problem `AppConfig::validate` reports, if any.
pub open spec fn config_problem(c: AppConfig) -> Option<Seq<char>> {
    problem_of(c.workers, c.batch_size, c.buffer_size, c.inputs@.len(), c.outputs@.len())
}

impl Default for AppConfig {
    /// No plugins, and the default workers, batch size and buffer size.
    fn default() -> (c: Self)
        ensures
            c.inputs@.len() == 0,
            c.filters@.len() == 0,
            c.outputs@.len() == 0,
            c.workers == DEFAULT_WORKERS,
            c.batch_size == DEFAULT_BATCH_SIZE,
            c.buffer_size == DEFAULT_BUFFER_SIZE,
    {
        AppConfig {
            inputs: Vec::new(),
            filters: Vec::new(),
            outputs: Vec::new(),
            workers: default_workers(),
            batch_size: default_batch_size(),
            buffer_size: default_buffer_size(),
        }
    }
}

impl AppConfig {
    /// A configuration with no plugins and default sizes.
    pub fn new() -> (c: Self)
        ensures
            c.inputs@.len() == 0,
            c.filters@.len() == 0,
            c.outputs@.len() == 0,
            c.workers == DEFAULT_WORKERS,
            c.batch_size == DEFAULT_BATCH_SIZE,
            c.buffer_size == DEFAULT_BUFFER_SIZE,
    {
        Self::default()
    }

    /// Checks the sizes and that at least one input and one output are
    /// configured, reporting the first problem found.
    pub fn validate(&self) -> (r: Result<(), String>)
        ensures
            r is Ok <==> config_problem(*self) is None,
            r matches Err(m) ==> config_problem(*self) == Some(m@),
    {
        if self.workers == 0 {
            return Err(crate::text::text_of("workers must be greater than 0"));
        }
        if self.batch_size == 0 {
            return Err(crate::text::text_of("batch_size must be greater than 0"));
        }
        if self.buffer_size == 0 {
            return Err(crate::text::text_of("buffer_size must be greater than 0"));
        }
        if self.inputs.len() == 0 {
            return Err(crate::text::text_of("at least one input must be configured"));
        }
        if self.outputs.len() == 0 {
            return Err(crate::text::text_of("at least one output must be configured"));
        }
        Ok(())
    }

    /// Whether neither inputs nor outputs are configured.
    pub fn is_empty(&self) -> (b: bool)
        ensures
            b == (self.inputs@.len() == 0 && self.outputs@.len() == 0),
    {
        self.inputs.len() == 0 && self.outputs.len() == 0
    }

    /// The total number of configured plugins.
    pub fn total_plugins(&self) -> (n: usize)
        requires
            self.inputs@.len() + self.filters@.len() + self.outputs@.len() <= usize::MAX,
        ensures
            n == self.inputs@.len() + self.filters@.len() + self.outputs@.len(),
    {
        self.inputs.len() + self.filters.len() + self.outputs.len()
    }
}

}
