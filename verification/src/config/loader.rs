//! Decisions of configuration loading: environment overrides, merging and
//! validation of configurations read from YAML.
use vstd::prelude::*;
use crate::config::config::{size_problem, AppConfig, FilterConfig, InputConfig, OutputConfig};
use crate::config::defaults::{DEFAULT_BATCH_SIZE, DEFAULT_BUFFER_SIZE, DEFAULT_WORKERS};
use crate::text::{chars_of, push_text, text_of};

verus! {

/// Errors that can occur while loading a configuration.
#[derive(Debug)]
pub enum ConfigError {
    /// The file could not be read; the reason.
    FileReadError(String),
    /// The YAML could not be parsed; the reason.
    ParseError(String),
    /// The configuration is invalid; the problem.
    ValidationError(String),
    /// An environment variable could not be read; the reason.
    EnvError(String),
}

/// The text of a configuration error, as it is displayed.
pub open spec fn config_error_text(e: ConfigError) -> Seq<char> {
    match e {
        ConfigError::FileReadError(s) => "Failed to read configuration file: "@ + s@,
        ConfigError::ParseError(s) => "Failed to parse YAML configuration: "@ + s@,
        ConfigError::ValidationError(s) => "Configuration validation failed: "@ + s@,
        ConfigError::EnvError(s) => "Failed to read environment variable: "@ + s@,
    }
}

impl ConfigError {
    /// The text of this error, as it is displayed.
    pub fn message(&self) -> (r: String)
        ensures
            r@ == config_error_text(*self),
    {
        match self {
            ConfigError::FileReadError(s) => {
                let mut r = text_of("Failed to read configuration file: ");
                push_text(&mut r, s.as_str());
                r
            },
            ConfigError::ParseError(s) => {
                let mut r = text_of("Failed to parse YAML configuration: ");
                push_text(&mut r, s.as_str());
                r
            },
            ConfigError::ValidationError(s) => {
                let mut r = text_of("Configuration validation failed: ");
                push_text(&mut r, s.as_str());
                r
            },
            ConfigError::EnvError(s) => {
                let mut r = text_of("Failed to read environment variable: ");
                push_text(&mut r, s.as_str());
                r
            },
        }
    }
}

/// The value of a decimal digit character.
pub open spec fn digit_value(c: char) -> int {
    (c as u32) as int - 48
}

/// Whether a character is a decimal digit.
pub open spec fn is_digit(c: char) -> bool {
    '0' <= c && c <= '9'
}

/// The number a non-empty run of decimal digits denotes.
pub open spec fn digits_value(s: Seq<char>) -> nat
    decreases s.len(),
{
    if s.len() == 0 {
        0
    } else {
        (digits_value(s.drop_last()) * 10 + digit_value(s.last())) as nat
    }
}

/// What `str::parse::<usize>` gives: an optional '+' followed by one or more
/// decimal digits whose number fits in a `usize`.
pub open spec fn parse_usize_spec(s: Seq<char>) -> Option<usize> {
    if unsigned_digits(s).len() > 0 && all_digits(unsigned_digits(s)) && digits_value(unsigned_digits(s)) <= usize::MAX {
        Some(digits_value(unsigned_digits(s)) as usize)
    } else {
        None
    }
}

/// A text without its leading '+', if it has one.
pub open spec fn unsigned_digits(s: Seq<char>) -> Seq<char> {
    if s.len() > 0 && s[0] == '+' {
        s.drop_first()
    } else {
        s
    }
}

/// Every character of `d` is a decimal digit.
pub open spec fn all_digits(d: Seq<char>) -> bool {
    forall|i: int| 0 <= i < d.len() ==> is_digit(#[trigger] d[i])
}

proof fn lemma_digits_value_grows(d: Seq<char>, n: int)
    requires
        0 <= n <= d.len(),
        forall|i: int| 0 <= i < d.len() ==> is_digit(#[trigger] d[i]),
    ensures
        digits_value(d.take(n)) <= digits_value(d),
    decreases d.len() - n,
{
    if n < d.len() {
        lemma_digits_value_grows(d, n + 1);
        assert(d.take(n + 1).drop_last() =~= d.take(n));
        assert(is_digit(d[n]));
    } else {
        assert(d.take(n) =~= d);
    }
}

/// Parses a `usize` from decimal text as `str::parse::<usize>` does.
pub fn parse_usize(s: &str) -> (r: Option<usize>)
    ensures
        r == parse_usize_spec(s@),
{
    let cs = chars_of(s);
    let start: usize = if cs.len() > 0 && cs[0] == '+' { 1 } else { 0 };
    let ghost d = unsigned_digits(s@);
    proof {
        assert(d =~= cs@.skip(start as int));
    }
    if start >= cs.len() {
        return None;
    }
    let mut value: usize = 0;
    let mut i: usize = start;
    while i < cs.len()
        invariant
            start <= i <= cs@.len(),
            cs@ == s@,
            d == unsigned_digits(s@),
            d == cs@.skip(start as int),
            d.len() > 0,
            forall|j: int| 0 <= j < i - start ==> is_digit(#[trigger] d[j]),
            value == digits_value(d.take(i - start)),
        decreases cs@.len() - i,
    {
        let c = cs[i];
        if !('0' <= c && c <= '9') {
            proof {
                assert(d[i - start] == c);
                assert(!is_digit(d[i - start]));
                assert(!(forall|j: int| 0 <= j < d.len() ==> is_digit(#[trigger] d[j])));

            }
            return None;
        }
        let dv: usize = (c as u32 - 48) as usize;
        proof {
            assert(d.take(i - start + 1).drop_last() =~= d.take(i - start));
            assert(d.take(i - start + 1).last() == c);
        }
        let next = match value.checked_mul(10) {
            Some(x) => x.checked_add(dv),
            None => None,
        };
        match next {
            Some(x) => {
                value = x;
            },
            None => {
                proof {
                    assert(digit_value(c) == dv);
                    assert(digits_value(d.take(i - start + 1)) == value * 10 + dv);
                    if forall|j: int| 0 <= j < d.len() ==> is_digit(#[trigger] d[j]) {
                        lemma_digits_value_grows(d, i - start + 1);
                    }
                }
                return None;
            },
        }
        i = i + 1;
    }
    proof {
        assert(d.take(d.len() as int) =~= d);
    }
    Some(value)
}

/// The configuration after the overrides read from the environment: each
/// value that parses as a `usize` replaces workers or batch size.
pub open spec fn with_overrides(c: AppConfig, workers: Option<Seq<char>>, batch_size: Option<Seq<char>>) -> AppConfig {
    let w = match workers {
        Some(t) => match parse_usize_spec(t) {
            Some(n) => n,
            None => c.workers,
        },
        None => c.workers,
    };
    let b = match batch_size {
        Some(t) => match parse_usize_spec(t) {
            Some(n) => n,
            None => c.batch_size,
        },
        None => c.batch_size,
    };
    AppConfig { workers: w, batch_size: b, ..c }
}

/// The text of an optional string.
pub open spec fn opt_text(o: Option<String>) -> Option<Seq<char>> {
    match o {
        Some(s) => Some(s@),
        None => None,
    }
}

/// The configuration that results from merging `over` into `base`: the
/// sizes of `over` win; plugin lists are appended.
pub open spec fn merged(base: AppConfig, over: AppConfig) -> AppConfig {
    AppConfig {
        inputs: base.inputs,
        filters: base.filters,
        outputs: base.outputs,
        workers: over.workers,
        batch_size: over.batch_size,
        buffer_size: over.buffer_size,
    }
}

/// The workers after merging the first `n` configurations into a new one.
pub open spec fn merged_workers(cs: Seq<AppConfig>, n: int) -> usize {
    if n <= 0 {
        DEFAULT_WORKERS
    } else {
        cs[n - 1].workers
    }
}

/// The batch size after merging the first `n` configurations into a new one.
pub open spec fn merged_batch(cs: Seq<AppConfig>, n: int) -> usize {
    if n <= 0 {
        DEFAULT_BATCH_SIZE
    } else {
        cs[n - 1].batch_size
    }
}

/// The buffer size after merging the first `n` configurations into a new one.
pub open spec fn merged_buffer(cs: Seq<AppConfig>, n: int) -> usize {
    if n <= 0 {
        DEFAULT_BUFFER_SIZE
    } else {
        cs[n - 1].buffer_size
    }
}

/// The inputs of the first `n` configurations, in order.
pub open spec fn merged_inputs(cs: Seq<AppConfig>, n: int) -> Seq<InputConfig>
    decreases n,
{
    if n <= 0 {
        Seq::empty()
    } else {
        merged_inputs(cs, n - 1) + cs[n - 1].inputs@
    }
}

/// The filters of the first `n` configurations, in order.
pub open spec fn merged_filters(cs: Seq<AppConfig>, n: int) -> Seq<FilterConfig>
    decreases n,
{
    if n <= 0 {
        Seq::empty()
    } else {
        merged_filters(cs, n - 1) + cs[n - 1].filters@
    }
}

/// The outputs of the first `n` configurations, in order.
pub open spec fn merged_outputs(cs: Seq<AppConfig>, n: int) -> Seq<OutputConfig>
    decreases n,
{
    if n <= 0 {
        Seq::empty()
    } else {
        merged_outputs(cs, n - 1) + cs[n - 1].outputs@
    }
}

/// Loads configurations: applies environment overrides, and validates when
/// asked to.
#[derive(Debug)]
pub struct ConfigLoader {
    validate: bool,
}

impl Default for ConfigLoader {
    /// A loader that validates.
    fn default() -> (l: Self)
        ensures
            l.validates(),
    {
        ConfigLoader { validate: true }
    }
}

impl ConfigLoader {
    /// Whether this loader validates what it loads.
    pub closed spec fn validates(&self) -> bool {
        self.validate
    }

    /// A loader that validates.
    pub fn new() -> (l: Self)
        ensures
            l.validates(),
    {
        Self::default()
    }

    /// A loader that does not validate.
    pub fn without_validation() -> (l: Self)
        ensures
            !l.validates(),
    {
        ConfigLoader { validate: false }
    }

    /// Applies the values of GOHANGOUT_WORKERS and GOHANGOUT_BATCH_SIZE,
    /// when set: each that parses as a `usize` replaces the setting.
    pub fn apply_env_overrides(&self, config: &mut AppConfig, workers: Option<String>, batch_size: Option<String>) -> (r: Result<(), ConfigError>)
        ensures
            r is Ok,
            *final(config) == with_overrides(*old(config), opt_text(workers), opt_text(batch_size)),
    {
        match &workers {
            Some(t) => match parse_usize(t.as_str()) {
                Some(n) => {
                    config.workers = n;
                },
                None => {},
            },
            None => {},
        }
        match &batch_size {
            Some(t) => match parse_usize(t.as_str()) {
                Some(n) => {
                    config.batch_size = n;
                },
                None => {},
            },
            None => {},
        }
        Ok(())
    }

    /// Finishes loading a configuration parsed from YAML: applies the
    /// environment overrides, then, when this loader validates, checks the
    /// sizes (a configuration without plugins is accepted).
    pub fn load_parsed(&self, config: AppConfig, workers: Option<String>, batch_size: Option<String>) -> (r: Result<AppConfig, ConfigError>)
        ensures
            ({
                let c = with_overrides(config, opt_text(workers), opt_text(batch_size));
                if self.validates() && size_problem(c.workers, c.batch_size, c.buffer_size) is Some {
                    r matches Err(ConfigError::ValidationError(m)) && m@ == size_problem(c.workers, c.batch_size, c.buffer_size)->Some_0
                } else {
                    r == Ok::<AppConfig, ConfigError>(c)
                }
            }),
    {
        let mut config = config;
        let _ = self.apply_env_overrides(&mut config, workers, batch_size);
        if self.validate {
            match check_sizes(&config) {
                Ok(()) => Ok(config),
                Err(m) => Err(ConfigError::ValidationError(m)),
            }
        } else {
            Ok(config)
        }
    }

    /// Merges `over` into `base`, the second overriding the first: the sizes
    /// of `over` replace those of `base`; inputs, filters and outputs of
    /// `over` are appended to those of `base`.
    pub fn merge_configs(&self, base: &mut AppConfig, over: AppConfig)
        ensures
            final(base).workers == merged(*old(base), over).workers,
            final(base).batch_size == merged(*old(base), over).batch_size,
            final(base).buffer_size == merged(*old(base), over).buffer_size,
            final(base).inputs@ == old(base).inputs@ + over.inputs@,
            final(base).filters@ == old(base).filters@ + over.filters@,
            final(base).outputs@ == old(base).outputs@ + over.outputs@,
    {
        let mut over = over;
        base.workers = over.workers;
        base.batch_size = over.batch_size;
        base.buffer_size = over.buffer_size;
        base.inputs.append(&mut over.inputs);
        base.filters.append(&mut over.filters);
        base.outputs.append(&mut over.outputs);
    }

    /// Merges configurations loaded from several files, in order, into a
    /// new configuration (see `merge_configs`), and checks the sizes of the result
    /// when this loader validates.
    pub fn merge_loaded(&self, configs: Vec<AppConfig>) -> (r: Result<AppConfig, ConfigError>)
        ensures
            ({
                let w = merged_workers(configs@, configs@.len() as int);
                let b = merged_batch(configs@, configs@.len() as int);
                let f = merged_buffer(configs@, configs@.len() as int);
                let ins = merged_inputs(configs@, configs@.len() as int);
                let outs = merged_outputs(configs@, configs@.len() as int);
                let p = size_problem(w, b, f);
                &&& (self.validates() && p is Some) ==> (r matches Err(ConfigError::ValidationError(m)) && m@ == p->Some_0)
                &&& !(self.validates() && p is Some) ==> (r matches Ok(c) && c.workers == w && c.batch_size == b
                    && c.buffer_size == f && c.inputs@ == ins && c.outputs@ == outs
                    && c.filters@ == merged_filters(configs@, configs@.len() as int))
            }),
    {
        let mut merged_config = AppConfig::new();
        let ghost all = configs@;
        let mut configs = configs;
        let mut k: usize = 0;
        proof {
            assert(merged_inputs(all, 0) =~= Seq::<InputConfig>::empty());
            assert(merged_filters(all, 0) =~= Seq::<FilterConfig>::empty());
            assert(merged_outputs(all, 0) =~= Seq::<OutputConfig>::empty());
            assert(configs@ =~= all.skip(0));
            assert(configs@.len() == configs.len());
        }
        while configs.len() > 0
            invariant
                0 <= k <= all.len(),
                all.len() <= usize::MAX,
                configs@ == all.skip(k as int),
                merged_config.workers == merged_workers(all, k as int),
                merged_config.batch_size == merged_batch(all, k as int),
                merged_config.buffer_size == merged_buffer(all, k as int),
                merged_config.inputs@ == merged_inputs(all, k as int),
                merged_config.filters@ == merged_filters(all, k as int),
                merged_config.outputs@ == merged_outputs(all, k as int),
            decreases configs@.len(),
        {
            proof {
                assert(all.skip(k as int).len() > 0);
            }
            let c = configs.remove(0);
            proof {
                assert(c == all[k as int]);
                assert(configs@ =~= all.skip(k + 1));
            }
            self.merge_configs(&mut merged_config, c);
            k = k + 1;
        }
        if self.validate {
            match check_sizes(&merged_config) {
                Ok(()) => Ok(merged_config),
                Err(m) => Err(ConfigError::ValidationError(m)),
            }
        } else {
            Ok(merged_config)
        }
    }
}

/// Checks the sizes of a loaded configuration, reporting the first problem.
fn check_sizes(c: &AppConfig) -> (r: Result<(), String>)
    ensures
        r is Ok <==> size_problem(c.workers, c.batch_size, c.buffer_size) is None,
        r matches Err(m) ==> size_problem(c.workers, c.batch_size, c.buffer_size) == Some(m@),
{
    if c.workers == 0 {
        return Err(text_of("workers must be greater than 0"));
    }
    if c.batch_size == 0 {
        return Err(text_of("batch_size must be greater than 0"));
    }
    if c.buffer_size == 0 {
        return Err(text_of("buffer_size must be greater than 0"));
    }
    Ok(())
}

}
