//! Standard output: events formatted and handed, as text, to the program's
//! standard output.
use vstd::prelude::*;
use crate::event::event::Event;
use crate::json::{JsonValue, JsonView, ObjectMap};
use crate::output::format::{
    build_formatter, format_error_text, format_named, formatter_matches, stamped, FormatError, Formatter,
    OutputFormat, StandardFormatter,
};
use crate::plugin::error::{PluginError, PluginResult};
use crate::plugin::traits::{FromConfig, Output};
use crate::plugin::types::{OutputStats, PluginConfig, PluginStatus, PluginType};
use crate::text::{chars_of, join_texts, push_char, push_text, text_of, texts_of};

verus! {

/// A piece of output as it is written: with a line ending added when it has
/// none.
pub open spec fn as_line(t: Seq<char>) -> Seq<char> {
    if t.len() > 0 && t.last() == '\n' {
        t
    } else {
        t.push('\n')
    }
}

/// Whether `after` is `before` with the events `events` written one by
/// one, in order: each stamped, formatted by `f` and written as a line.
pub open spec fn written_each(f: StandardFormatter, events: Seq<Event>, before: Seq<Seq<char>>, after: Seq<Seq<char>>) -> bool {
    exists|outs: Seq<String>, stamps: Seq<Event>|
        #![trigger outs.len(), stamps.len()]
        outs.len() == events.len() && stamps.len() == events.len()
        && (forall|i: int| 0 <= i < events.len() ==> stamped(events[i], #[trigger] stamps[i])
            && f.formats(stamps[i].spec_data(), Ok::<String, FormatError>(outs[i])))
        && after == before + outs.map_values(|t: String| as_line(t@))
}

/// Whether `t` is the text of the events `events`, each stamped and
/// formatted by `f`, one line each, in order.
pub open spec fn stamped_batch_text(f: StandardFormatter, events: Seq<Event>, t: Seq<char>) -> bool {
    exists|outs: Seq<String>, stamps: Seq<Event>|
        #![trigger texts_of(outs), stamps.len()]
        outs.len() == events.len() && stamps.len() == events.len()
        && (forall|i: int| 0 <= i < events.len() ==> stamped(events[i], #[trigger] stamps[i])
            && f.formats(stamps[i].spec_data(), Ok::<String, FormatError>(outs[i])))
        && t == join_texts(texts_of(outs), "\n"@)
}

/// The format setting of `cfg`: its text, or `json`.
pub open spec fn format_setting(cfg: ObjectMap) -> Seq<char> {
    match cfg.spec_get("format"@) {
        Some(JsonValue::String(s)) => s@,
        _ => "json"@,
    }
}

/// The unsigned setting `key` of `cfg`, or `default`.
pub open spec fn setting_u64(cfg: ObjectMap, key: Seq<char>, default: u64) -> u64 {
    match cfg.spec_get(key) {
        Some(v) => match v.spec_as_u64() {
            Some(u) => u,
            None => default,
        },
        None => default,
    }
}

/// Writes events to standard output in a configured format, one at a time
/// Whether `r` is what making a standard output from `config` gives.
pub open spec fn stdout_made_from(config: PluginConfig, r: PluginResult<StdoutOutput>) -> bool {
    &&& format_named(format_setting(config.config)) is None ==> (r matches Err(PluginError::ConfigurationError(s))
                    && s@ == "Invalid output format: "@ + format_setting(config.config))
    &&& format_named(format_setting(config.config)) matches Some(f) ==> (r matches Ok(o) && o.spec_format() == f
                    && formatter_matches(o.spec_formatter(), f, config.config)
                    && o.spec_buffer_size() == setting_u64(config.config, "buffer_size"@, 8192) as usize
                    && o.spec_flush_interval() == setting_u64(config.config, "flush_interval"@, 1000)
                    && o.spec_name() == config.name@ && o.spec_config() == config.config@
                    && o.buffered() == Seq::<Event>::empty() && o.pending() == Seq::<Seq<char>>::empty()
                    && o.spec_stats() == (OutputStats { events_written: 0, bytes_written: 0, errors: 0, write_time_ms: 0 }))
}

/// or, for larger batches, in buffered groups.
pub struct StdoutOutput {
    name: String,
    config: ObjectMap,
    formatter: StandardFormatter,
    format: OutputFormat,
    buffer_size: usize,
    flush_interval: u64,
    stats: OutputStats,
    write_buffer: Vec<Event>,
    pending: Vec<String>,
}

/// The unsigned setting `key` of `cfg`, or `default`.
fn u64_setting(cfg: &ObjectMap, key: &str, default: u64) -> (r: u64)
    ensures
        r == setting_u64(*cfg, key@, default),
{
    match cfg.get(key) {
        Some(v) => match v.as_u64() {
            Some(u) => u,
            None => default,
        },
        None => default,
    }
}

impl StdoutOutput {
    /// The plugin name.
    pub closed spec fn spec_name(&self) -> Seq<char> {
        self.name@
    }

    /// The settings.
    pub closed spec fn spec_config(&self) -> Map<Seq<char>, JsonView> {
        self.config@
    }

    /// The formatter.
    pub closed spec fn spec_formatter(&self) -> StandardFormatter {
        self.formatter
    }

    /// The format.
    pub closed spec fn spec_format(&self) -> OutputFormat {
        self.format
    }

    /// The number of events gathered before a buffered group is written.
    pub closed spec fn spec_buffer_size(&self) -> usize {
        self.buffer_size
    }

    /// The flush interval, in milliseconds.
    pub closed spec fn spec_flush_interval(&self) -> u64 {
        self.flush_interval
    }

    /// The statistics.
    pub closed spec fn spec_stats(&self) -> OutputStats {
        self.stats
    }

    /// The events gathered and not yet written.
    pub closed spec fn buffered(&self) -> Seq<Event> {
        self.write_buffer@
    }

    /// The text written and not yet taken by standard output, piece by piece.
    pub closed spec fn pending(&self) -> Seq<Seq<char>> {
        texts_of(self.pending@)
    }

    /// The output that `config` describes: the `format` (json unless set),
    /// the `buffer_size` (8192 unless set) and the `flush_interval` (1000
    /// unless set), with the formatter settings.
    pub fn from_config(config: &PluginConfig) -> (r: PluginResult<StdoutOutput>)
        ensures
            format_named(format_setting(config.config)) is None ==> (r matches Err(PluginError::ConfigurationError(s))
                && s@ == "Invalid output format: "@ + format_setting(config.config)),
            format_named(format_setting(config.config)) matches Some(f) ==> (r matches Ok(o) && o.spec_format() == f
                && formatter_matches(o.spec_formatter(), f, config.config)
                && o.spec_buffer_size() == setting_u64(config.config, "buffer_size"@, 8192) as usize
                && o.spec_flush_interval() == setting_u64(config.config, "flush_interval"@, 1000)
                && o.spec_name() == config.name@ && o.spec_config() == config.config@
                && o.buffered() == Seq::<Event>::empty() && o.pending() == Seq::<Seq<char>>::empty()
                && o.spec_stats() == (OutputStats { events_written: 0, bytes_written: 0, errors: 0, write_time_ms: 0 })),
    {
        let format_text: &str = match config.config.get("format") {
            Some(JsonValue::String(s)) => s.as_str(),
            _ => "json",
        };
        let format = match OutputFormat::from_str(format_text) {
            Some(f) => f,
            None => {
                let mut msg = text_of("Invalid output format: ");
                push_text(&mut msg, format_text);
                return Err(PluginError::ConfigurationError(msg));
            },
        };
        let buffer_size = u64_setting(&config.config, "buffer_size", 8192) as usize;
        let flush_interval = u64_setting(&config.config, "flush_interval", 1000);
        let formatter = build_formatter(format, &config.config);
        let o = StdoutOutput {
            name: config.name.clone(),
            config: config.config.clone(),
            formatter,
            format,
            buffer_size,
            flush_interval,
            stats: OutputStats::default(),
            write_buffer: Vec::new(),
            pending: Vec::new(),
        };
        proof {
            assert(o.pending() =~= Seq::<Seq<char>>::empty());
        }
        Ok(o)
    }

    /// Whether the gathered events are due to be written: as many as the
    /// buffer size, or the flush interval passed since the last flush
    /// (`since_flush_ms`, absent when there was none).
    pub fn needs_flush(&self, since_flush_ms: Option<u64>) -> (b: bool)
        ensures
            b == (self.buffered().len() >= self.spec_buffer_size()
                || (since_flush_ms matches Some(ms) && ms >= self.spec_flush_interval())),
    {
        if self.write_buffer.len() >= self.buffer_size {
            return true;
        }
        match since_flush_ms {
            Some(ms) => ms >= self.flush_interval,
            None => false,
        }
    }

    /// Takes the text written so far, oldest first.
    pub fn take_output(&mut self) -> (r: Vec<String>)
        ensures
            texts_of(r@) == old(self).pending(),
            final(self).pending() == Seq::<Seq<char>>::empty(),
            final(self).buffered() == old(self).buffered(),
            final(self).spec_formatter() == old(self).spec_formatter(),
            final(self).spec_buffer_size() == old(self).spec_buffer_size(),
    {
        let mut r: Vec<String> = Vec::new();
        std::mem::swap(&mut r, &mut self.pending);
        proof {
            assert(self.pending() =~= Seq::<Seq<char>>::empty());
        }
        r
    }

    /// Hands `formatted` to standard output, with a line ending when it has
    /// none, and counts one write.
    fn write_formatted(&mut self, formatted: String)
        ensures
            final(self).spec_name() == old(self).spec_name(),
            final(self).pending() == old(self).pending().push(as_line(formatted@)),
            final(self).buffered() == old(self).buffered(),
            final(self).spec_formatter() == old(self).spec_formatter(),
            final(self).spec_buffer_size() == old(self).spec_buffer_size(),
            final(self).spec_stats().events_written == (if old(self).spec_stats().events_written < u64::MAX {
                old(self).spec_stats().events_written + 1
            } else {
                u64::MAX as int
            }),
    {
        let mut t = formatted;
        let cs = chars_of(t.as_str());
        if !(cs.len() > 0 && cs[cs.len() - 1] == '\n') {
            push_char(&mut t, '\n');
        }
        self.pending.push(t);
        proof {
            assert(self.pending() =~= old(self).pending().push(as_line(formatted@)));
        }
        if self.stats.events_written < u64::MAX {
            self.stats.events_written = self.stats.events_written + 1;
        }
    }

    /// Formats the events of `group`, stamped, as one piece of lines and
    /// hands it to standard output.
    fn write_group(&mut self, group: &Vec<Event>, context: &str) -> (r: PluginResult<()>)
        ensures
            final(self).spec_name() == old(self).spec_name(),
            r is Ok,
            final(self).pending().len() == old(self).pending().len() + 1,
            exists|t: Seq<char>| #[trigger] stamped_batch_text(old(self).spec_formatter(), group@, t)
                && final(self).pending() == old(self).pending().push(as_line(t)),
            final(self).buffered() == old(self).buffered(),
            final(self).spec_formatter() == old(self).spec_formatter(),
            final(self).spec_buffer_size() == old(self).spec_buffer_size(),
    {
        match self.formatter.format_batch_with_timestamp(group.as_slice()) {
            Ok(text) => {
                proof {
                    assert(stamped_batch_text(self.formatter, group@, text@));
                }
                self.write_formatted(text);
                Ok(())
            },
            Err(e) => {
                proof {
                    let i = choose|i: int, s: Event| #![trigger stamped(group@[i], s)] 0 <= i < group@.len() && stamped(group@[i], s) && self.formatter.formats(s.spec_data(), Err::<String, FormatError>(e));
                }
                let mut msg = text_of(context);
                push_text(&mut msg, e.message().as_str());
                Err(PluginError::ExecutionError(msg))
            },
        }
    }
}

impl Output for StdoutOutput {
    open spec fn known_name(&self) -> Option<Seq<char>> {
        Some(self.spec_name())
    }

    /// Nothing is gathered.
    open spec fn prepared(&self) -> bool {
        self.buffered() == Seq::<Event>::empty()
    }

    /// Nothing is gathered.
    open spec fn released(&self) -> bool {
        self.buffered() == Seq::<Event>::empty()
    }

    /// Preparing never fails.
    open spec fn initialize_fails_with(&self, e: PluginError) -> bool {
        false
    }

    /// Shutting down never fails.
    open spec fn shutdown_fails_with(&self, e: PluginError) -> bool {
        false
    }

    /// Writing never fails.
    open spec fn write_fails_with(&self, e: PluginError) -> bool {
        false
    }

    /// Nothing is held back once the gathered events are written.
    open spec fn flushed(&self) -> bool {
        self.buffered().len() == 0
    }

    fn name(&self) -> (r: &str)
        ensures
            r@ == self.spec_name(),
    {
        self.name.as_str()
    }

    fn config(&self) -> (r: &ObjectMap)
        ensures
            r@ == self.spec_config(),
    {
        &self.config
    }

    /// Refuses a zero buffer size, a zero flush interval and a buffer size
    /// above 1,000,000, in that order.
    fn validate_config(&self) -> (r: PluginResult<()>)
        ensures
            self.spec_buffer_size() == 0 ==> (r matches Err(PluginError::ConfigurationError(s)) && s@ == "Buffer size must be greater than 0"@),
            self.spec_buffer_size() != 0 && self.spec_flush_interval() == 0 ==> (r matches Err(PluginError::ConfigurationError(s))
                && s@ == "Flush interval must be greater than 0"@),
            self.spec_buffer_size() != 0 && self.spec_flush_interval() != 0 && self.spec_buffer_size() > 1_000_000
                ==> (r matches Err(PluginError::ConfigurationError(s)) && s@ == "Buffer size cannot exceed 1,000,000"@),
            self.spec_buffer_size() != 0 && self.spec_flush_interval() != 0 && self.spec_buffer_size() <= 1_000_000 ==> r is Ok,
    {
        if self.buffer_size == 0 {
            return Err(PluginError::ConfigurationError(text_of("Buffer size must be greater than 0")));
        }
        if self.flush_interval == 0 {
            return Err(PluginError::ConfigurationError(text_of("Flush interval must be greater than 0")));
        }
        if self.buffer_size > 1_000_000 {
            return Err(PluginError::ConfigurationError(text_of("Buffer size cannot exceed 1,000,000")));
        }
        Ok(())
    }

    /// Drops the gathered events.
    fn initialize(&mut self) -> (r: PluginResult<()>)
        ensures
            r is Ok,
            final(self).buffered() == Seq::<Event>::empty(),
            final(self).pending() == old(self).pending(),
    {
        self.write_buffer = Vec::new();
        Ok(())
    }

    /// Writes out the gathered events.
    fn shutdown(&mut self) -> (r: PluginResult<()>)
        ensures
            r is Ok,
            final(self).buffered() == Seq::<Event>::empty(),
    {
        self.flush()
    }

    fn status(&self) -> (s: PluginStatus)
        ensures
            s == PluginStatus::Ready,
    {
        PluginStatus::Ready
    }

    /// Formats a stamped copy of `event` and hands it to standard output.
    fn write(&mut self, event: Event) -> (r: PluginResult<()>)
        ensures
            r is Ok,
            exists|s: Event, t: String| stamped(event, s) && #[trigger] old(self).spec_formatter().formats(s.spec_data(), Ok::<String, FormatError>(t))
                && final(self).pending() == old(self).pending().push(as_line(t@)),
            final(self).buffered() == old(self).buffered(),
            final(self).spec_formatter() == old(self).spec_formatter(),
            final(self).spec_buffer_size() == old(self).spec_buffer_size(),
    {
        match self.formatter.format_with_timestamp(&event) {
            Ok(t) => {
                let ghost tv = t;
                self.write_formatted(t);
                proof {
                    let s = choose|s: Event| stamped(event, s) && #[trigger] self.formatter.formats(s.spec_data(), Ok::<String, FormatError>(tv));
                    assert(old(self).spec_formatter().formats(s.spec_data(), Ok::<String, FormatError>(tv)));
                }
                Ok(())
            },
            Err(e) => {
                proof {
                    let s = choose|s: Event| stamped(event, s) && #[trigger] self.formatter.formats(s.spec_data(), Err::<String, FormatError>(e));
                }
                let mut msg = text_of("Failed to format event: ");
                push_text(&mut msg, e.message().as_str());
                Err(PluginError::ExecutionError(msg))
            },
        }
    }

    /// Up to ten events are written one by one; more are gathered, and each
    /// time the gathered events reach the buffer size they are written as
    /// one group.
    fn write_batch(&mut self, events: Vec<Event>) -> (r: PluginResult<()>)
        ensures
            r is Ok,
            events@.len() == 0 ==> final(self).pending() == old(self).pending(),
            events@.len() <= 10 ==> final(self).buffered() == old(self).buffered()
                && final(self).pending().len() == old(self).pending().len() + events@.len()
                && written_each(old(self).spec_formatter(), events@, old(self).pending(), final(self).pending()),
            events@.len() > 10 ==> exists|k: int| 0 <= k <= old(self).buffered().len() + events@.len()
                && #[trigger] (old(self).buffered() + events@).skip(k) == final(self).buffered(),
            final(self).spec_formatter() == old(self).spec_formatter(),
            final(self).spec_buffer_size() == old(self).spec_buffer_size(),
    {
        let ghost events0 = events@;
        let ghost f0 = self.spec_formatter();
        let ghost pend0 = self.pending();
        if events.len() == 0 {
            proof {
                let outs = Seq::<String>::empty();
                let stamps = Seq::<Event>::empty();
                assert(pend0 + outs.map_values(|t: String| as_line(t@)) =~= pend0);
                assert(outs.len() == events0.len() && stamps.len() == events0.len());
            }
            return Ok(());
        }
        let ghost all = old(self).buffered() + events@;
        let mut rest = events;
        if rest.len() <= 10 {
            let ghost n = rest@.len();
            let ghost p0 = self.pending().len();
            let ghost mut outs: Seq<String> = Seq::empty();
            let ghost mut stamps: Seq<Event> = Seq::empty();
            proof {
                assert(events0.skip(0) =~= events0);
                assert(pend0 + outs.map_values(|t: String| as_line(t@)) =~= pend0);
            }
            while rest.len() > 0
                invariant
                    self.pending().len() + rest@.len() == p0 + n,
                    self.buffered() == old(self).buffered(),
                    self.spec_formatter() == f0,
                    self.spec_buffer_size() == old(self).spec_buffer_size(),
                    outs.len() == stamps.len(),
                    outs.len() <= events0.len(),
                    rest@ == events0.skip(outs.len() as int),
                    forall|i: int| 0 <= i < outs.len() ==> stamped(events0[i], #[trigger] stamps[i])
                        && f0.formats(stamps[i].spec_data(), Ok::<String, FormatError>(outs[i])),
                    self.pending() == pend0 + outs.map_values(|t: String| as_line(t@)),
                decreases rest@.len(),
            {
                let ghost k = outs.len() as int;
                let ghost before = self.pending();
                let e = rest.remove(0);
                proof {
                    assert(e == events0[k]);
                    assert(rest@ =~= events0.skip(k + 1));
                }
                let _ = self.write(e);
                proof {
                    let (s, t) = choose|s: Event, t: String| stamped(e, s) && #[trigger] f0.formats(s.spec_data(), Ok::<String, FormatError>(t))
                        && self.pending() == before.push(as_line(t@));
                    let o2 = outs.push(t);
                    let s2 = stamps.push(s);
                    assert(o2.map_values(|t: String| as_line(t@)) =~= outs.map_values(|t: String| as_line(t@)).push(as_line(t@)));
                    assert(self.pending() =~= pend0 + o2.map_values(|t: String| as_line(t@)));
                    assert forall|i: int| 0 <= i < o2.len() implies stamped(events0[i], #[trigger] s2[i])
                        && f0.formats(s2[i].spec_data(), Ok::<String, FormatError>(o2[i])) by {
                        if i < k {
                            assert(s2[i] == stamps[i] && o2[i] == outs[i]);
                        }
                    }
                    outs = o2;
                    stamps = s2;
                }
            }
            proof {
                assert(outs.len() == events0.len());
            }
            return Ok(());
        }
        let ghost mut k: int = 0;
        let ghost mut consumed: int = 0;
        proof {
            assert(all.skip(0) =~= all);
            assert(self.write_buffer@ + rest@ =~= all.skip(0));
        }
        while rest.len() > 0
            invariant
                0 <= k <= all.len(),
                self.write_buffer@ + rest@ == all.skip(k),
                self.spec_formatter() == old(self).spec_formatter(),
                self.spec_buffer_size() == old(self).spec_buffer_size(),
            decreases rest@.len(),
        {
            let ghost before = self.write_buffer@ + rest@;
            let e = rest.remove(0);
            self.write_buffer.push(e);
            proof {
                assert(self.write_buffer@ + rest@ =~= before);
            }
            if self.write_buffer.len() >= self.buffer_size {
                let mut group: Vec<Event> = Vec::new();
                std::mem::swap(&mut group, &mut self.write_buffer);
                let ghost glen = group@.len() as int;
                proof {
                    assert(all.skip(k + glen) =~= all.skip(k).skip(glen));
                    assert(all.skip(k).skip(glen) =~= rest@);
                    assert(self.write_buffer@ + rest@ =~= rest@);
                    k = k + glen;
                }
                let _ = self.write_group(&group, "Failed to format batch: ");
            }
        }
        proof {
            assert(self.write_buffer@ + rest@ =~= self.write_buffer@);
        }
        Ok(())
    }

    /// Writes out the gathered events as one group.
    fn flush(&mut self) -> (r: PluginResult<()>)
        ensures
            final(self).spec_name() == old(self).spec_name(),
            r is Ok,
            final(self).buffered() == Seq::<Event>::empty(),
            old(self).buffered().len() == 0 ==> final(self).pending() == old(self).pending(),
            old(self).buffered().len() > 0 ==> final(self).pending().len() == old(self).pending().len() + 1,
            old(self).buffered().len() > 0 ==> exists|t: Seq<char>| #[trigger] stamped_batch_text(old(self).spec_formatter(), old(self).buffered(), t)
                && final(self).pending() == old(self).pending().push(as_line(t)),
            final(self).spec_formatter() == old(self).spec_formatter(),
            final(self).spec_buffer_size() == old(self).spec_buffer_size(),
    {
        if self.write_buffer.len() == 0 {
            return Ok(());
        }
        let mut group: Vec<Event> = Vec::new();
        std::mem::swap(&mut group, &mut self.write_buffer);
        self.write_group(&group, "Failed to format batch during flush: ")
    }

    fn stats(&self) -> (s: OutputStats)
        ensures
            s == self.spec_stats(),
    {
        self.stats
    }
}

impl Default for StdoutOutput {
    /// JSON, compact, with a buffer of 8192 and a flush interval of 1000,
    /// named `stdout`.
    fn default() -> (o: Self)
        ensures
            o.spec_format() == OutputFormat::Json,
            o.spec_buffer_size() == 8192,
            o.spec_flush_interval() == 1000,
            o.spec_name() == "stdout"@,
            o.pending() == Seq::<Seq<char>>::empty(),
    {
        let config = ObjectMap::new();
        let formatter = build_formatter(OutputFormat::Json, &config);
        let o = StdoutOutput {
            name: text_of("stdout"),
            config,
            formatter,
            format: OutputFormat::Json,
            buffer_size: 8192,
            flush_interval: 1000,
            stats: OutputStats::default(),
            write_buffer: Vec::new(),
            pending: Vec::new(),
        };
        proof {
            assert(o.pending() =~= Seq::<Seq<char>>::empty());
        }
        o
    }
}

impl FromConfig for StdoutOutput {
    open spec fn made_from(config: PluginConfig, r: PluginResult<Self>) -> bool {
        stdout_made_from(config, r)
    }

    fn from_config(config: &PluginConfig) -> (r: PluginResult<Self>) {
        StdoutOutput::from_config(config)
    }
}

impl crate::plugin::traits::Plugin for StdoutOutput {
    open spec fn plugin_name(&self) -> Seq<char> {
        self.spec_name()
    }

    open spec fn plugin_settings(&self) -> Map<Seq<char>, JsonView> {
        self.spec_config()
    }

    open spec fn plugin_kind(&self) -> PluginType {
        PluginType::Output
    }

    open spec fn checks(&self, r: PluginResult<()>) -> bool {
        &&& self.spec_buffer_size() == 0 ==> (r matches Err(PluginError::ConfigurationError(s)) && s@ == "Buffer size must be greater than 0"@)
        &&& self.spec_buffer_size() != 0 && self.spec_flush_interval() == 0 ==> (r matches Err(PluginError::ConfigurationError(s))
            && s@ == "Flush interval must be greater than 0"@)
        &&& self.spec_buffer_size() != 0 && self.spec_flush_interval() != 0 && self.spec_buffer_size() > 1_000_000
            ==> (r matches Err(PluginError::ConfigurationError(s)) && s@ == "Buffer size cannot exceed 1,000,000"@)
        &&& self.spec_buffer_size() != 0 && self.spec_flush_interval() != 0 && self.spec_buffer_size() <= 1_000_000 ==> r is Ok
    }

    open spec fn plugin_status(&self) -> PluginStatus {
        PluginStatus::Ready
    }

    open spec fn prepare_fails_with(&self, e: PluginError) -> bool {
        false
    }

    open spec fn release_fails_with(&self, e: PluginError) -> bool {
        false
    }

    fn name(&self) -> (r: &str) {
        Output::name(self)
    }

    fn config(&self) -> (r: &ObjectMap) {
        Output::config(self)
    }

    fn plugin_type(&self) -> (t: PluginType) {
        Output::plugin_type(self)
    }

    fn validate_config(&self) -> (r: PluginResult<()>) {
        Output::validate_config(self)
    }

    fn initialize(&mut self) -> (r: PluginResult<()>) {
        Output::initialize(self)
    }

    fn shutdown(&mut self) -> (r: PluginResult<()>) {
        Output::shutdown(self)
    }

    fn status(&self) -> (s: PluginStatus) {
        Output::status(self)
    }
}

}
