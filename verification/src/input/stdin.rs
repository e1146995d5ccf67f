//! Standard input: lines from a reader that the program attaches, decoded
//! into events by the configured codec.
use vstd::prelude::*;
use crate::event::event::{lemma_prefix_map_full, prefix_map, Event};
use crate::input::codec::{codec_name, codec_named, decoder_error_text, kind_decodes, plain_fields, CodecKind, DecoderError};
use crate::json::{JsonValue, JsonView, ObjectMap};
use crate::plugin::error::{PluginError, PluginResult};
use crate::plugin::traits::{FromConfig, Input};
use crate::plugin::types::{InputStats, PluginConfig, PluginStatus, PluginType};
use crate::input::random::no_input_stats;
use crate::text::text_of;

verus! {

/// What a reader of standard input has for the next read.
pub enum LineEvent {
    /// A line, without its line ending, and the number of bytes read for it.
    Line { text: String, bytes: u64 },
    /// No line is waiting now.
    Empty,
    /// The input has ended.
    Eof,
    /// Reading failed; the description of the fault.
    Failed(String),
    /// The reader has stopped.
    Disconnected,
}

/// A reader of lines, run by the program around the library.
pub trait LineSource {
    /// The next thing the reader has.
    fn next_line(&mut self) -> LineEvent;

    /// Whether a line is waiting.
    fn has_line(&self) -> bool;
}

/// The codec setting of `cfg`: its text, or `plain` when it is not text.
pub open spec fn codec_setting(cfg: ObjectMap) -> Seq<char> {
    match cfg.spec_get("codec"@) {
        Some(JsonValue::String(s)) => s@,
        _ => "plain"@,
    }
}

/// The buffer size setting of `cfg`: its value, or 8192 when it is not a
/// non-negative integer.
pub open spec fn buffer_setting(cfg: ObjectMap) -> u64 {
    match cfg.spec_get("buffer_size"@) {
        Some(v) => match v.spec_as_u64() {
            Some(u) => u,
            None => 8192,
        },
        None => 8192,
    }
}

/// The fields to add, from `cfg`: its `add_fields` object, or none.
pub open spec fn add_fields_setting(cfg: ObjectMap) -> Map<Seq<char>, JsonView> {
    match cfg.spec_get("add_fields"@) {
        Some(JsonValue::Object(m)) => m@,
        _ => Map::empty(),
    }
}

/// Whether `s2` is `s` in every respect that can be observed: name,
/// settings, codec, added fields, buffer size, statistics and whether a
/// reader is attached.
pub open spec fn same_input(s: StdinInput, s2: StdinInput) -> bool {
    &&& s2.spec_name() == s.spec_name()
    &&& s2.spec_config() == s.spec_config()
    &&& s2.config_map() == s.config_map()
    &&& s2.spec_codec() == s.spec_codec()
    &&& s2.spec_add_fields() == s.spec_add_fields()
    &&& s2.spec_buffer_size() == s.spec_buffer_size()
    &&& s2.spec_stats() == s.spec_stats()
    &&& s2.attached() == s.attached()
}

/// One more, unless the count is already at its largest.
pub open spec fn count_up(n: u64) -> u64 {
    if n < u64::MAX { (n + 1) as u64 } else { n }
}

/// `n` plus `m`, or the largest count when that does not fit.
pub open spec fn count_add(n: u64, m: u64) -> u64 {
    if m <= u64::MAX - n { (n + m) as u64 } else { u64::MAX }
}

/// Whether `e` is what a line decoded into `d` becomes once the fields
/// `add` are stored into it.
pub open spec fn with_added(d: Event, add: Map<Seq<char>, JsonView>, e: Event) -> bool {
    &&& e.fields() == d.fields().union_prefer_right(add)
    &&& e.spec_id() == d.spec_id()
    &&& e.spec_timestamp() == d.spec_timestamp()
    &&& e.spec_metadata() == d.spec_metadata()
}

/// Whether taking the reader's event `ev` turns the input `s` into `s2`
/// with the result `r`. A line is decoded with the codec and given the
/// added fields, and counted with its bytes; a line that does not decode
/// gives an execution error with the decoder's message and counts an
/// error. No line now, or the end of the input, gives nothing. A failed
/// read gives an I/O error and counts an error; a stopped reader gives the
/// disconnected error. Nothing else changes.
pub open spec fn line_step(s: StdinInput, ev: LineEvent, r: PluginResult<Option<Event>>, s2: StdinInput) -> bool {
    &&& s2.spec_name() == s.spec_name()
    &&& s2.spec_config() == s.spec_config()
    &&& s2.config_map() == s.config_map()
    &&& s2.spec_codec() == s.spec_codec()
    &&& s2.spec_add_fields() == s.spec_add_fields()
    &&& s2.spec_buffer_size() == s.spec_buffer_size()
    &&& s2.attached() == s.attached()
    &&& s2.spec_stats().read_time_ms == s.spec_stats().read_time_ms
    &&& match ev {
        LineEvent::Line { text, bytes } => {
            &&& s2.spec_stats().events_read == count_up(s.spec_stats().events_read)
            &&& s2.spec_stats().bytes_read == count_add(s.spec_stats().bytes_read, bytes)
            &&& exists|d: Result<Event, DecoderError>| #[trigger] kind_decodes(s.spec_codec(), text@, d) && match d {
                Ok(d0) => s2.spec_stats().errors == s.spec_stats().errors
                    && (r matches Ok(Some(e)) && with_added(d0, s.spec_add_fields(), e)),
                Err(de) => s2.spec_stats().errors == count_up(s.spec_stats().errors)
                    && (r matches Err(PluginError::ExecutionError(m)) && m@ == decoder_error_text(de)),
            }
        },
        LineEvent::Empty => r == Ok::<Option<Event>, PluginError>(None) && s2.spec_stats() == s.spec_stats(),
        LineEvent::Eof => r == Ok::<Option<Event>, PluginError>(None) && s2.spec_stats() == s.spec_stats(),
        LineEvent::Failed(m) => {
            &&& r matches Err(PluginError::IoError(m2)) && m2@ == m@
            &&& s2.spec_stats().errors == count_up(s.spec_stats().errors)
            &&& s2.spec_stats().events_read == s.spec_stats().events_read
            &&& s2.spec_stats().bytes_read == s.spec_stats().bytes_read
        },
        LineEvent::Disconnected => {
            &&& r matches Err(PluginError::ExecutionError(m)) && m@ == "StdinInput reader disconnected"@
            &&& s2.spec_stats() == s.spec_stats()
        },
    }
}

/// Whether `states`, `evs` and `rs` are successive takes of the reader's
/// events: taking `evs[k]` turns `states[k]` into `states[k + 1]` with
/// `rs[k]`.
pub open spec fn line_run(states: Seq<StdinInput>, evs: Seq<LineEvent>, rs: Seq<PluginResult<Option<Event>>>) -> bool {
    &&& states.len() == evs.len() + 1
    &&& rs.len() == evs.len()
    &&& forall|k: int| 0 <= k < evs.len() ==> #[trigger] line_step(states[k], evs[k], rs[k], states[k + 1])
}

/// The bytes of the first `n` lines of a run.
pub open spec fn line_bytes(evs: Seq<LineEvent>, n: int) -> int
    decreases n,
{
    if n <= 0 {
        0
    } else {
        line_bytes(evs, n - 1) + evs[n - 1]->bytes
    }
}

/// Counting more lines counts no fewer bytes.
proof fn lemma_line_bytes_grow(evs: Seq<LineEvent>, n: int, m: int)
    requires
        0 <= n <= m,
    ensures
        line_bytes(evs, n) <= line_bytes(evs, m),
    decreases m - n,
{
    if n < m {
        lemma_line_bytes_grow(evs, n, m - 1);
    }
}

/// Along a run of lines, the codec and the added fields stay, and each
/// line and its bytes are counted.
proof fn lemma_line_run(states: Seq<StdinInput>, evs: Seq<LineEvent>, rs: Seq<PluginResult<Option<Event>>>, n: int)
    requires
        line_run(states, evs, rs),
        forall|k: int| 0 <= k < evs.len() ==> #[trigger] evs[k] is Line,
        states[0].spec_stats().events_read + evs.len() <= u64::MAX,
        states[0].spec_stats().bytes_read + line_bytes(evs, evs.len() as int) <= u64::MAX,
        0 <= n <= evs.len(),
    ensures
        states[n].spec_codec() == states[0].spec_codec(),
        states[n].spec_add_fields() == states[0].spec_add_fields(),
        states[n].spec_stats().events_read == states[0].spec_stats().events_read + n,
        states[n].spec_stats().bytes_read == states[0].spec_stats().bytes_read + line_bytes(evs, n),
    decreases n,
{
    if n > 0 {
        lemma_line_run(states, evs, rs, n - 1);
        lemma_line_bytes_grow(evs, n, evs.len() as int);
        let k = n - 1;
        assert(line_step(states[k], evs[k], rs[k], states[k + 1]));
        assert(evs[k] is Line);
    }
}

/// With the plain codec and no added field named `message`, the lines the
/// reader hands over come out in order, each as the `message` of its own
/// event, and each is counted as read, with its bytes.
pub proof fn law_lines_come_out_in_order(states: Seq<StdinInput>, evs: Seq<LineEvent>, rs: Seq<PluginResult<Option<Event>>>)
    requires
        line_run(states, evs, rs),
        forall|k: int| 0 <= k < evs.len() ==> #[trigger] evs[k] is Line,
        states[0].spec_codec() == CodecKind::Plain,
        !states[0].spec_add_fields().contains_key("message"@),
        states[0].spec_stats().events_read + evs.len() <= u64::MAX,
        states[0].spec_stats().bytes_read + line_bytes(evs, evs.len() as int) <= u64::MAX,
    ensures
        forall|k: int| 0 <= k < evs.len() ==> (#[trigger] rs[k] matches Ok(Some(e))
            && e.fields().contains_key("message"@) && e.fields()["message"@] == JsonView::Str(evs[k]->text@)),
        states.last().spec_stats().events_read == states[0].spec_stats().events_read + evs.len(),
        states.last().spec_stats().bytes_read == states[0].spec_stats().bytes_read + line_bytes(evs, evs.len() as int),
{
    lemma_line_run(states, evs, rs, evs.len() as int);
    assert forall|k: int| 0 <= k < evs.len() implies (#[trigger] rs[k] matches Ok(Some(e))
        && e.fields().contains_key("message"@) && e.fields()["message"@] == JsonView::Str(evs[k]->text@)) by {
        lemma_line_run(states, evs, rs, k);
        assert(line_step(states[k], evs[k], rs[k], states[k + 1]));
        let text = evs[k]->text;
        let d = choose|d: Result<Event, DecoderError>| #[trigger] kind_decodes(states[k].spec_codec(), text@, d) && match d {
            Ok(d0) => states[k + 1].spec_stats().errors == states[k].spec_stats().errors
                && (rs[k] matches Ok(Some(e)) && with_added(d0, states[k].spec_add_fields(), e)),
            Err(de) => states[k + 1].spec_stats().errors == count_up(states[k].spec_stats().errors)
                && (rs[k] matches Err(PluginError::ExecutionError(m)) && m@ == decoder_error_text(de)),
        };
        assert(d is Ok);
        let d0 = d->Ok_0;
        assert(d0.fields() == plain_fields(text@));
        let e = rs[k]->Ok_0->Some_0;
        assert(e.fields() == d0.fields().union_prefer_right(states[0].spec_add_fields()));
    }
}

/// Whether `r` is what making a standard input from `config` gives.
pub open spec fn stdin_made_from(config: PluginConfig, r: PluginResult<StdinInput>) -> bool {
    &&& codec_named(codec_setting(config.config)) is None ==> (r matches Err(PluginError::ConfigurationError(s))
                    && s@ == "Unsupported codec type: "@ + codec_setting(config.config))
    &&& codec_named(codec_setting(config.config)) is Some && buffer_setting(config.config) as usize == 0
                    ==> (r matches Err(PluginError::ConfigurationError(s)) && s@ == "buffer_size must be greater than 0"@)
    &&& codec_named(codec_setting(config.config)) is Some && buffer_setting(config.config) as usize != 0
                    ==> (r matches Ok(i) && i.spec_codec() == codec_named(codec_setting(config.config))->Some_0
                        && i.spec_buffer_size() == buffer_setting(config.config) as usize
                        && i.spec_add_fields() == add_fields_setting(config.config)
                        && i.spec_name() == "stdin"@ && i.spec_config() == config.config@
                        && i.spec_stats() == no_input_stats() && !i.attached())
}

/// Reads events from standard input.
pub struct StdinInput {
    name: String,
    config: ObjectMap,
    codec: CodecKind,
    add_fields: ObjectMap,
    buffer_size: usize,
    stats: InputStats,
    source: Option<Box<dyn LineSource>>,
    reads: Ghost<nat>,
}

impl StdinInput {
    /// The plugin name.
    pub closed spec fn spec_name(&self) -> Seq<char> {
        self.name@
    }

    /// The settings.
    pub closed spec fn spec_config(&self) -> Map<Seq<char>, JsonView> {
        self.config@
    }

    /// The settings, as a map of the library.
    pub closed spec fn config_map(&self) -> ObjectMap {
        self.config
    }

    /// The codec.
    pub closed spec fn spec_codec(&self) -> CodecKind {
        self.codec
    }

    /// The fields added to every event.
    pub closed spec fn spec_add_fields(&self) -> Map<Seq<char>, JsonView> {
        self.add_fields@
    }

    /// The buffer size.
    pub closed spec fn spec_buffer_size(&self) -> usize {
        self.buffer_size
    }

    /// The number of reads that gave a result.
    pub closed spec fn spec_reads(&self) -> nat {
        self.reads@
    }

    /// The statistics.
    pub closed spec fn spec_stats(&self) -> InputStats {
        self.stats
    }

    /// Whether a reader is attached.
    pub closed spec fn attached(&self) -> bool {
        self.source is Some
    }

    /// The input that `config` describes: the `codec` (plain unless set),
    /// the `buffer_size` (8192 unless set; not zero) and the `add_fields`.
    pub fn from_config(config: &PluginConfig) -> (r: PluginResult<StdinInput>)
        ensures
            codec_named(codec_setting(config.config)) is None ==> (r matches Err(PluginError::ConfigurationError(s))
                && s@ == "Unsupported codec type: "@ + codec_setting(config.config)),
            codec_named(codec_setting(config.config)) is Some && buffer_setting(config.config) as usize == 0
                ==> (r matches Err(PluginError::ConfigurationError(s)) && s@ == "buffer_size must be greater than 0"@),
            codec_named(codec_setting(config.config)) is Some && buffer_setting(config.config) as usize != 0
                ==> (r matches Ok(i) && i.spec_codec() == codec_named(codec_setting(config.config))->Some_0
                    && i.spec_buffer_size() == buffer_setting(config.config) as usize
                    && i.spec_add_fields() == add_fields_setting(config.config)
                    && i.spec_name() == "stdin"@ && i.spec_config() == config.config@
                    && i.spec_stats() == no_input_stats() && !i.attached()),
    {
        let codec_text: &str = match config.config.get("codec") {
            Some(v) => match v.as_str() {
                Some(t) => t,
                None => "plain",
            },
            None => "plain",
        };
        let codec = match CodecKind::from_name(codec_text) {
            Ok(k) => k,
            Err(e) => {
                return Err(PluginError::configuration_error(e.message().as_str()));
            },
        };
        let size: u64 = match config.config.get("buffer_size") {
            Some(v) => match v.as_u64() {
                Some(u) => u,
                None => 8192,
            },
            None => 8192,
        };
        let buffer_size = size as usize;
        if buffer_size == 0 {
            return Err(PluginError::configuration_error("buffer_size must be greater than 0"));
        }
        let add_fields = match config.config.get("add_fields") {
            Some(JsonValue::Object(m)) => m.clone(),
            _ => ObjectMap::new(),
        };
        Ok(StdinInput {
            name: text_of("stdin"),
            config: config.config.clone(),
            codec,
            add_fields,
            buffer_size,
            stats: InputStats::default(),
            source: None,
            reads: Ghost(0),
        })
    }

    /// The codec name.
    pub fn codec_type(&self) -> (r: &str)
        ensures
            r@ == codec_name(self.spec_codec()),
    {
        self.codec.name()
    }

    /// The buffer size.
    pub fn buffer_size(&self) -> (n: usize)
        ensures
            n == self.spec_buffer_size(),
    {
        self.buffer_size
    }

    /// The settings, for change in place.
    pub fn config_mut(&mut self) -> (r: &mut ObjectMap)
        ensures
            *r == old(self).config_map(),
            final(self).config_map() == *final(r),
            final(self).spec_codec() == old(self).spec_codec(),
            final(self).spec_add_fields() == old(self).spec_add_fields(),
            final(self).spec_buffer_size() == old(self).spec_buffer_size(),
    {
        &mut self.config
    }

    /// The fields added to every event.
    pub fn add_fields(&self) -> (r: &ObjectMap)
        ensures
            r@ == self.spec_add_fields(),
    {
        &self.add_fields
    }

    /// Attaches the reader that `read` takes lines from.
    pub fn attach(&mut self, source: Box<dyn LineSource>)
        ensures
            final(self).attached(),
            final(self).spec_codec() == old(self).spec_codec(),
            final(self).spec_add_fields() == old(self).spec_add_fields(),
            final(self).spec_buffer_size() == old(self).spec_buffer_size(),
            final(self).spec_config() == old(self).spec_config(),
    {
        self.source = Some(source);
    }

    /// Stores the added fields into `event`; they win over its own.
    pub fn apply_add_fields(&self, event: Event) -> (e: Event)
        ensures
            e.fields() == event.fields().union_prefer_right(self.spec_add_fields()),
            e.spec_id() == event.spec_id(),
            e.spec_timestamp() == event.spec_timestamp(),
            e.spec_metadata() == event.spec_metadata(),
    {
        let mut e = event;
        let entries = self.add_fields.entries();
        let ghost es = entries@;
        let mut i: usize = 0;
        proof {
            assert(event.fields() =~= event.fields().union_prefer_right(Map::<Seq<char>, JsonView>::empty()));
        }
        while i < entries.len()
            invariant
                0 <= i <= es.len(),
                es == entries@,
                es == self.add_fields.spec_entries(),
                crate::json::keys_ascending(es),
                e.fields() == event.fields().union_prefer_right(prefix_map(es, i as int)),
                e.spec_id() == event.spec_id(),
                e.spec_timestamp() == event.spec_timestamp(),
                e.spec_metadata() == event.spec_metadata(),
            decreases es.len() - i,
        {
            e.set(entries[i].0.as_str(), entries[i].1.clone());
            proof {
                assert(prefix_map(es, i + 1) == prefix_map(es, i as int).insert(es[i as int].0@, es[i as int].1@));
                assert(e.fields() =~= event.fields().union_prefer_right(prefix_map(es, i + 1)));
            }
            i = i + 1;
        }
        proof {
            lemma_prefix_map_full(&self.add_fields);
        }
        e
    }

    /// Takes the reader's event `ev`: see `line_step`.
    pub fn on_line_event(&mut self, ev: LineEvent) -> (r: PluginResult<Option<Event>>)
        ensures
            line_step(*old(self), ev, r, *final(self)),
            final(self).spec_reads() == old(self).spec_reads(),
    {
        match ev {
            LineEvent::Line { text, bytes } => {
                if self.stats.events_read < u64::MAX {
                    self.stats.events_read = self.stats.events_read + 1;
                }
                self.stats.bytes_read = if bytes <= u64::MAX - self.stats.bytes_read {
                    self.stats.bytes_read + bytes
                } else {
                    u64::MAX
                };
                let decoded = self.codec.decode(text.as_str());
                match decoded {
                    Ok(event) => {
                        let ghost d0 = event;
                        let e = self.apply_add_fields(event);
                        proof {
                            assert(kind_decodes(old(self).spec_codec(), text@, Ok::<Event, DecoderError>(d0)));
                        }
                        Ok(Some(e))
                    },
                    Err(e) => {
                        let ghost de = e;
                        if self.stats.errors < u64::MAX {
                            self.stats.errors = self.stats.errors + 1;
                        }
                        proof {
                            assert(kind_decodes(old(self).spec_codec(), text@, Err::<Event, DecoderError>(de)));
                        }
                        Err(PluginError::execution_error(e.message().as_str()))
                    },
                }
            },
            LineEvent::Empty => Ok(None),
            LineEvent::Eof => Ok(None),
            LineEvent::Failed(m) => {
                if self.stats.errors < u64::MAX {
                    self.stats.errors = self.stats.errors + 1;
                }
                Err(PluginError::IoError(m))
            },
            LineEvent::Disconnected => Err(PluginError::execution_error("StdinInput reader disconnected")),
        }
    }
}

impl Input for StdinInput {
    open spec fn known_name(&self) -> Option<Seq<char>> {
        Some(self.spec_name())
    }

    /// The codec is the one the `codec` setting names, when that setting is
    /// text naming a supported codec.
    open spec fn prepared(&self) -> bool {
        self.config_map().spec_get("codec"@) matches Some(JsonValue::String(c)) && codec_named(c@) is Some
            ==> self.spec_codec() == codec_named(self.config_map().spec_get("codec"@)->Some_0->String_0@)->Some_0
    }

    /// No reader is attached.
    open spec fn released(&self) -> bool {
        !self.attached()
    }

    /// A `codec` setting that names no supported codec.
    open spec fn initialize_fails_with(&self, e: PluginError) -> bool {
        &&& self.config_map().spec_get("codec"@) matches Some(JsonValue::String(c))
        &&& codec_named(c@) is None
        &&& e matches PluginError::ConfigurationError(m) && m@ == "Unsupported codec type: "@ + c@
    }

    /// Detaching never fails.
    open spec fn shutdown_fails_with(&self, e: PluginError) -> bool {
        false
    }

    /// A failed read, a line that does not decode, no reader or a stopped
    /// reader.
    open spec fn read_fails_with(&self, e: PluginError) -> bool {
        ||| e is IoError
        ||| e matches PluginError::ExecutionError(m) && (m@ == "StdinInput reader not initialized"@
            || m@ == "StdinInput reader disconnected"@ || exists|de: DecoderError| m@ == #[trigger] decoder_error_text(de))
    }

    /// A line decoded with the codec, with the added fields stored into it.
    open spec fn gives(&self, event: Event) -> bool {
        exists|line: Seq<char>, d: Event| #[trigger] kind_decodes(self.spec_codec(), line, Ok::<Event, DecoderError>(d))
            && with_added(d, self.spec_add_fields(), event)
    }

    open spec fn reads_made(&self) -> nat {
        self.spec_reads()
    }

    /// Any read gives nothing or a decoded line with the added fields.
    open spec fn read_may_give(&self, n: nat, x: Option<Event>) -> bool {
        x matches Some(event) ==> exists|line: Seq<char>, d: Event| #[trigger] kind_decodes(self.spec_codec(), line, Ok::<Event, DecoderError>(d))
            && with_added(d, self.spec_add_fields(), event)
    }

    fn name(&self) -> (r: &str)
        ensures
            r@ == self.spec_name(),
    {
        self.name.as_str()
    }

    fn config(&self) -> (r: &ObjectMap)
        ensures
            r@ == self.spec_config(),
    {
        &self.config
    }

    /// A zero buffer size is refused.
    fn validate_config(&self) -> (r: PluginResult<()>)
        ensures
            self.spec_buffer_size() == 0 ==> (r matches Err(PluginError::ConfigurationError(s)) && s@ == "buffer_size must be greater than 0"@),
            self.spec_buffer_size() != 0 ==> r is Ok,
    {
        if self.buffer_size == 0 {
            return Err(PluginError::configuration_error("buffer_size must be greater than 0"));
        }
        Ok(())
    }

    /// Takes the codec from the `codec` setting when it is text.
    fn initialize(&mut self) -> (r: PluginResult<()>)
        ensures
            (old(self).config_map().spec_get("codec"@) matches Some(JsonValue::String(s))) ==> (match codec_named(old(self).config_map().spec_get("codec"@)->Some_0->String_0@) {
                Some(k) => r is Ok && final(self).spec_codec() == k,
                None => r matches Err(PluginError::ConfigurationError(m)) && m@ == "Unsupported codec type: "@ + old(self).config_map().spec_get("codec"@)->Some_0->String_0@,
            }),
            !(old(self).config_map().spec_get("codec"@) matches Some(JsonValue::String(s))) ==> r is Ok && final(self).spec_codec() == old(self).spec_codec(),
            final(self).spec_add_fields() == old(self).spec_add_fields(),
            final(self).spec_buffer_size() == old(self).spec_buffer_size(),
            final(self).attached() == old(self).attached(),
    {
        let named: Option<Result<CodecKind, DecoderError>> = match self.config.get("codec") {
            Some(v) => match v.as_str() {
                Some(t) => Some(CodecKind::from_name(t)),
                None => None,
            },
            None => None,
        };
        match named {
            Some(Ok(k)) => {
                self.codec = k;
                Ok(())
            },
            Some(Err(e)) => Err(PluginError::configuration_error(e.message().as_str())),
            None => Ok(()),
        }
    }

    /// Detaches the reader.
    fn shutdown(&mut self) -> (r: PluginResult<()>)
        ensures
            r is Ok,
            !final(self).attached(),
    {
        self.source = None;
        Ok(())
    }

    /// The next line, decoded and with the added fields; nothing when no
    /// line is waiting or the input has ended.
    fn read(&mut self) -> (r: PluginResult<Option<Event>>)
        ensures
            !old(self).attached() ==> (r matches Err(PluginError::ExecutionError(s)) && s@ == "StdinInput reader not initialized"@),
            !old(self).attached() ==> same_input(*old(self), *final(self)),
            old(self).attached() ==> exists|ev: LineEvent| #[trigger] line_step(*old(self), ev, r, *final(self)),
    {
        let mut source = match self.source.take() {
            Some(s) => s,
            None => {
                return Err(PluginError::execution_error("StdinInput reader not initialized"));
            },
        };
        let next = source.next_line();
        self.source = Some(source);
        let ghost ev = next;
        let ghost mid = *self;
        let r = self.on_line_event(next);
        if r.is_ok() {
            self.reads = Ghost(self.reads@ + 1);
        }
        proof {
            assert(line_step(mid, ev, r, *self));
            assert(line_step(*old(self), ev, r, *self));
        }
        r
    }

    /// Whether a line is waiting.
    fn is_ready(&self) -> (b: bool)
        ensures
            !self.attached() ==> !b,
    {
        match &self.source {
            Some(s) => s.has_line(),
            None => false,
        }
    }

    fn stats(&self) -> (s: InputStats)
        ensures
            s == self.spec_stats(),
    {
        self.stats
    }
}

impl Default for StdinInput {
    /// The plain codec, a buffer of 8192, no added fields, no settings.
    fn default() -> (i: Self)
        ensures
            i.spec_codec() == CodecKind::Plain,
            i.spec_buffer_size() == 8192,
            i.spec_add_fields() == Map::<Seq<char>, JsonView>::empty(),
            i.spec_name() == "stdin"@,
            i.config_map().spec_entries() == Seq::<(String, JsonValue)>::empty(),
            !i.attached(),
    {
        StdinInput {
            name: text_of("stdin"),
            config: ObjectMap::new(),
            codec: CodecKind::Plain,
            add_fields: ObjectMap::new(),
            buffer_size: 8192,
            stats: InputStats::default(),
            source: None,
            reads: Ghost(0),
        }
    }
}

impl Clone for StdinInput {
    /// A copy with the same settings, codec and added fields, and no reader.
    fn clone(&self) -> (c: Self)
        ensures
            c.spec_name() == self.spec_name(),
            c.spec_codec() == self.spec_codec(),
            c.spec_buffer_size() == self.spec_buffer_size(),
            c.spec_add_fields() == self.spec_add_fields(),
            c.spec_config() == self.spec_config(),
            !c.attached(),
    {
        StdinInput {
            name: self.name.clone(),
            config: self.config.clone(),
            codec: self.codec,
            add_fields: self.add_fields.clone(),
            buffer_size: self.buffer_size,
            stats: self.stats,
            source: None,
            reads: Ghost(0),
        }
    }
}

impl FromConfig for StdinInput {
    open spec fn made_from(config: PluginConfig, r: PluginResult<Self>) -> bool {
        stdin_made_from(config, r)
    }

    fn from_config(config: &PluginConfig) -> (r: PluginResult<Self>) {
        StdinInput::from_config(config)
    }
}

impl crate::plugin::traits::Plugin for StdinInput {
    open spec fn plugin_name(&self) -> Seq<char> {
        self.spec_name()
    }

    open spec fn plugin_settings(&self) -> Map<Seq<char>, JsonView> {
        self.spec_config()
    }

    open spec fn plugin_kind(&self) -> PluginType {
        PluginType::Input
    }

    open spec fn checks(&self, r: PluginResult<()>) -> bool {
        &&& self.spec_buffer_size() == 0 ==> (r matches Err(PluginError::ConfigurationError(s)) && s@ == "buffer_size must be greater than 0"@)
        &&& self.spec_buffer_size() != 0 ==> r is Ok
    }

    open spec fn plugin_status(&self) -> PluginStatus {
        PluginStatus::Ready
    }

    open spec fn prepare_fails_with(&self, e: PluginError) -> bool {
        Input::initialize_fails_with(self, e)
    }

    open spec fn release_fails_with(&self, e: PluginError) -> bool {
        false
    }

    fn name(&self) -> (r: &str) {
        Input::name(self)
    }

    fn config(&self) -> (r: &ObjectMap) {
        Input::config(self)
    }

    fn plugin_type(&self) -> (t: PluginType) {
        Input::plugin_type(self)
    }

    fn validate_config(&self) -> (r: PluginResult<()>) {
        Input::validate_config(self)
    }

    fn initialize(&mut self) -> (r: PluginResult<()>) {
        Input::initialize(self)
    }

    fn shutdown(&mut self) -> (r: PluginResult<()>) {
        Input::shutdown(self)
    }

    fn status(&self) -> (s: PluginStatus) {
        Input::status(self)
    }
}

}
