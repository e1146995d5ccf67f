//! An input of random integers in a configured range.
use vstd::prelude::*;
use crate::event::event::Event;
use crate::json::{JsonValue, JsonView, ObjectMap};
use crate::plugin::error::{PluginError, PluginResult};
use crate::plugin::traits::{FromConfig, Input};
use crate::plugin::types::{InputStats, PluginConfig, PluginStatus, PluginType};
use crate::text::{i64_text, push_text, signed_decimal, text_of};

verus! {

/// An integer drawn uniformly from `from..=to` (rand's `gen_range` on the
/// thread-local generator). Claimed: the result lies in the range; which
/// integer comes is left open.
#[verifier::external_body]
fn random_in(from: i64, to: i64) -> (r: i64)
    requires
        from <= to,
    ensures
        from <= r <= to,
{
    rand::Rng::gen_range(&mut rand::thread_rng(), from..=to)
}

/// The setting `key` of `cfg` as an `i64`, when it is an integer in range.
pub open spec fn setting_i64(cfg: ObjectMap, key: Seq<char>) -> Option<i64> {
    match cfg.spec_get(key) {
        Some(v) => v.spec_as_i64(),
        None => None,
    }
}

/// The text of the error for a range whose ends are the wrong way round.
pub open spec fn range_message(from: i64, to: i64) -> Seq<char> {
    "from ("@ + signed_decimal(from as int) + ") must be less than or equal to to ("@ + signed_decimal(to as int) + ")"@
}

/// Input statistics with every count zero.
pub open spec fn no_input_stats() -> InputStats {
    InputStats { events_read: 0, bytes_read: 0, errors: 0, read_time_ms: 0 }
}

/// The fields of an event that carries `n`.
pub open spec fn number_fields(n: i64) -> Map<Seq<char>, JsonView> {
    Map::<Seq<char>, JsonView>::empty().insert("message"@, JsonView::Str(signed_decimal(n as int)))
}

/// Emits events carrying random integers of a range, up to a number of
/// Whether `r` is what making a random input from `config` gives.
pub open spec fn random_made_from(config: PluginConfig, r: PluginResult<RandomInput>) -> bool {
    &&& setting_i64(config.config, "from"@) is None ==> (r matches Err(PluginError::ConfigurationError(s))
                    && s@ == "from must be configured in Random Input"@)
    &&& setting_i64(config.config, "from"@) is Some && setting_i64(config.config, "to"@) is None
                    ==> (r matches Err(PluginError::ConfigurationError(s)) && s@ == "to must be configured in Random Input"@)
    &&& setting_i64(config.config, "from"@) is Some && setting_i64(config.config, "to"@) is Some
                    && setting_i64(config.config, "from"@)->Some_0 > setting_i64(config.config, "to"@)->Some_0
                    ==> (r matches Err(PluginError::ConfigurationError(s))
                        && s@ == range_message(setting_i64(config.config, "from"@)->Some_0, setting_i64(config.config, "to"@)->Some_0))
    &&& setting_i64(config.config, "from"@) is Some && setting_i64(config.config, "to"@) is Some
                    && setting_i64(config.config, "from"@)->Some_0 <= setting_i64(config.config, "to"@)->Some_0
                    ==> (r matches Ok(ri) && ri.spec_from() == setting_i64(config.config, "from"@)->Some_0
                        && ri.spec_to() == setting_i64(config.config, "to"@)->Some_0
                        && ri.spec_max_messages() == (match setting_i64(config.config, "max_messages"@) {
                            Some(m) => m,
                            None => -1i64,
                        })
                        && ri.spec_count() == 0 && ri.spec_stats() == no_input_stats()
                        && ri.spec_name() == config.name@ && ri.spec_config() == config.config@)
}

/// messages (none when that number is negative).
pub struct RandomInput {
    name: String,
    config: ObjectMap,
    from: i64,
    to: i64,
    max_messages: i64,
    count: i64,
    stats: InputStats,
    reads: Ghost<nat>,
}

/// The setting `key` of `cfg` read as an `i64`.
fn setting(cfg: &ObjectMap, key: &str) -> (r: Option<i64>)
    ensures
        r == setting_i64(*cfg, key@),
{
    match cfg.get(key) {
        Some(v) => v.as_i64(),
        None => None,
    }
}

/// Whether one read turns the input `s` into `s2` with the result `r`:
/// nothing once every message has been emitted; else an event whose
/// `message` is an integer of the range, one more message counted. The
/// range and the limit stay.
pub open spec fn random_read(s: RandomInput, r: PluginResult<Option<Event>>, s2: RandomInput) -> bool {
    &&& s2.spec_from() == s.spec_from()
    &&& s2.spec_to() == s.spec_to()
    &&& s2.spec_max_messages() == s.spec_max_messages()
    &&& s.exhausted() ==> (r matches Ok(None) && s2.spec_count() == s.spec_count())
    &&& !s.exhausted() ==> (r matches Ok(Some(e)) && exists|n: i64|
        s.spec_from() <= n <= s.spec_to() && e.spec_data() is Object && #[trigger] number_fields(n) == e.fields())
        && s2.spec_count() == (if s.spec_count() < i64::MAX { s.spec_count() + 1 } else { i64::MAX as int })
}

/// Whether `states` and `rs` are successive reads of one input: read `k`
/// turns `states[k]` into `states[k + 1]` with `rs[k]`.
pub open spec fn random_run(states: Seq<RandomInput>, rs: Seq<PluginResult<Option<Event>>>) -> bool {
    &&& states.len() == rs.len() + 1
    &&& forall|k: int| 0 <= k < rs.len() ==> #[trigger] random_read(states[k], rs[k], states[k + 1])
}

/// Along a run from a count of zero with a limit `m`, the count after `k`
/// reads is the smaller of `k` and `m`.
proof fn lemma_run_count(states: Seq<RandomInput>, rs: Seq<PluginResult<Option<Event>>>, n: int)
    requires
        random_run(states, rs),
        states[0].spec_count() == 0,
        states[0].spec_max_messages() >= 0,
        0 <= n <= rs.len(),
    ensures
        states[n].spec_max_messages() == states[0].spec_max_messages(),
        states[n].spec_count() == (if n < states[0].spec_max_messages() { n } else { states[0].spec_max_messages() as int }),
    decreases n,
{
    if n > 0 {
        lemma_run_count(states, rs, n - 1);
        let k = n - 1;
        assert(random_read(states[k], rs[k], states[k + 1]));
    }
}

/// Along a run, the limit stays.
proof fn lemma_run_limit(states: Seq<RandomInput>, rs: Seq<PluginResult<Option<Event>>>, n: int)
    requires
        random_run(states, rs),
        0 <= n <= rs.len(),
    ensures
        states[n].spec_max_messages() == states[0].spec_max_messages(),
    decreases n,
{
    if n > 0 {
        lemma_run_limit(states, rs, n - 1);
        let k = n - 1;
        assert(random_read(states[k], rs[k], states[k + 1]));
    }
}

/// An input with a limit of `m` messages, started from a count of zero,
/// gives an event on each of its first `m` reads and nothing on every read
/// after them; an input without a limit gives an event on every read.
pub proof fn law_random_reads_respect_limit(states: Seq<RandomInput>, rs: Seq<PluginResult<Option<Event>>>)
    requires
        random_run(states, rs),
        states[0].spec_count() == 0,
    ensures
        states[0].spec_max_messages() >= 0 ==> forall|k: int| 0 <= k < rs.len() ==> (#[trigger] rs[k] matches Ok(Some(_)) <==> k < states[0].spec_max_messages()),
        states[0].spec_max_messages() < 0 ==> forall|k: int| 0 <= k < rs.len() ==> #[trigger] rs[k] matches Ok(Some(_)),
        forall|k: int| 0 <= k < rs.len() ==> #[trigger] rs[k] is Ok,
{
    assert forall|k: int| 0 <= k < rs.len() implies (states[0].spec_max_messages() >= 0 ==> (#[trigger] rs[k] matches Ok(Some(_)) <==> k < states[0].spec_max_messages()))
        && (states[0].spec_max_messages() < 0 ==> rs[k] matches Ok(Some(_))) && rs[k] is Ok by {
        lemma_run_limit(states, rs, k);
        if states[0].spec_max_messages() >= 0 {
            lemma_run_count(states, rs, k);
        }
        assert(random_read(states[k], rs[k], states[k + 1]));
    }
}

impl RandomInput {
    #[verifier::type_invariant]
    spec fn ordered(self) -> bool {
        &&& self.from <= self.to
        &&& self.count >= 0
        &&& self.max_messages >= 0 ==> self.count <= self.max_messages
    }

    /// The lowest integer drawn.
    pub closed spec fn spec_from(&self) -> i64 {
        self.from
    }

    /// The highest integer drawn.
    pub closed spec fn spec_to(&self) -> i64 {
        self.to
    }

    /// The number of messages to emit; negative for no limit.
    pub closed spec fn spec_max_messages(&self) -> i64 {
        self.max_messages
    }

    /// The number of messages emitted.
    pub closed spec fn spec_count(&self) -> i64 {
        self.count
    }

    /// The number of reads that gave a result.
    pub closed spec fn spec_reads(&self) -> nat {
        self.reads@
    }

    /// The statistics.
    pub closed spec fn spec_stats(&self) -> InputStats {
        self.stats
    }

    /// The plugin name.
    pub closed spec fn spec_name(&self) -> Seq<char> {
        self.name@
    }

    /// The settings.
    pub closed spec fn spec_config(&self) -> Map<Seq<char>, JsonView> {
        self.config@
    }

    /// Whether every message has been emitted.
    pub open spec fn exhausted(&self) -> bool {
        self.spec_max_messages() >= 0 && self.spec_count() >= self.spec_max_messages()
    }

    /// The input that `config` describes: `from` and `to` are required
    /// integers with `from <= to`; `max_messages` is optional (no limit).
    pub fn from_config(config: &PluginConfig) -> (r: PluginResult<RandomInput>)
        ensures
            setting_i64(config.config, "from"@) is None ==> (r matches Err(PluginError::ConfigurationError(s))
                && s@ == "from must be configured in Random Input"@),
            setting_i64(config.config, "from"@) is Some && setting_i64(config.config, "to"@) is None
                ==> (r matches Err(PluginError::ConfigurationError(s)) && s@ == "to must be configured in Random Input"@),
            setting_i64(config.config, "from"@) is Some && setting_i64(config.config, "to"@) is Some
                && setting_i64(config.config, "from"@)->Some_0 > setting_i64(config.config, "to"@)->Some_0
                ==> (r matches Err(PluginError::ConfigurationError(s))
                    && s@ == range_message(setting_i64(config.config, "from"@)->Some_0, setting_i64(config.config, "to"@)->Some_0)),
            setting_i64(config.config, "from"@) is Some && setting_i64(config.config, "to"@) is Some
                && setting_i64(config.config, "from"@)->Some_0 <= setting_i64(config.config, "to"@)->Some_0
                ==> (r matches Ok(ri) && ri.spec_from() == setting_i64(config.config, "from"@)->Some_0
                    && ri.spec_to() == setting_i64(config.config, "to"@)->Some_0
                    && ri.spec_max_messages() == (match setting_i64(config.config, "max_messages"@) {
                        Some(m) => m,
                        None => -1i64,
                    })
                    && ri.spec_count() == 0 && ri.spec_stats() == no_input_stats()
                    && ri.spec_name() == config.name@ && ri.spec_config() == config.config@),
    {
        let from = match setting(&config.config, "from") {
            Some(f) => f,
            None => {
                return Err(PluginError::configuration_error("from must be configured in Random Input"));
            },
        };
        let to = match setting(&config.config, "to") {
            Some(t) => t,
            None => {
                return Err(PluginError::configuration_error("to must be configured in Random Input"));
            },
        };
        if from > to {
            let mut msg = text_of("from (");
            push_text(&mut msg, i64_text(from).as_str());
            push_text(&mut msg, ") must be less than or equal to to (");
            push_text(&mut msg, i64_text(to).as_str());
            push_text(&mut msg, ")");
            return Err(PluginError::configuration_error(msg.as_str()));
        }
        let max_messages = match setting(&config.config, "max_messages") {
            Some(m) => m,
            None => -1,
        };
        Ok(RandomInput {
            name: config.name.clone(),
            config: config.config.clone(),
            from,
            to,
            max_messages,
            count: 0,
            stats: InputStats::default(),
            reads: Ghost(0),
        })
    }
}

impl Input for RandomInput {
    open spec fn known_name(&self) -> Option<Seq<char>> {
        Some(self.spec_name())
    }

    /// Counting from the start.
    open spec fn prepared(&self) -> bool {
        self.spec_count() == 0 && self.spec_stats() == no_input_stats()
    }

    /// Nothing to release.
    fn shutdown(&mut self) -> (r: PluginResult<()>)
        ensures
            r is Ok,
    {
        Ok(())
    }

    /// Starting afresh never fails.
    open spec fn initialize_fails_with(&self, e: PluginError) -> bool {
        false
    }

    /// Shutting down never fails.
    open spec fn shutdown_fails_with(&self, e: PluginError) -> bool {
        false
    }

    /// Reading never fails.
    open spec fn read_fails_with(&self, e: PluginError) -> bool {
        false
    }

    /// An event whose `message` is an integer of the range, as text.
    open spec fn gives(&self, event: Event) -> bool {
        event.spec_data() is Object && exists|n: i64| self.spec_from() <= n <= self.spec_to() && #[trigger] number_fields(n) == event.fields()
    }

    open spec fn reads_made(&self) -> nat {
        self.spec_reads()
    }

    /// Any read gives nothing or an event of the range.
    open spec fn read_may_give(&self, n: nat, x: Option<Event>) -> bool {
        x matches Some(event) ==> event.spec_data() is Object
            && exists|m: i64| self.spec_from() <= m <= self.spec_to() && #[trigger] number_fields(m) == event.fields()
    }

    fn name(&self) -> (r: &str)
        ensures
            r@ == self.spec_name(),
    {
        self.name.as_str()
    }

    fn config(&self) -> (r: &ObjectMap)
        ensures
            r@ == self.spec_config(),
    {
        &self.config
    }

    /// Starts counting afresh.
    fn initialize(&mut self) -> (r: PluginResult<()>)
        ensures
            r is Ok,
            final(self).spec_count() == 0,
            final(self).spec_stats() == no_input_stats(),
            final(self).spec_from() == old(self).spec_from(),
            final(self).spec_to() == old(self).spec_to(),
            final(self).spec_max_messages() == old(self).spec_max_messages(),
    {
        proof {
            use_type_invariant(&*self);
        }
        self.count = 0;
        self.stats = InputStats::default();
        Ok(())
    }

    /// Stopped once every message has been emitted, ready before.
    fn status(&self) -> (s: PluginStatus)
        ensures
            s == (if self.exhausted() { PluginStatus::Stopped } else { PluginStatus::Ready }),
    {
        if self.max_messages >= 0 && self.count >= self.max_messages {
            PluginStatus::Stopped
        } else {
            PluginStatus::Ready
        }
    }

    /// Nothing once every message has been emitted; else an event carrying
    /// an integer of the range, as text under `message`.
    fn read(&mut self) -> (r: PluginResult<Option<Event>>)
        ensures
            random_read(*old(self), r, *final(self)),
            old(self).exhausted() ==> (r matches Ok(None) && final(self).spec_count() == old(self).spec_count()),
            !old(self).exhausted() ==> (r matches Ok(Some(e)) && exists|n: i64|
                old(self).spec_from() <= n <= old(self).spec_to() && e.spec_data() is Object
                    && #[trigger] number_fields(n) == e.fields())
                && final(self).spec_count() == (if old(self).spec_count() < i64::MAX { old(self).spec_count() + 1 } else { i64::MAX as int })
                && final(self).spec_stats().events_read == (if old(self).spec_stats().events_read < u64::MAX {
                    old(self).spec_stats().events_read + 1
                } else {
                    u64::MAX as int
                }),
            final(self).spec_from() == old(self).spec_from(),
            final(self).spec_to() == old(self).spec_to(),
            final(self).spec_max_messages() == old(self).spec_max_messages(),
    {
        proof {
            use_type_invariant(&*self);
        }
        if self.max_messages >= 0 && self.count >= self.max_messages {
            self.reads = Ghost(self.reads@ + 1);
            return Ok(None);
        }
        self.reads = Ghost(self.reads@ + 1);
        let n = random_in(self.from, self.to);
        let mut data = ObjectMap::new();
        let _ = data.insert(text_of("message"), JsonValue::String(i64_text(n)));
        if self.count < i64::MAX {
            self.count = self.count + 1;
        }
        if self.stats.events_read < u64::MAX {
            self.stats.events_read = self.stats.events_read + 1;
        }
        let e = Event::new(JsonValue::Object(data));
        proof {
            assert(number_fields(n) =~= e.fields());
        }
        Ok(Some(e))
    }

    fn stats(&self) -> (s: InputStats)
        ensures
            s == self.spec_stats(),
    {
        self.stats
    }
}

impl Default for RandomInput {
    /// Integers from 1 to 100, without limit, named `random`.
    fn default() -> (r: Self)
        ensures
            r.spec_from() == 1,
            r.spec_to() == 100,
            r.spec_max_messages() == -1,
            r.spec_count() == 0,
            r.spec_name() == "random"@,
    {
        let mut config = ObjectMap::new();
        let _ = config.insert(text_of("from"), JsonValue::from_i64(1));
        let _ = config.insert(text_of("to"), JsonValue::from_i64(100));
        RandomInput {
            name: text_of("random"),
            config,
            from: 1,
            to: 100,
            max_messages: -1,
            count: 0,
            stats: InputStats::default(),
            reads: Ghost(0),
        }
    }
}

impl FromConfig for RandomInput {
    open spec fn made_from(config: PluginConfig, r: PluginResult<Self>) -> bool {
        random_made_from(config, r)
    }

    fn from_config(config: &PluginConfig) -> (r: PluginResult<Self>) {
        RandomInput::from_config(config)
    }
}

impl crate::plugin::traits::Plugin for RandomInput {
    open spec fn plugin_name(&self) -> Seq<char> {
        self.spec_name()
    }

    open spec fn plugin_settings(&self) -> Map<Seq<char>, JsonView> {
        self.spec_config()
    }

    open spec fn plugin_kind(&self) -> PluginType {
        PluginType::Input
    }

    open spec fn checks(&self, r: PluginResult<()>) -> bool {
        r is Ok
    }

    open spec fn plugin_status(&self) -> PluginStatus {
        if self.exhausted() { PluginStatus::Stopped } else { PluginStatus::Ready }
    }

    open spec fn prepare_fails_with(&self, e: PluginError) -> bool {
        false
    }

    open spec fn release_fails_with(&self, e: PluginError) -> bool {
        false
    }

    fn name(&self) -> (r: &str) {
        Input::name(self)
    }

    fn config(&self) -> (r: &ObjectMap) {
        Input::config(self)
    }

    fn plugin_type(&self) -> (t: PluginType) {
        Input::plugin_type(self)
    }

    fn validate_config(&self) -> (r: PluginResult<()>) {
        Input::validate_config(self)
    }

    fn initialize(&mut self) -> (r: PluginResult<()>) {
        Input::initialize(self)
    }

    fn shutdown(&mut self) -> (r: PluginResult<()>) {
        Input::shutdown(self)
    }

    fn status(&self) -> (s: PluginStatus) {
        Input::status(self)
    }
}

}
