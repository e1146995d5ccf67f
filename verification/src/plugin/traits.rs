//! The plugin traits, for plugins of this library and of its users.
//!
//! Each trait carries the common plugin methods (name, settings, type,
//! validation, life cycle, status) beside its own, so that a plugin is one
//! trait object.
use vstd::prelude::*;
use crate::event::event::Event;
use crate::json::{JsonView, ObjectMap};
use crate::plugin::error::{PluginError, PluginResult};
use crate::plugin::types::{FilterStats, InputStats, OutputStats, PluginConfig, PluginStatus, PluginType};

verus! {

/// The methods common to every plugin.
pub trait Plugin {
    /// The plugin name, as a spec value.
    spec fn plugin_name(&self) -> Seq<char>;

    /// The settings, as a spec value.
    spec fn plugin_settings(&self) -> Map<Seq<char>, JsonView>;

    /// The plugin type, as a spec value.
    spec fn plugin_kind(&self) -> PluginType;

    /// Whether `r` is what checking the settings gives.
    spec fn checks(&self, r: PluginResult<()>) -> bool;

    /// The status, as a spec value.
    spec fn plugin_status(&self) -> PluginStatus;

    /// The errors that preparing the plugin may give.
    spec fn prepare_fails_with(&self, e: PluginError) -> bool;

    /// The errors that releasing the plugin may give.
    spec fn release_fails_with(&self, e: PluginError) -> bool;

    /// The plugin name.
    fn name(&self) -> (r: &str)
        ensures
            r@ == self.plugin_name(),
    ;

    /// The plugin settings.
    fn config(&self) -> (r: &ObjectMap)
        ensures
            r@ == self.plugin_settings(),
    ;

    /// The plugin type.
    fn plugin_type(&self) -> (t: PluginType)
        ensures
            t == self.plugin_kind(),
    ;

    /// Checks the settings.
    fn validate_config(&self) -> (r: PluginResult<()>)
        ensures
            self.checks(r),
    ;

    /// Prepares the plugin (called after construction).
    fn initialize(&mut self) -> (r: PluginResult<()>)
        ensures
            r is Err ==> old(self).prepare_fails_with(r->Err_0),
    ;

    /// Releases the plugin's resources.
    fn shutdown(&mut self) -> (r: PluginResult<()>)
        ensures
            r is Err ==> old(self).release_fails_with(r->Err_0),
    ;

    /// The plugin status.
    fn status(&self) -> (s: PluginStatus)
        ensures
            s == self.plugin_status(),
    ;
}

/// A plugin made from its configuration.
pub trait FromConfig: Plugin + Sized {
    /// Whether `r` is what making the plugin from `config` gives: the
    /// plugin's own account of itself.
    spec fn made_from(config: PluginConfig, r: PluginResult<Self>) -> bool;

    /// Makes the plugin from `config`.
    fn from_config(config: &PluginConfig) -> (r: PluginResult<Self>)
        ensures
            Self::made_from(*config, r),
    ;
}

/// An input plugin: reads events from a source.
pub trait Input {
    /// The plugin name by the plugin's own account; none when it gives
    /// no account.
    open spec fn known_name(&self) -> Option<Seq<char>> {
        None
    }

    /// Whether the plugin is prepared to run, by its own account; one that
    /// gives no account counts as prepared.
    open spec fn prepared(&self) -> bool {
        true
    }

    /// Whether the plugin has released its resources, by its own account;
    /// one that gives no account counts as released.
    open spec fn released(&self) -> bool {
        true
    }

    /// The errors that preparing the plugin may give: the plugin's own
    /// account of itself; a plugin that gives none may fail with anything.
    open spec fn initialize_fails_with(&self, e: PluginError) -> bool {
        true
    }

    /// The errors that shutting the plugin down may give, by the same
    /// account.
    open spec fn shutdown_fails_with(&self, e: PluginError) -> bool {
        true
    }

    /// The errors that reading may give, by the same account, which reading
    /// does not change.
    open spec fn read_fails_with(&self, e: PluginError) -> bool {
        true
    }

    /// The events that reading may give, by the same account, which reading
    /// does not change.
    open spec fn gives(&self, event: Event) -> bool {
        true
    }

    /// How many reads have given a result, by the same account.
    open spec fn reads_made(&self) -> nat {
        0
    }

    /// Whether read number `n`, counting from zero, may give `x`, by the
    /// same account, which reading does not change.
    open spec fn read_may_give(&self, n: nat, x: Option<Event>) -> bool {
        true
    }

    /// The plugin name.
    fn name(&self) -> (r: &str)
        ensures
            self.known_name() is Some ==> r@ == self.known_name()->Some_0,
    ;

    /// The plugin settings.
    fn config(&self) -> &ObjectMap;

    /// The plugin type.
    fn plugin_type(&self) -> (t: PluginType)
        default_ensures
            t == PluginType::Input,
    {
        PluginType::Input
    }

    /// Checks the settings.
    fn validate_config(&self) -> (r: PluginResult<()>)
        default_ensures
            r is Ok,
    {
        Ok(())
    }

    /// Prepares the plugin (called after construction).
    fn initialize(&mut self) -> (r: PluginResult<()>)
        ensures
            r is Err ==> old(self).initialize_fails_with(r->Err_0),
            r is Ok ==> final(self).prepared(),
            final(self).known_name() == old(self).known_name(),
    ;

    /// Releases the plugin's resources.
    fn shutdown(&mut self) -> (r: PluginResult<()>)
        ensures
            r is Err ==> old(self).shutdown_fails_with(r->Err_0),
            r is Ok ==> final(self).released(),
            final(self).known_name() == old(self).known_name(),
    ;

    /// The plugin status.
    fn status(&self) -> (s: PluginStatus)
        default_ensures
            s == PluginStatus::Ready,
    {
        PluginStatus::Ready
    }

    /// The next event: `Ok(None)` when none is available now.
    fn read(&mut self) -> (r: PluginResult<Option<Event>>)
        ensures
            r is Err ==> old(self).read_fails_with(r->Err_0),
            r matches Ok(Some(ev)) ==> old(self).gives(ev),
            r matches Ok(x) ==> old(self).read_may_give(old(self).reads_made(), x) && final(self).reads_made() == old(self).reads_made() + 1,
            forall|e: PluginError| #[trigger] final(self).read_fails_with(e) == old(self).read_fails_with(e),
            forall|ev: Event| #[trigger] final(self).gives(ev) == old(self).gives(ev),
            forall|n: nat, x: Option<Event>| #[trigger] final(self).read_may_give(n, x) == old(self).read_may_give(n, x),
    ;

    /// Whether the input is ready for reading.
    fn is_ready(&self) -> (b: bool)
        default_ensures
            b,
    {
        true
    }

    /// Input statistics.
    fn stats(&self) -> (s: InputStats)
        default_ensures
            s == (InputStats { events_read: 0, bytes_read: 0, errors: 0, read_time_ms: 0 }),
    {
        InputStats::default()
    }
}

/// A filter plugin: transforms events.
pub trait Filter {
    /// The plugin name by the plugin's own account; none when it gives
    /// no account.
    open spec fn known_name(&self) -> Option<Seq<char>> {
        None
    }

    /// Whether the plugin is prepared to run, by its own account; one that
    /// gives no account counts as prepared.
    open spec fn prepared(&self) -> bool {
        true
    }

    /// Whether the plugin has released its resources, by its own account;
    /// one that gives no account counts as released.
    open spec fn released(&self) -> bool {
        true
    }

    /// What processing `input` may give: the filter's own account of itself;
    /// a filter that gives none may give anything.
    open spec fn filters(&self, input: Event, output: PluginResult<Event>) -> bool {
        true
    }

    /// The errors that preparing the plugin may give: the plugin's own
    /// account of itself; a plugin that gives none may fail with anything.
    open spec fn initialize_fails_with(&self, e: PluginError) -> bool {
        true
    }

    /// The errors that shutting the plugin down may give, by the same
    /// account.
    open spec fn shutdown_fails_with(&self, e: PluginError) -> bool {
        true
    }

    /// The plugin name.
    fn name(&self) -> (r: &str)
        ensures
            self.known_name() is Some ==> r@ == self.known_name()->Some_0,
    ;

    /// The plugin settings.
    fn config(&self) -> &ObjectMap;

    /// The plugin type.
    fn plugin_type(&self) -> (t: PluginType)
        default_ensures
            t == PluginType::Filter,
    {
        PluginType::Filter
    }

    /// Checks the settings.
    fn validate_config(&self) -> (r: PluginResult<()>)
        default_ensures
            r is Ok,
    {
        Ok(())
    }

    /// Prepares the plugin (called after construction).
    fn initialize(&mut self) -> (r: PluginResult<()>)
        ensures
            r is Err ==> old(self).initialize_fails_with(r->Err_0),
            r is Ok ==> final(self).prepared(),
            final(self).known_name() == old(self).known_name(),
    ;

    /// Releases the plugin's resources.
    fn shutdown(&mut self) -> (r: PluginResult<()>)
        ensures
            r is Err ==> old(self).shutdown_fails_with(r->Err_0),
            r is Ok ==> final(self).released(),
            final(self).known_name() == old(self).known_name(),
    ;

    /// The plugin status.
    fn status(&self) -> (s: PluginStatus)
        default_ensures
            s == PluginStatus::Ready,
    {
        PluginStatus::Ready
    }

    /// Processes one event.
    fn process(&self, event: Event) -> (r: PluginResult<Event>)
        ensures
            self.filters(event, r),
    ;

    /// Processes events in order, stopping at the first error.
    fn process_batch(&self, events: Vec<Event>) -> (r: PluginResult<Vec<Event>>)
        ensures
            r matches Ok(out) ==> out@.len() == events@.len() && forall|i: int| 0 <= i < events@.len() ==> self.filters(events@[i], Ok::<Event, PluginError>(#[trigger] out@[i])),
            r matches Err(e) ==> exists|i: int| 0 <= i < events@.len() && self.filters(#[trigger] events@[i], Err::<Event, PluginError>(e)),
    {
        let ghost all = events@;
        let mut rest = events;
        let mut results: Vec<Event> = Vec::new();
        let mut k: usize = 0;
        proof {
            assert(rest@ =~= all.skip(0));
            assert(rest@.len() == rest.len());
        }
        while rest.len() > 0
            invariant
                0 <= k <= all.len(),
                all.len() <= usize::MAX,
                rest@ == all.skip(k as int),
                all == events@,
                results@.len() == k,
                forall|i: int| 0 <= i < k ==> self.filters(all[i], Ok::<Event, PluginError>(#[trigger] results@[i])),
            decreases rest@.len(),
        {
            proof {
                assert(all.skip(k as int).len() > 0);
            }
            let event = rest.remove(0);
            proof {
                assert(event == all[k as int]);
                assert(rest@ =~= all.skip(k + 1));
            }
            let ghost ev = event;
            let r = self.process(event);
            match r {
                Ok(processed) => results.push(processed),
                Err(e) => {
                    proof {
                        assert(self.filters(all[k as int], r));
                        assert(r == Err::<Event, PluginError>(e));
                        assert(events@[k as int] == all[k as int]);
                    }
                    return Err(e);
                },
            }
            k = k + 1;
        }
        Ok(results)
    }

    /// Whether the filter can process events.
    fn can_process(&self) -> (b: bool)
        default_ensures
            b,
    {
        true
    }

    /// Filter statistics.
    fn stats(&self) -> (s: FilterStats)
        default_ensures
            s == (FilterStats { events_processed: 0, events_filtered: 0, errors: 0, process_time_ms: 0 }),
    {
        FilterStats::default()
    }
}

/// An output plugin: writes events to a destination.
pub trait Output {
    /// The plugin name by the plugin's own account; none when it gives
    /// no account.
    open spec fn known_name(&self) -> Option<Seq<char>> {
        None
    }

    /// Whether the plugin is prepared to run, by its own account; one that
    /// gives no account counts as prepared.
    open spec fn prepared(&self) -> bool {
        true
    }

    /// Whether the plugin has released its resources, by its own account;
    /// one that gives no account counts as released.
    open spec fn released(&self) -> bool {
        true
    }

    /// The errors that preparing the plugin may give: the plugin's own
    /// account of itself; a plugin that gives none may fail with anything.
    open spec fn initialize_fails_with(&self, e: PluginError) -> bool {
        true
    }

    /// The errors that shutting the plugin down may give, by the same
    /// account.
    open spec fn shutdown_fails_with(&self, e: PluginError) -> bool {
        true
    }

    /// The errors that writing may give, by the same account, which writing
    /// does not change.
    open spec fn write_fails_with(&self, e: PluginError) -> bool {
        true
    }

    /// Whether nothing written is held back, by the same account.
    open spec fn flushed(&self) -> bool {
        true
    }

    /// The plugin name.
    fn name(&self) -> (r: &str)
        ensures
            self.known_name() is Some ==> r@ == self.known_name()->Some_0,
    ;

    /// The plugin settings.
    fn config(&self) -> &ObjectMap;

    /// The plugin type.
    fn plugin_type(&self) -> (t: PluginType)
        default_ensures
            t == PluginType::Output,
    {
        PluginType::Output
    }

    /// Checks the settings.
    fn validate_config(&self) -> (r: PluginResult<()>)
        default_ensures
            r is Ok,
    {
        Ok(())
    }

    /// Prepares the plugin (called after construction).
    fn initialize(&mut self) -> (r: PluginResult<()>)
        ensures
            r is Err ==> old(self).initialize_fails_with(r->Err_0),
            r is Ok ==> final(self).prepared(),
            final(self).known_name() == old(self).known_name(),
    ;

    /// Releases the plugin's resources.
    fn shutdown(&mut self) -> (r: PluginResult<()>)
        ensures
            r is Err ==> old(self).shutdown_fails_with(r->Err_0),
            r is Ok ==> final(self).released(),
            final(self).known_name() == old(self).known_name(),
    ;

    /// The plugin status.
    fn status(&self) -> (s: PluginStatus)
        default_ensures
            s == PluginStatus::Ready,
    {
        PluginStatus::Ready
    }

    /// Writes one event.
    fn write(&mut self, event: Event) -> (r: PluginResult<()>)
        ensures
            r is Err ==> old(self).write_fails_with(r->Err_0),
            forall|e: PluginError| #[trigger] final(self).write_fails_with(e) == old(self).write_fails_with(e),
    ;

    /// Writes events in order, stopping at the first error.
    fn write_batch(&mut self, events: Vec<Event>) -> (r: PluginResult<()>)
        ensures
            r is Err ==> old(self).write_fails_with(r->Err_0),
            forall|e: PluginError| #[trigger] final(self).write_fails_with(e) == old(self).write_fails_with(e),
        default_ensures
            events@.len() == 0 ==> r is Ok,
    {
        let mut rest = events;
        while rest.len() > 0
            invariant
                rest@.len() <= events@.len(),
                forall|e: PluginError| #[trigger] self.write_fails_with(e) == old(self).write_fails_with(e),
            decreases rest@.len(),
        {
            let event = rest.remove(0);
            let r = self.write(event);
            if r.is_err() {
                return r;
            }
        }
        Ok(())
    }

    /// Writes out anything buffered.
    fn flush(&mut self) -> (r: PluginResult<()>)
        ensures
            r is Err ==> old(self).write_fails_with(r->Err_0),
            r is Ok ==> final(self).flushed(),
            forall|e: PluginError| #[trigger] final(self).write_fails_with(e) == old(self).write_fails_with(e),
    ;

    /// Whether the output is ready for writing.
    fn is_ready(&self) -> (b: bool)
        default_ensures
            b,
    {
        true
    }

    /// Output statistics.
    fn stats(&self) -> (s: OutputStats)
        default_ensures
            s == (OutputStats { events_written: 0, bytes_written: 0, errors: 0, write_time_ms: 0 }),
    {
        OutputStats::default()
    }
}

/// Makes input plugins.
pub trait InputConstructor {
    /// Whether `r` is a result that this constructor may give.
    spec fn constructs(&self, r: PluginResult<Box<dyn Input>>) -> bool;

    /// A new plugin.
    fn construct(&self) -> (r: PluginResult<Box<dyn Input>>)
        ensures
            self.constructs(r),
    ;
}

/// Makes filter plugins.
pub trait FilterConstructor {
    /// Whether `r` is a result that this constructor may give.
    spec fn constructs(&self, r: PluginResult<Box<dyn Filter>>) -> bool;

    /// A new plugin.
    fn construct(&self) -> (r: PluginResult<Box<dyn Filter>>)
        ensures
            self.constructs(r),
    ;
}

/// Makes output plugins.
pub trait OutputConstructor {
    /// Whether `r` is a result that this constructor may give.
    spec fn constructs(&self, r: PluginResult<Box<dyn Output>>) -> bool;

    /// A new plugin.
    fn construct(&self) -> (r: PluginResult<Box<dyn Output>>)
        ensures
            self.constructs(r),
    ;
}

/// An input constructor made of a closure.
pub struct InputFn<F: Fn() -> PluginResult<Box<dyn Input>>> {
    f: F,
}

impl<F: Fn() -> PluginResult<Box<dyn Input>>> InputFn<F> {
    #[verifier::type_invariant]
    spec fn callable(self) -> bool {
        call_requires(self.f, ())
    }

    /// Wraps a closure.
    pub fn new(f: F) -> (c: Self)
        requires
            call_requires(f, ()),
        ensures
            forall|r: PluginResult<Box<dyn Input>>| #[trigger] c.constructs(r) == call_ensures(f, (), r),
    {
        InputFn { f }
    }
}

impl<F: Fn() -> PluginResult<Box<dyn Input>>> InputConstructor for InputFn<F> {
    closed spec fn constructs(&self, r: PluginResult<Box<dyn Input>>) -> bool {
        call_ensures(self.f, (), r)
    }

    fn construct(&self) -> (r: PluginResult<Box<dyn Input>>) {
        proof {
            use_type_invariant(self);
        }
        (self.f)()
    }
}

/// A filter constructor made of a closure.
pub struct FilterFn<F: Fn() -> PluginResult<Box<dyn Filter>>> {
    f: F,
}

impl<F: Fn() -> PluginResult<Box<dyn Filter>>> FilterFn<F> {
    #[verifier::type_invariant]
    spec fn callable(self) -> bool {
        call_requires(self.f, ())
    }

    /// Wraps a closure.
    pub fn new(f: F) -> (c: Self)
        requires
            call_requires(f, ()),
        ensures
            forall|r: PluginResult<Box<dyn Filter>>| #[trigger] c.constructs(r) == call_ensures(f, (), r),
    {
        FilterFn { f }
    }
}

impl<F: Fn() -> PluginResult<Box<dyn Filter>>> FilterConstructor for FilterFn<F> {
    closed spec fn constructs(&self, r: PluginResult<Box<dyn Filter>>) -> bool {
        call_ensures(self.f, (), r)
    }

    fn construct(&self) -> (r: PluginResult<Box<dyn Filter>>) {
        proof {
            use_type_invariant(self);
        }
        (self.f)()
    }
}

/// An output constructor made of a closure.
pub struct OutputFn<F: Fn() -> PluginResult<Box<dyn Output>>> {
    f: F,
}

impl<F: Fn() -> PluginResult<Box<dyn Output>>> OutputFn<F> {
    #[verifier::type_invariant]
    spec fn callable(self) -> bool {
        call_requires(self.f, ())
    }

    /// Wraps a closure.
    pub fn new(f: F) -> (c: Self)
        requires
            call_requires(f, ()),
        ensures
            forall|r: PluginResult<Box<dyn Output>>| #[trigger] c.constructs(r) == call_ensures(f, (), r),
    {
        OutputFn { f }
    }
}

impl<F: Fn() -> PluginResult<Box<dyn Output>>> OutputConstructor for OutputFn<F> {
    closed spec fn constructs(&self, r: PluginResult<Box<dyn Output>>) -> bool {
        call_ensures(self.f, (), r)
    }

    fn construct(&self) -> (r: PluginResult<Box<dyn Output>>) {
        proof {
            use_type_invariant(self);
        }
        (self.f)()
    }
}

}
