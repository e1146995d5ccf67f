//! The plugin manager: the running plugin instances, by kind and name.
use vstd::prelude::*;
use crate::event::event::Event;
use crate::plugin::error::{plugin_error_text, PluginError, PluginResult};
use crate::plugin::factory::{creation_outcome, empty_name_message, PluginFactory};
use crate::plugin::table::NameTable;
use crate::plugin::traits::{Filter, Input, Output};
use crate::plugin::types::{plugin_type_name, PluginConfig, PluginType};
use crate::text::{join, join_texts, push_text, text_of, texts_of};

verus! {

/// The text of the error for a plugin name that is taken.
pub open spec fn duplicate_message(name: Seq<char>, t: PluginType) -> Seq<char> {
    "Plugin '"@ + name + "' of type '"@ + plugin_type_name(t) + "' already exists"@
}

/// The line that reports a plugin that failed to shut down.
pub open spec fn shutdown_line(kind: Seq<char>, name: Seq<char>, e: PluginError) -> Seq<char> {
    kind + " plugin '"@ + name + "': "@ + plugin_error_text(e)
}

/// Whether `r` reports the failure lines `lines`: success when there are
/// none, else one error that lists them, separated by "; ".
pub open spec fn reports(lines: Seq<Seq<char>>, r: PluginResult<()>) -> bool {
    if lines.len() == 0 {
        r is Ok
    } else {
        r matches Err(PluginError::Other(s)) && s@ == join_texts(lines, "; "@)
    }
}

/// Whether one of the inputs `ps` accounts for giving `ev`.
pub open spec fn given_by(ps: Seq<Box<dyn Input>>, ev: Event) -> bool {
    exists|k: int| 0 <= k < ps.len() && #[trigger] ps[k].gives(ev)
}

/// Whether `runs` are, input by input, events that successive reads of
/// the inputs `ps` gave: event `j` of `runs[k]` is what read number `j`
/// after the reads already made may give; when `complete`, each input was
/// read until a read gave nothing.
pub open spec fn runs_read(ps: Seq<Box<dyn Input>>, runs: Seq<Seq<Event>>, complete: bool) -> bool {
    &&& runs.len() <= ps.len()
    &&& forall|k: int, j: int| 0 <= k < runs.len() && 0 <= j < runs[k].len()
        ==> ps[k].read_may_give((ps[k].reads_made() + j) as nat, Some(#[trigger] runs[k][j]))
    &&& complete ==> forall|k: int| 0 <= k < runs.len() ==> ps[k].read_may_give((ps[k].reads_made() + (#[trigger] runs[k]).len()) as nat, None)
}

/// Whether `evs` are the events of reading every input of `ps` in order,
/// each read by read, until it had nothing more (or the events filled
/// memory's limit): the runs of the inputs, one after another.
pub open spec fn read_runs(ps: Seq<Box<dyn Input>>, runs: Seq<Seq<Event>>, evs: Seq<Event>) -> bool {
    &&& runs.len() == ps.len()
    &&& evs == runs.flatten()
    &&& runs_read(ps, runs, evs.len() < usize::MAX)
}

/// Whether each input of `ps` has at most one outcome for each read.
pub open spec fn one_read_outcome(ps: Seq<Box<dyn Input>>) -> bool {
    forall|k: int, n: nat, x: Option<Event>, y: Option<Event>|
        0 <= k < ps.len() && #[trigger] ps[k].read_may_give(n, x) && #[trigger] ps[k].read_may_give(n, y) ==> x == y
}

/// Two complete runs of the same inputs agree, input by input.
proof fn lemma_same_run(ps: Seq<Box<dyn Input>>, r1: Seq<Seq<Event>>, r2: Seq<Seq<Event>>, k: int)
    requires
        one_read_outcome(ps),
        runs_read(ps, r1, true),
        runs_read(ps, r2, true),
        0 <= k < r1.len(),
        k < r2.len(),
    ensures
        r1[k] == r2[k],
{
    let b = ps[k].reads_made();
    let a = r1[k];
    let c = r2[k];
    assert forall|j: int| 0 <= j < a.len() && j < c.len() implies a[j] == c[j] by {
        assert(ps[k].read_may_give((b + j) as nat, Some(a[j])));
        assert(ps[k].read_may_give((b + j) as nat, Some(c[j])));
    }
    if a.len() < c.len() {
        assert(ps[k].read_may_give((b + a.len()) as nat, None));
        assert(ps[k].read_may_give((b + a.len()) as nat, Some(c[a.len() as int])));
    } else if c.len() < a.len() {
        assert(ps[k].read_may_give((b + c.len()) as nat, None));
        assert(ps[k].read_may_give((b + c.len()) as nat, Some(a[c.len() as int])));
    }
    assert(a =~= c);
}

/// When each input has one outcome per read, the events of reading every
/// input to its end are fixed: any two such results are the same events in
/// the same order, so the order is that of the inputs and, within an
/// input, that of its reads.
pub proof fn law_read_order_is_fixed(ps: Seq<Box<dyn Input>>, r1: Seq<Seq<Event>>, e1: Seq<Event>, r2: Seq<Seq<Event>>, e2: Seq<Event>)
    requires
        one_read_outcome(ps),
        read_runs(ps, r1, e1),
        read_runs(ps, r2, e2),
        e1.len() < usize::MAX,
        e2.len() < usize::MAX,
    ensures
        e1 == e2,
{
    assert forall|k: int| 0 <= k < r1.len() implies #[trigger] r1[k] == r2[k] by {
        lemma_same_run(ps, r1, r2, k);
    }
    assert(r1 =~= r2);
}

/// The lines that report the failures among `outs`, the results of
/// shutting down the plugins of kind `kind` named `names`, in order.
pub open spec fn failure_lines(kind: Seq<char>, names: Seq<Seq<char>>, outs: Seq<PluginResult<()>>) -> Seq<Seq<char>>
    decreases outs.len(),
{
    if outs.len() == 0 {
        Seq::empty()
    } else {
        let before = failure_lines(kind, names, outs.drop_last());
        match outs.last() {
            Ok(_) => before,
            Err(e) => before.push(shutdown_line(kind, names[outs.len() - 1], e)),
        }
    }
}

/// Whether `outs` is what filter `fs[k]` makes of the events `ins`, one by
/// one.
pub open spec fn batch_of(fs: Seq<Box<dyn Filter>>, k: int, ins: Seq<Event>, outs: Seq<Event>) -> bool {
    outs.len() == ins.len() && forall|i: int| 0 <= i < ins.len() ==> fs[k].filters(ins[i], Ok::<Event, PluginError>(#[trigger] outs[i]))
}

/// Whether `stages` are the event sequences before and after each filter of
/// `fs`: `stages[k + 1]` is what `fs[k]` makes of `stages[k]`.
pub open spec fn stages_of(fs: Seq<Box<dyn Filter>>, stages: Seq<Seq<Event>>) -> bool {
    &&& stages.len() == fs.len() + 1
    &&& forall|k: int| 0 <= k < fs.len() ==> #[trigger] batch_of(fs, k, stages[k], stages[k + 1])
}

/// Whether `outs` is what the filters `fs`, one after another, make of `ins`.
pub open spec fn through_filters(fs: Seq<Box<dyn Filter>>, ins: Seq<Event>, outs: Seq<Event>) -> bool {
    exists|stages: Seq<Seq<Event>>| #[trigger] stages_of(fs, stages) && stages[0] == ins && stages.last() == outs
}

/// The running plugins, by kind and name, and the factory that makes them.
pub struct PluginManager {
    inputs: NameTable<Box<dyn Input>>,
    filters: NameTable<Box<dyn Filter>>,
    outputs: NameTable<Box<dyn Output>>,
    factory: PluginFactory,
}

impl PluginManager {
    /// The names of the running plugins of kind `t`, in the order they came.
    pub closed spec fn names_view(&self, t: PluginType) -> Seq<Seq<char>> {
        match t {
            PluginType::Input => self.inputs.names(),
            PluginType::Filter => self.filters.names(),
            PluginType::Output => self.outputs.names(),
        }
    }

    /// The running inputs, in the order they came.
    pub closed spec fn input_list(&self) -> Seq<Box<dyn Input>> {
        self.inputs.items()
    }

    /// The running filters, in the order they came.
    pub closed spec fn filter_list(&self) -> Seq<Box<dyn Filter>> {
        self.filters.items()
    }

    /// The running outputs, in the order they came.
    pub closed spec fn output_list(&self) -> Seq<Box<dyn Output>> {
        self.outputs.items()
    }

    /// The factory.
    pub closed spec fn spec_factory(&self) -> PluginFactory {
        self.factory
    }

    /// A manager with no plugins and an empty factory.
    pub fn new() -> (m: Self)
        ensures
            m.names_view(PluginType::Input) == Seq::<Seq<char>>::empty(),
            m.names_view(PluginType::Filter) == Seq::<Seq<char>>::empty(),
            m.names_view(PluginType::Output) == Seq::<Seq<char>>::empty(),
            m.spec_factory().spec_registry().input_names_view() == Seq::<Seq<char>>::empty(),
            m.spec_factory().spec_registry().filter_names_view() == Seq::<Seq<char>>::empty(),
            m.spec_factory().spec_registry().output_names_view() == Seq::<Seq<char>>::empty(),
    {
        PluginManager::with_factory(PluginFactory::new())
    }

    /// A manager with no plugins that makes them with `factory`.
    pub fn with_factory(factory: PluginFactory) -> (m: Self)
        ensures
            m.names_view(PluginType::Input) == Seq::<Seq<char>>::empty(),
            m.names_view(PluginType::Filter) == Seq::<Seq<char>>::empty(),
            m.names_view(PluginType::Output) == Seq::<Seq<char>>::empty(),
            m.spec_factory() == factory,
    {
        PluginManager { inputs: NameTable::new(), filters: NameTable::new(), outputs: NameTable::new(), factory }
    }

    /// Whether a plugin of kind `plugin_type` runs under `name`.
    pub fn has_plugin(&self, name: &str, plugin_type: PluginType) -> (b: bool)
        ensures
            b == self.names_view(plugin_type).contains(name@),
    {
        match plugin_type {
            PluginType::Input => self.inputs.contains(name),
            PluginType::Filter => self.filters.contains(name),
            PluginType::Output => self.outputs.contains(name),
        }
    }

    /// Checks a configuration before its plugin is made: a name that is not
    /// empty and not taken for its kind.
    fn validate_config(&self, config: &PluginConfig) -> (r: PluginResult<()>)
        ensures
            config.name@.len() == 0 ==> (r matches Err(PluginError::InvalidName(s)) && s@ == empty_name_message()),
            config.name@.len() > 0 && self.names_view(config.plugin_type).contains(config.name@) ==> (r matches Err(PluginError::RegistrationError(s)) && s@ == duplicate_message(config.name@, config.plugin_type)),
            config.name@.len() > 0 && !self.names_view(config.plugin_type).contains(config.name@) ==> r is Ok,
    {
        if config.name().is_empty() {
            return Err(PluginError::invalid_name("Plugin name cannot be empty"));
        }
        if self.has_plugin(config.name(), config.plugin_type()) {
            let mut msg = text_of("Plugin '");
            push_text(&mut msg, config.name());
            push_text(&mut msg, "' of type '");
            push_text(&mut msg, config.plugin_type().as_str());
            push_text(&mut msg, "' already exists");
            return Err(PluginError::registration_error(msg.as_str()));
        }
        Ok(())
    }

    /// Makes the plugin that `config` names with the factory and runs it
    /// under its name.
    pub fn add_plugin(&mut self, config: PluginConfig) -> (r: PluginResult<()>)
        ensures
            config.name@.len() == 0 ==> (r matches Err(PluginError::InvalidName(s)) && s@ == empty_name_message()),
            config.name@.len() > 0 && old(self).names_view(config.plugin_type).contains(config.name@) ==> (r matches Err(PluginError::RegistrationError(s)) && s@ == duplicate_message(config.name@, config.plugin_type)),
            config.name@.len() > 0 && !old(self).names_view(config.plugin_type).contains(config.name@)
                ==> creation_outcome(old(self).spec_factory().spec_registry(), config, r),
            r is Ok ==> final(self).names_view(config.plugin_type) == old(self).names_view(config.plugin_type).push(config.name@),
            r is Err ==> final(self).names_view(config.plugin_type) == old(self).names_view(config.plugin_type),
            forall|t: PluginType| t != config.plugin_type ==> #[trigger] final(self).names_view(t) == old(self).names_view(t),
            final(self).spec_factory() == old(self).spec_factory(),
    {
        self.validate_config(&config)?;
        match config.plugin_type() {
            PluginType::Input => {
                match self.factory.create_input(&config) {
                    Ok(plugin) => self.inputs.insert(text_of(config.name()), plugin),
                    Err(e) => return Err(e),
                }
            },
            PluginType::Filter => {
                match self.factory.create_filter(&config) {
                    Ok(plugin) => self.filters.insert(text_of(config.name()), plugin),
                    Err(e) => return Err(e),
                }
            },
            PluginType::Output => {
                match self.factory.create_output(&config) {
                    Ok(plugin) => self.outputs.insert(text_of(config.name()), plugin),
                    Err(e) => return Err(e),
                }
            },
        }
        Ok(())
    }

    /// Stops running the plugin of kind `plugin_type` named `name`.
    pub fn remove_plugin(&mut self, name: &str, plugin_type: PluginType) -> (r: PluginResult<()>)
        ensures
            !old(self).names_view(plugin_type).contains(name@) ==> (r matches Err(PluginError::NotFound(s)) && s@ == name@),
            old(self).names_view(plugin_type).contains(name@) ==> r is Ok,
            r is Ok ==> final(self).names_view(plugin_type).len() == old(self).names_view(plugin_type).len() - 1,
            r is Err ==> final(self).input_list() == old(self).input_list() && final(self).filter_list() == old(self).filter_list()
                && final(self).output_list() == old(self).output_list() && final(self).names_view(plugin_type) == old(self).names_view(plugin_type),
            !final(self).names_view(plugin_type).contains(name@),
            final(self).names_view(plugin_type).to_set() == old(self).names_view(plugin_type).to_set().remove(name@),
            forall|t: PluginType| t != plugin_type ==> #[trigger] final(self).names_view(t) == old(self).names_view(t),
            final(self).spec_factory() == old(self).spec_factory(),
    {
        let removed = match plugin_type {
            PluginType::Input => self.inputs.remove(name),
            PluginType::Filter => self.filters.remove(name),
            PluginType::Output => self.outputs.remove(name),
        };
        if !removed {
            return Err(PluginError::not_found(name));
        }
        Ok(())
    }

    /// The input plugin named `name`.
    pub fn get_input(&self, name: &str) -> (r: Option<&Box<dyn Input>>)
        ensures
            r is Some <==> self.names_view(PluginType::Input).contains(name@),
            r matches Some(p) ==> exists|i: int| 0 <= i < self.names_view(PluginType::Input).len() && self.names_view(PluginType::Input)[i] == name@ && *p == #[trigger] self.input_list()[i],
    {
        self.inputs.check_distinct();
        let r = self.inputs.get(name);
        proof {
            if let Some(p) = r {
                let i = choose|i: int| 0 <= i < self.inputs.names().len() && self.inputs.names()[i] == name@ && *p == #[trigger] self.inputs.items()[i];
                assert(*p == self.input_list()[i]);
            }
        }
        r
    }

    /// The input plugin named `name`, for change in place.
    pub fn get_input_mut(&mut self, name: &str) -> (r: Option<&mut Box<dyn Input>>)
        ensures
            r is Some <==> old(self).names_view(PluginType::Input).contains(name@),
            r is None ==> *final(self) == *old(self),
            r matches Some(p) ==> exists|i: int| 0 <= i < old(self).names_view(PluginType::Input).len() && old(self).names_view(PluginType::Input)[i] == name@
                && *p == #[trigger] old(self).input_list()[i],
            r matches Some(p) ==> forall|i: int| 0 <= i < old(self).names_view(PluginType::Input).len() && old(self).names_view(PluginType::Input)[i] == name@
                ==> #[trigger] final(self).input_list()[i] == *final(p),
            final(self).input_list().len() == old(self).input_list().len(),
            forall|j: int| 0 <= j < old(self).input_list().len() && old(self).names_view(PluginType::Input)[j] != name@
                ==> #[trigger] final(self).input_list()[j] == old(self).input_list()[j],
            final(self).names_view(PluginType::Input) == old(self).names_view(PluginType::Input),
            final(self).names_view(PluginType::Filter) == old(self).names_view(PluginType::Filter),
            final(self).names_view(PluginType::Output) == old(self).names_view(PluginType::Output),
            final(self).filter_list() == old(self).filter_list(),
            final(self).output_list() == old(self).output_list(),
            final(self).spec_factory() == old(self).spec_factory(),
    {
        self.inputs.check_distinct();
        match self.inputs.position(name) {
            Some(i) => {
                let p = self.inputs.item_mut(i);
                proof {
                    assert(old(self).input_list()[i as int] == *p);
                    assert(old(self).names_view(PluginType::Input)[i as int] == name@);
                }
                Some(p)
            },
            None => None,
        }
    }

    /// The filter plugin named `name`.
    pub fn get_filter(&self, name: &str) -> (r: Option<&Box<dyn Filter>>)
        ensures
            r is Some <==> self.names_view(PluginType::Filter).contains(name@),
            r matches Some(p) ==> exists|i: int| 0 <= i < self.names_view(PluginType::Filter).len() && self.names_view(PluginType::Filter)[i] == name@ && *p == #[trigger] self.filter_list()[i],
    {
        self.filters.check_distinct();
        let r = self.filters.get(name);
        proof {
            if let Some(p) = r {
                let i = choose|i: int| 0 <= i < self.filters.names().len() && self.filters.names()[i] == name@ && *p == #[trigger] self.filters.items()[i];
                assert(*p == self.filter_list()[i]);
            }
        }
        r
    }

    /// The output plugin named `name`.
    pub fn get_output(&self, name: &str) -> (r: Option<&Box<dyn Output>>)
        ensures
            r is Some <==> self.names_view(PluginType::Output).contains(name@),
            r matches Some(p) ==> exists|i: int| 0 <= i < self.names_view(PluginType::Output).len() && self.names_view(PluginType::Output)[i] == name@ && *p == #[trigger] self.output_list()[i],
    {
        self.outputs.check_distinct();
        let r = self.outputs.get(name);
        proof {
            if let Some(p) = r {
                let i = choose|i: int| 0 <= i < self.outputs.names().len() && self.outputs.names()[i] == name@ && *p == #[trigger] self.outputs.items()[i];
                assert(*p == self.output_list()[i]);
            }
        }
        r
    }

    /// The running input plugins, in the order they came.
    pub fn inputs(&self) -> (r: Vec<&Box<dyn Input>>)
        ensures
            r@.len() == self.names_view(PluginType::Input).len(),
            forall|i: int| 0 <= i < r@.len() ==> *(#[trigger] r@[i]) == self.input_list()[i],
    {
        self.inputs.check_distinct();
        self.inputs.refs()
    }

    /// The running filter plugins, in the order they came.
    pub fn filters(&self) -> (r: Vec<&Box<dyn Filter>>)
        ensures
            r@.len() == self.names_view(PluginType::Filter).len(),
            forall|i: int| 0 <= i < r@.len() ==> *(#[trigger] r@[i]) == self.filter_list()[i],
    {
        self.filters.check_distinct();
        self.filters.refs()
    }

    /// The running output plugins, in the order they came.
    pub fn outputs(&self) -> (r: Vec<&Box<dyn Output>>)
        ensures
            r@.len() == self.names_view(PluginType::Output).len(),
            forall|i: int| 0 <= i < r@.len() ==> *(#[trigger] r@[i]) == self.output_list()[i],
    {
        self.outputs.check_distinct();
        self.outputs.refs()
    }

    /// The names of the running plugins of kind `plugin_type`.
    pub fn plugin_names(&self, plugin_type: PluginType) -> (r: Vec<String>)
        ensures
            texts_of(r@) == self.names_view(plugin_type),
            self.names_view(plugin_type).no_duplicates(),
    {
        self.inputs.check_distinct();
        self.filters.check_distinct();
        self.outputs.check_distinct();
        match plugin_type {
            PluginType::Input => self.inputs.name_list(),
            PluginType::Filter => self.filters.name_list(),
            PluginType::Output => self.outputs.name_list(),
        }
    }

    /// The number of running input plugins.
    pub fn input_count(&self) -> (n: usize)
        ensures
            n == self.names_view(PluginType::Input).len(),
    {
        self.inputs.len()
    }

    /// The number of running filter plugins.
    pub fn filter_count(&self) -> (n: usize)
        ensures
            n == self.names_view(PluginType::Filter).len(),
    {
        self.filters.len()
    }

    /// The number of running output plugins.
    pub fn output_count(&self) -> (n: usize)
        ensures
            n == self.names_view(PluginType::Output).len(),
    {
        self.outputs.len()
    }

    /// The number of running plugins of every kind.
    pub fn total_count(&self) -> (n: usize)
        requires
            self.names_view(PluginType::Input).len() + self.names_view(PluginType::Filter).len()
                + self.names_view(PluginType::Output).len() <= usize::MAX,
        ensures
            n == self.names_view(PluginType::Input).len() + self.names_view(PluginType::Filter).len()
                + self.names_view(PluginType::Output).len(),
    {
        self.input_count() + self.filter_count() + self.output_count()
    }
}

/// Copies of events, in order: each with a fresh identifier and the same
/// time stamp, metadata and payload.
pub fn copy_events(events: &Vec<Event>) -> (r: Vec<Event>)
    ensures
        r@.len() == events@.len(),
        forall|i: int| 0 <= i < events@.len() ==> (#[trigger] r@[i]).spec_data()@ == events@[i].spec_data()@
            && r@[i].spec_timestamp() == events@[i].spec_timestamp()
            && r@[i].spec_metadata()@ == events@[i].spec_metadata()@,
{
    let mut r: Vec<Event> = Vec::new();
    let mut i: usize = 0;
    while i < events.len()
        invariant
            0 <= i <= events@.len(),
            r@.len() == i,
            forall|j: int| 0 <= j < i ==> (#[trigger] r@[j]).spec_data()@ == events@[j].spec_data()@
                && r@[j].spec_timestamp() == events@[j].spec_timestamp()
                && r@[j].spec_metadata()@ == events@[j].spec_metadata()@,
        decreases events@.len() - i,
    {
        r.push(events[i].clone());
        i = i + 1;
    }
    r
}

/// The report of the plugins that failed to shut down: none, or one error
/// that lists them, separated by "; ".
pub fn shutdown_report(failures: &Vec<String>) -> (r: PluginResult<()>)
    ensures
        failures@.len() == 0 ==> r is Ok,
        failures@.len() > 0 ==> (r matches Err(PluginError::Other(s)) && s@ == join_texts(texts_of(failures@), "; "@)),
{
    if failures.len() == 0 {
        Ok(())
    } else {
        Err(PluginError::other(join(failures, "; ").as_str()))
    }
}

/// The line that reports the plugin of kind `kind` named `name` that failed
/// to shut down with `e`.
pub fn failure_line(kind: &str, name: &str, e: &PluginError) -> (r: String)
    ensures
        r@ == shutdown_line(kind@, name@, *e),
{
    let mut r = text_of(kind);
    push_text(&mut r, " plugin '");
    push_text(&mut r, name);
    push_text(&mut r, "': ");
    push_text(&mut r, e.message().as_str());
    r
}

impl PluginManager {
    /// Prepares every plugin: inputs, then filters, then outputs, each in
    /// the order they came, stopping at the first that fails.
    pub fn initialize_all(&mut self) -> (r: PluginResult<()>)
        ensures
            r is Err ==> (exists|k: int| 0 <= k < old(self).input_list().len() && #[trigger] old(self).input_list()[k].fails_prepare_with(r->Err_0))
                || (exists|k: int| 0 <= k < old(self).filter_list().len() && #[trigger] old(self).filter_list()[k].fails_prepare_with(r->Err_0))
                || (exists|k: int| 0 <= k < old(self).output_list().len() && #[trigger] old(self).output_list()[k].fails_prepare_with(r->Err_0)),
            r is Ok ==> all_prepared(old(self).input_list(), final(self).input_list())
                && all_prepared(old(self).filter_list(), final(self).filter_list())
                && all_prepared(old(self).output_list(), final(self).output_list()),
            forall|t: PluginType| #[trigger] final(self).names_view(t) == old(self).names_view(t),
            final(self).spec_factory() == old(self).spec_factory(),
    {
        let ghost ins = self.inputs.items();
        let a = initialize_each(&mut self.inputs);
        if a.is_err() {
            proof {
                let k = choose|k: int| 0 <= k < ins.len() && #[trigger] ins[k].fails_prepare_with(a->Err_0);
                assert(old(self).input_list()[k].fails_prepare_with(a->Err_0));
            }
            return a;
        }
        let ghost fs = self.filters.items();
        let b = initialize_each(&mut self.filters);
        if b.is_err() {
            proof {
                let k = choose|k: int| 0 <= k < fs.len() && #[trigger] fs[k].fails_prepare_with(b->Err_0);
                assert(old(self).filter_list()[k].fails_prepare_with(b->Err_0));
            }
            return b;
        }
        let ghost outs = self.outputs.items();
        let c = initialize_each(&mut self.outputs);
        proof {
            if c is Err {
                let k = choose|k: int| 0 <= k < outs.len() && #[trigger] outs[k].fails_prepare_with(c->Err_0);
                assert(old(self).output_list()[k].fails_prepare_with(c->Err_0));
            }
        }
        c
    }

    /// Shuts every plugin down: inputs, then filters, then outputs; the
    /// failures are reported together, one line each.
    pub fn shutdown_all(&mut self) -> (r: PluginResult<()>)
        ensures
            forall|t: PluginType| #[trigger] final(self).names_view(t) == old(self).names_view(t),
            final(self).spec_factory() == old(self).spec_factory(),
            exists|oi: Seq<PluginResult<()>>, of: Seq<PluginResult<()>>, oo: Seq<PluginResult<()>>|
                #[trigger] shut_down_run(old(self).input_list(), final(self).input_list(), oi)
                && #[trigger] shut_down_run(old(self).filter_list(), final(self).filter_list(), of)
                && #[trigger] shut_down_run(old(self).output_list(), final(self).output_list(), oo)
                && reports(failure_lines("Input"@, old(self).names_view(PluginType::Input), oi)
                    + failure_lines("Filter"@, old(self).names_view(PluginType::Filter), of)
                    + failure_lines("Output"@, old(self).names_view(PluginType::Output), oo), r),
    {
        let mut failures: Vec<String> = Vec::new();
        let ghost f0 = failures@;
        shutdown_each(&mut self.inputs, "Input", &mut failures);
        let ghost f1 = failures@;
        shutdown_each(&mut self.filters, "Filter", &mut failures);
        let ghost f2 = failures@;
        shutdown_each(&mut self.outputs, "Output", &mut failures);
        let r = shutdown_report(&failures);
        proof {
            let oi = choose|oi: Seq<PluginResult<()>>| #[trigger] shut_down_run(old(self).input_list(), self.input_list(), oi)
                && texts_of(f1) == texts_of(f0) + failure_lines("Input"@, old(self).names_view(PluginType::Input), oi);
            let of = choose|of: Seq<PluginResult<()>>| #[trigger] shut_down_run(old(self).filter_list(), self.filter_list(), of)
                && texts_of(f2) == texts_of(f1) + failure_lines("Filter"@, old(self).names_view(PluginType::Filter), of);
            let oo = choose|oo: Seq<PluginResult<()>>| #[trigger] shut_down_run(old(self).output_list(), self.output_list(), oo)
                && texts_of(failures@) == texts_of(f2) + failure_lines("Output"@, old(self).names_view(PluginType::Output), oo);
            assert(texts_of(f0) =~= Seq::<Seq<char>>::empty());
            let lines = failure_lines("Input"@, old(self).names_view(PluginType::Input), oi)
                + failure_lines("Filter"@, old(self).names_view(PluginType::Filter), of)
                + failure_lines("Output"@, old(self).names_view(PluginType::Output), oo);
            assert(texts_of(failures@) =~= lines);
            assert(reports(lines, r));
        }
        r
    }

    /// Runs `events` through every filter in the order they came, then
    /// writes what comes out to every output; gives what came out.
    pub fn process_pipeline(&mut self, events: Vec<Event>) -> (r: PluginResult<Vec<Event>>)
        ensures
            r matches Ok(out) ==> through_filters(old(self).filter_list(), events@, out@),
            r is Err ==> (exists|k: int, ev: Event| 0 <= k < old(self).filter_list().len()
                    && #[trigger] old(self).filter_list()[k].filters(ev, Err::<Event, PluginError>(r->Err_0)))
                || (exists|k: int| 0 <= k < old(self).output_list().len() && #[trigger] old(self).output_list()[k].write_fails_with(r->Err_0)),
            forall|t: PluginType| #[trigger] final(self).names_view(t) == old(self).names_view(t),
            final(self).spec_factory() == old(self).spec_factory(),
    {
        let ghost fs = self.filters.items();
        let ghost ins = events@;
        let ghost mut stages: Seq<Seq<Event>> = seq![events@];
        let mut current = events;
        let mut i: usize = 0;
        self.filters.check_distinct();
        while i < self.filters.len()
            invariant
                0 <= i <= fs.len(),
                fs == self.filters.items(),
                fs == old(self).filter_list(),
                self.output_list() == old(self).output_list(),
                fs.len() == self.filters.names().len(),
                stages_of(fs.take(i as int), stages),
                stages[0] == ins,
                stages.last() == current@,
            decreases fs.len() - i,
        {
            let ghost before = current@;
            let f = self.filters.item(i);
            let next = match f.process_batch(current) {
                Ok(next) => next,
                Err(e) => {
                    proof {
                        let j = choose|j: int| 0 <= j < before.len() && #[trigger] f.filters(before[j], Err::<Event, PluginError>(e));
                        assert(fs[i as int].filters(before[j], Err::<Event, PluginError>(e)));
                        assert(old(self).filter_list()[i as int].filters(before[j], Err::<Event, PluginError>(e)));
                    }
                    return Err(e);
                },
            };
            proof {
                let x = fs.take(i + 1);
                assert(batch_of(x, i as int, before, next@));
                let s2 = stages.push(next@);
                assert forall|k: int| 0 <= k < x.len() implies #[trigger] batch_of(x, k, s2[k], s2[k + 1]) by {
                    if k < i {
                        assert(batch_of(fs.take(i as int), k, stages[k], stages[k + 1]));
                        assert(fs.take(i as int)[k] == x[k]);
                    }
                }
                stages = s2;
            }
            current = next;
            i = i + 1;
        }
        proof {
            assert(fs.take(fs.len() as int) =~= fs);
        }
        let ghost outs0 = self.outputs.items();
        match write_outputs(&mut self.outputs, &current) {
            Ok(()) => Ok(current),
            Err(e) => {
                proof {
                    let k = choose|k: int| 0 <= k < outs0.len() && #[trigger] outs0[k].write_fails_with(e);
                    assert(old(self).output_list()[k].write_fails_with(e));
                }
                let r: PluginResult<Vec<Event>> = Err(e);
                assert(r->Err_0 == e);
                r
            },
        }
    }

    /// Reads every input until it has nothing more, inputs in the order they
    /// came, and gives the events in the order read.
    pub fn read_from_inputs(&mut self) -> (r: PluginResult<Vec<Event>>)
        ensures
            r is Err ==> exists|k: int| 0 <= k < old(self).input_list().len() && #[trigger] old(self).input_list()[k].read_fails_with(r->Err_0),
            r matches Ok(evs) ==> forall|i: int| 0 <= i < evs@.len() ==> given_by(old(self).input_list(), #[trigger] evs@[i]),
            r matches Ok(evs) ==> exists|runs: Seq<Seq<Event>>| #[trigger] read_runs(old(self).input_list(), runs, evs@),
            forall|t: PluginType| #[trigger] final(self).names_view(t) == old(self).names_view(t),
            final(self).spec_factory() == old(self).spec_factory(),
    {
        let mut events: Vec<Event> = Vec::new();
        let mut rest: NameTable<Box<dyn Input>> = NameTable::new();
        std::mem::swap(&mut rest, &mut self.inputs);
        let ghost names0 = rest.names();
        let ghost items0 = rest.items();
        let ghost mut runs: Seq<Seq<Event>> = Seq::empty();
        let mut done: NameTable<Box<dyn Input>> = NameTable::new();
        rest.check_distinct();
        let mut failure: Option<PluginError> = None;
        proof {
            assert(events@ =~= runs.flatten());
        }
        while rest.len() > 0
            invariant_except_break
                failure is None,
            invariant
                done.names() + rest.names() == names0,
                names0.no_duplicates(),
                items0.len() == names0.len(),
                rest.items() == items0.skip(done.names().len() as int),
                forall|i: int| 0 <= i < events@.len() ==> given_by(items0, #[trigger] events@[i]),
                failure is Some ==> exists|k: int| 0 <= k < items0.len() && #[trigger] items0[k].read_fails_with(failure->Some_0),
                failure is None ==> runs.len() == done.names().len() && events@ == runs.flatten() && runs_read(items0, runs, events@.len() < usize::MAX),
            ensures
                done.names() + rest.names() == names0,
                names0.no_duplicates(),
                forall|i: int| 0 <= i < events@.len() ==> given_by(items0, #[trigger] events@[i]),
                failure is Some ==> exists|k: int| 0 <= k < items0.len() && #[trigger] items0[k].read_fails_with(failure->Some_0),
                failure is None ==> rest.names().len() == 0 && runs.len() == items0.len() && events@ == runs.flatten()
                    && runs_read(items0, runs, events@.len() < usize::MAX),
            decreases rest.names().len(),
        {
            let ghost rest0 = rest.names();
            let ghost k0 = done.names().len() as int;
            rest.check_distinct();
            proof {
                assert(rest.items()[0] == items0[k0]);
            }
            let (name, mut input) = rest.pop_front().unwrap();
            proof {
                lemma_next_is_new(done.names(), rest0, names0);
                assert(rest.items() =~= items0.skip(k0 + 1));
            }
            let ghost base = input.reads_made();
            let ghost mut cur: Seq<Event> = Seq::empty();
            let ghost mut ended = false;
            let ghost flat0 = events@;
            proof {
                assert(events@ =~= flat0 + cur);
            }
            while events.len() < usize::MAX
                invariant_except_break
                    failure is None,
                    !ended,
                    input.reads_made() == base + cur.len(),
                invariant
                    0 <= k0 < items0.len(),
                    forall|ev: Event| #[trigger] input.gives(ev) == items0[k0].gives(ev),
                    forall|e: PluginError| #[trigger] input.read_fails_with(e) == items0[k0].read_fails_with(e),
                    forall|n: nat, x: Option<Event>| #[trigger] input.read_may_give(n, x) == items0[k0].read_may_give(n, x),
                    base == items0[k0].reads_made(),
                    forall|j: int| 0 <= j < cur.len() ==> items0[k0].read_may_give((base + j) as nat, Some(#[trigger] cur[j])),
                    events@ == flat0 + cur,
                    forall|i: int| 0 <= i < events@.len() ==> given_by(items0, #[trigger] events@[i]),
                ensures
                    forall|j: int| 0 <= j < cur.len() ==> items0[k0].read_may_give((base + j) as nat, Some(#[trigger] cur[j])),
                    events@ == flat0 + cur,
                    forall|i: int| 0 <= i < events@.len() ==> given_by(items0, #[trigger] events@[i]),
                    failure is Some ==> exists|k: int| 0 <= k < items0.len() && #[trigger] items0[k].read_fails_with(failure->Some_0),
                    failure is None && events@.len() < usize::MAX ==> ended,
                    ended ==> items0[k0].read_may_give((base + cur.len()) as nat, None),
                decreases usize::MAX - events.len(),
            {
                match input.read() {
                    Ok(Some(event)) => {
                        proof {
                            assert(items0[k0].gives(event));
                            assert(items0[k0].read_may_give((base + cur.len()) as nat, Some(event)));
                        }
                        let ghost c2 = cur.push(event);
                        events.push(event);
                        proof {
                            assert forall|i: int| 0 <= i < events@.len() implies given_by(items0, #[trigger] events@[i]) by {
                                if i == events@.len() - 1 {
                                    assert(items0[k0].gives(events@[i]));
                                }
                            }
                            assert forall|j: int| 0 <= j < c2.len() implies items0[k0].read_may_give((base + j) as nat, Some(#[trigger] c2[j])) by {
                                if j < cur.len() {
                                    assert(c2[j] == cur[j]);
                                }
                            }
                            assert(events@ =~= flat0 + c2);
                            cur = c2;
                        }
                    },
                    Ok(None) => {
                        proof {
                            assert(items0[k0].read_may_give((base + cur.len()) as nat, None));
                            ended = true;
                        }
                        break;
                    },
                    Err(e) => {
                        let ghost ge = e;
                        proof {
                            assert(items0[k0].read_fails_with(ge));
                        }
                        failure = Some(e);
                        proof {
                            assert(failure->Some_0 == ge);
                            assert(items0[k0].read_fails_with(failure->Some_0));
                        }
                        break;
                    },
                }
            }
            proof {
                if failure is None {
                    let r2 = runs.push(cur);
                    runs.lemma_flatten_push(cur);
                    assert(r2.len() == k0 + 1);
                    assert forall|k: int, j: int| 0 <= k < r2.len() && 0 <= j < r2[k].len()
                        implies items0[k].read_may_give((items0[k].reads_made() + j) as nat, Some(#[trigger] r2[k][j])) by {
                        if k < runs.len() {
                            assert(r2[k] == runs[k]);
                            assert(runs_read(items0, runs, flat0.len() < usize::MAX));
                        }
                    }
                    if events@.len() < usize::MAX {
                        assert(flat0.len() < usize::MAX);
                        assert forall|k: int| 0 <= k < r2.len()
                            implies items0[k].read_may_give((items0[k].reads_made() + r2[k].len()) as nat, None) by {
                            if k < runs.len() {
                                assert(r2[k] == runs[k]);
                            }
                        }
                    }
                    runs = r2;
                }
            }
            done.push_back(name, input);
            proof {
                assert(done.names() + rest.names() =~= names0);
            }
            if failure.is_some() {
                break;
            }
        }
        restore(&mut done, &mut rest, Ghost(names0));
        self.inputs = done;
        proof {
            assert(items0 == old(self).input_list());
        }
        match failure {
            Some(e) => {
                proof {
                    let k = choose|k: int| 0 <= k < items0.len() && #[trigger] items0[k].read_fails_with(e);
                    assert(old(self).input_list()[k].read_fails_with(e));
                }
                let r: PluginResult<Vec<Event>> = Err(e);
                assert(r->Err_0 == e);
                r
            },
            None => {
                let ghost evs = events@;
                proof {
                    assert(read_runs(old(self).input_list(), runs, evs));
                }
                let r: PluginResult<Vec<Event>> = Ok(events);
                proof {
                    assert(r->Ok_0@ == evs);
                    assert(read_runs(old(self).input_list(), runs, r->Ok_0@));
                }
                r
            },
        }
    }
}

/// Moves the entries of `rest` after those of `done`, in order.
fn restore<C>(done: &mut NameTable<C>, rest: &mut NameTable<C>, Ghost(names0): Ghost<Seq<Seq<char>>>)
    requires
        old(done).names() + old(rest).names() == names0,
        names0.no_duplicates(),
    ensures
        final(done).names() == names0,
{
    while rest.len() > 0
        invariant
            done.names() + rest.names() == names0,
            names0.no_duplicates(),
        decreases rest.names().len(),
    {
        let ghost rest0 = rest.names();
        let (name, item) = rest.pop_front().unwrap();
        proof {
            lemma_next_is_new(done.names(), rest0, names0);
        }
        done.push_back(name, item);
        proof {
            assert(done.names() + rest.names() =~= names0);
        }
    }
    proof {
        assert(done.names() + rest.names() =~= done.names());
    }
}



/// A plugin held in a table that can be prepared.
pub trait Preparing {
    /// The errors that preparing it may give, by its account.
    spec fn fails_prepare_with(&self, e: PluginError) -> bool;

    /// Whether it is prepared, by its account.
    spec fn prepared_now(&self) -> bool;

    /// The name it gives itself, when it states one.
    spec fn own_name(&self) -> Option<Seq<char>>;

    /// Prepares it.
    fn prepare(&mut self) -> (r: PluginResult<()>)
        ensures
            r is Err ==> old(self).fails_prepare_with(r->Err_0),
            r is Ok ==> final(self).prepared_now(),
            final(self).own_name() == old(self).own_name(),
    ;
}

impl Preparing for Box<dyn Input> {
    open spec fn fails_prepare_with(&self, e: PluginError) -> bool {
        (**self).initialize_fails_with(e)
    }

    open spec fn prepared_now(&self) -> bool {
        (**self).prepared()
    }

    open spec fn own_name(&self) -> Option<Seq<char>> {
        (**self).known_name()
    }

    fn prepare(&mut self) -> (r: PluginResult<()>) {
        (**self).initialize()
    }
}

impl Preparing for Box<dyn Filter> {
    open spec fn fails_prepare_with(&self, e: PluginError) -> bool {
        (**self).initialize_fails_with(e)
    }

    open spec fn prepared_now(&self) -> bool {
        (**self).prepared()
    }

    open spec fn own_name(&self) -> Option<Seq<char>> {
        (**self).known_name()
    }

    fn prepare(&mut self) -> (r: PluginResult<()>) {
        (**self).initialize()
    }
}

impl Preparing for Box<dyn Output> {
    open spec fn fails_prepare_with(&self, e: PluginError) -> bool {
        (**self).initialize_fails_with(e)
    }

    open spec fn prepared_now(&self) -> bool {
        (**self).prepared()
    }

    open spec fn own_name(&self) -> Option<Seq<char>> {
        (**self).known_name()
    }

    fn prepare(&mut self) -> (r: PluginResult<()>) {
        (**self).initialize()
    }
}

/// Whether `after` is `before` with each plugin prepared: the same number
/// of plugins, each prepared and keeping the name it gives itself.
pub open spec fn all_prepared<C: Preparing>(before: Seq<C>, after: Seq<C>) -> bool {
    &&& after.len() == before.len()
    &&& forall|k: int| 0 <= k < after.len() ==> (#[trigger] after[k]).prepared_now() && after[k].own_name() == before[k].own_name()
}

/// Prepares each plugin of a table in order, stopping at the first that
/// fails.
fn initialize_each<C: Preparing>(t: &mut NameTable<C>) -> (r: PluginResult<()>)
    ensures
        final(t).names() == old(t).names(),
        r is Err ==> exists|k: int| 0 <= k < old(t).items().len() && #[trigger] old(t).items()[k].fails_prepare_with(r->Err_0),
        r is Ok ==> all_prepared(old(t).items(), final(t).items()),
{
    let mut rest: NameTable<C> = NameTable::new();
    std::mem::swap(&mut rest, t);
    let ghost names0 = rest.names();
    let ghost items0 = rest.items();
    rest.check_distinct();
    let mut done: NameTable<C> = NameTable::new();
    let mut result: PluginResult<()> = Ok(());
    while rest.len() > 0
        invariant_except_break
            result is Ok,
        invariant
            done.names() + rest.names() == names0,
            names0.no_duplicates(),
            items0.len() == names0.len(),
            rest.items() == items0.skip(done.names().len() as int),
            done.items().len() == done.names().len(),
            result is Ok ==> forall|k: int| 0 <= k < done.items().len() ==> (#[trigger] done.items()[k]).prepared_now()
                && done.items()[k].own_name() == items0[k].own_name(),
            result is Err ==> exists|k: int| 0 <= k < items0.len() && #[trigger] items0[k].fails_prepare_with(result->Err_0),
        ensures
            done.names() + rest.names() == names0,
            names0.no_duplicates(),
            result is Ok ==> rest.names().len() == 0 && done.items().len() == items0.len()
                && forall|k: int| 0 <= k < done.items().len() ==> (#[trigger] done.items()[k]).prepared_now()
                && done.items()[k].own_name() == items0[k].own_name(),
            result is Err ==> exists|k: int| 0 <= k < items0.len() && #[trigger] items0[k].fails_prepare_with(result->Err_0),
        decreases rest.names().len(),
    {
        let ghost rest0 = rest.names();
        let ghost k0 = done.names().len() as int;
        rest.check_distinct();
        done.check_distinct();
        proof {
            assert(rest.items()[0] == items0[k0]);
        }
        let (name, mut plugin) = rest.pop_front().unwrap();
        proof {
            lemma_next_is_new(done.names(), rest0, names0);
            assert(rest.items() =~= items0.skip(k0 + 1));
        }
        let ghost g0 = plugin;
        let r = plugin.prepare();
        let ghost gp = plugin;
        let ghost d0 = done.items();
        done.push_back(name, plugin);
        proof {
            assert(done.names() + rest.names() =~= names0);
            assert(g0 == items0[k0]);
            assert(done.items() == d0.push(gp));
            if r is Ok {
                assert forall|q: int| 0 <= q < done.items().len() implies (#[trigger] done.items()[q]).prepared_now()
                    && done.items()[q].own_name() == items0[q].own_name() by {
                    if q < d0.len() {
                        assert(done.items()[q] == d0[q]);
                    } else {
                        assert(done.items()[q] == gp);
                    }
                }
            }
        }
        if r.is_err() {
            result = r;
            break;
        }
    }
    if result.is_ok() {
        proof {
            assert(done.names() + rest.names() =~= done.names());
        }
    } else {
        restore(&mut done, &mut rest, Ghost(names0));
    }
    *t = done;
    result
}

/// A plugin held in a table that can be shut down.
pub trait Releasing {
    /// The errors that shutting it down may give, by its account.
    spec fn fails_release_with(&self, e: PluginError) -> bool;

    /// Whether it has released its resources, by its account.
    spec fn released_now(&self) -> bool;

    /// Shuts it down.
    fn release(&mut self) -> (r: PluginResult<()>)
        ensures
            r is Err ==> old(self).fails_release_with(r->Err_0),
            r is Ok ==> final(self).released_now(),
    ;
}

impl Releasing for Box<dyn Input> {
    open spec fn fails_release_with(&self, e: PluginError) -> bool {
        (**self).shutdown_fails_with(e)
    }

    open spec fn released_now(&self) -> bool {
        (**self).released()
    }

    fn release(&mut self) -> (r: PluginResult<()>) {
        (**self).shutdown()
    }
}

impl Releasing for Box<dyn Filter> {
    open spec fn fails_release_with(&self, e: PluginError) -> bool {
        (**self).shutdown_fails_with(e)
    }

    open spec fn released_now(&self) -> bool {
        (**self).released()
    }

    fn release(&mut self) -> (r: PluginResult<()>) {
        (**self).shutdown()
    }
}

impl Releasing for Box<dyn Output> {
    open spec fn fails_release_with(&self, e: PluginError) -> bool {
        (**self).shutdown_fails_with(e)
    }

    open spec fn released_now(&self) -> bool {
        (**self).released()
    }

    fn release(&mut self) -> (r: PluginResult<()>) {
        (**self).shutdown()
    }
}

/// Whether `outs` are the results of shutting down `before`, one each, in
/// order, leaving `after`: each failure one that its plugin accounts for,
/// and each plugin that succeeded released.
pub open spec fn shut_down_run<C: Releasing>(before: Seq<C>, after: Seq<C>, outs: Seq<PluginResult<()>>) -> bool {
    &&& outs.len() == before.len()
    &&& after.len() == before.len()
    &&& forall|k: int| 0 <= k < outs.len() && outs[k] is Err ==> #[trigger] before[k].fails_release_with(outs[k]->Err_0)
    &&& forall|k: int| 0 <= k < outs.len() && outs[k] is Ok ==> #[trigger] after[k].released_now()
}

/// Shuts each plugin of a table down in order, adding a line to `failures`
/// for each that fails, which names its kind `kind`.
fn shutdown_each<C: Releasing>(t: &mut NameTable<C>, kind: &str, failures: &mut Vec<String>)
    ensures
        final(t).names() == old(t).names(),
        exists|outs: Seq<PluginResult<()>>| #[trigger] shut_down_run(old(t).items(), final(t).items(), outs)
            && texts_of(final(failures)@) == texts_of(old(failures)@) + failure_lines(kind@, old(t).names(), outs),
{
    let mut rest: NameTable<C> = NameTable::new();
    std::mem::swap(&mut rest, t);
    let ghost names0 = rest.names();
    let ghost items0 = rest.items();
    let ghost f0 = failures@;
    let ghost mut outs: Seq<PluginResult<()>> = Seq::empty();
    rest.check_distinct();
    let mut done: NameTable<C> = NameTable::new();
    proof {
        assert(texts_of(failures@) =~= texts_of(f0) + failure_lines(kind@, names0, outs));
    }
    while rest.len() > 0
        invariant
            done.names() + rest.names() == names0,
            names0.no_duplicates(),
            items0.len() == names0.len(),
            rest.items() == items0.skip(done.names().len() as int),
            outs.len() == done.names().len(),
            forall|k: int| 0 <= k < outs.len() && outs[k] is Err ==> #[trigger] items0[k].fails_release_with(outs[k]->Err_0),
            texts_of(failures@) == texts_of(f0) + failure_lines(kind@, names0, outs),
            done.items().len() == outs.len(),
            forall|k: int| 0 <= k < outs.len() && outs[k] is Ok ==> #[trigger] done.items()[k].released_now(),
        decreases rest.names().len(),
    {
        let ghost rest0 = rest.names();
        let ghost k0 = done.names().len() as int;
        rest.check_distinct();
        proof {
            assert(rest.items()[0] == items0[k0]);
        }
        let (name, mut plugin) = rest.pop_front().unwrap();
        proof {
            lemma_next_is_new(done.names(), rest0, names0);
            assert(rest.items() =~= items0.skip(k0 + 1));
            assert(names0[k0] == name@);
        }
        let r = plugin.release();
        let ghost gp = plugin;
        let ghost before = failures@;
        match &r {
            Ok(()) => {},
            Err(e) => failures.push(failure_line(kind, name.as_str(), e)),
        }
        proof {
            let o2 = outs.push(r);
            assert(o2.drop_last() =~= outs);
            assert(o2.last() == r);
            assert(o2.len() - 1 == k0);
            match r {
                Ok(_) => {
                    assert(failures@ == before);
                    assert(failure_lines(kind@, names0, o2) == failure_lines(kind@, names0, outs));
                },
                Err(e) => {
                    assert(failure_lines(kind@, names0, o2) == failure_lines(kind@, names0, outs).push(shutdown_line(kind@, names0[k0], e)));
                    assert(texts_of(failures@) =~= texts_of(before).push(failures@.last()@));
                },
            }
            assert(texts_of(failures@) =~= texts_of(f0) + failure_lines(kind@, names0, o2));
            outs = o2;
        }
        let ghost d0 = done.items();
        done.push_back(name, plugin);
        proof {
            assert(done.names() + rest.names() =~= names0);
            assert(done.items() == d0.push(gp));
            assert forall|q: int| 0 <= q < outs.len() && outs[q] is Ok implies #[trigger] done.items()[q].released_now() by {
                if q < outs.len() - 1 {
                    assert(done.items()[q] == d0[q]);
                } else {
                    assert(done.items()[q] == gp);
                }
            }
        }
    }
    done.check_distinct();
    proof {
        assert(done.names() + rest.names() =~= done.names());
        assert(shut_down_run(items0, done.items(), outs));
    }
    proof {
        assert(done.names() + rest.names() =~= done.names());
    }
    *t = done;
}



/// Writes copies of `events` to each output in order, stopping at the first
/// that fails.
fn write_outputs(t: &mut NameTable<Box<dyn Output>>, events: &Vec<Event>) -> (r: PluginResult<()>)
    ensures
        final(t).names() == old(t).names(),
        r is Err ==> exists|k: int| 0 <= k < old(t).items().len() && #[trigger] old(t).items()[k].write_fails_with(r->Err_0),
{
    let mut rest: NameTable<Box<dyn Output>> = NameTable::new();
    std::mem::swap(&mut rest, t);
    let ghost names0 = rest.names();
    let ghost items0 = rest.items();
    rest.check_distinct();
    let mut done: NameTable<Box<dyn Output>> = NameTable::new();
    let mut result: PluginResult<()> = Ok(());
    while rest.len() > 0
        invariant_except_break
            result is Ok,
        invariant
            done.names() + rest.names() == names0,
            names0.no_duplicates(),
            items0.len() == names0.len(),
            rest.items() == items0.skip(done.names().len() as int),
            result is Err ==> exists|k: int| 0 <= k < items0.len() && #[trigger] items0[k].write_fails_with(result->Err_0),
        ensures
            done.names() + rest.names() == names0,
            names0.no_duplicates(),
            result is Err ==> exists|k: int| 0 <= k < items0.len() && #[trigger] items0[k].write_fails_with(result->Err_0),
        decreases rest.names().len(),
    {
        let ghost rest0 = rest.names();
        let ghost k0 = done.names().len() as int;
        rest.check_distinct();
        proof {
            assert(rest.items()[0] == items0[k0]);
        }
        let (name, mut plugin) = rest.pop_front().unwrap();
        proof {
            lemma_next_is_new(done.names(), rest0, names0);
            assert(rest.items() =~= items0.skip(k0 + 1));
        }
        let r = plugin.write_batch(copy_events(events));
        done.push_back(name, plugin);
        proof {
            assert(done.names() + rest.names() =~= names0);
        }
        if r.is_err() {
            result = r;
            break;
        }
    }
    restore(&mut done, &mut rest, Ghost(names0));
    *t = done;
    result
}

/// The next name of a sequence without repeats is not among those before it.
proof fn lemma_next_is_new(done: Seq<Seq<char>>, rest: Seq<Seq<char>>, names0: Seq<Seq<char>>)
    requires
        names0.no_duplicates(),
        done + rest == names0,
        rest.len() > 0,
    ensures
        !done.contains(rest[0]),
{
    if done.contains(rest[0]) {
        let j = choose|j: int| 0 <= j < done.len() && done[j] == rest[0];
        assert(names0[j] == done[j]);
        assert(names0[done.len() as int] == rest[0]);
    }
}

impl Default for PluginManager {
    fn default() -> (m: Self)
        ensures
            m.names_view(PluginType::Input) == Seq::<Seq<char>>::empty(),
            m.names_view(PluginType::Filter) == Seq::<Seq<char>>::empty(),
            m.names_view(PluginType::Output) == Seq::<Seq<char>>::empty(),
    {
        PluginManager::new()
    }
}

}
