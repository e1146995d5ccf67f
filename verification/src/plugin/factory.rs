//! The plugin factory: checks a plugin configuration, makes the plugin from
//! the registry and prepares it; and two plugins of its own.
use vstd::prelude::*;
use crate::event::event::{event_json, Event};
use crate::json::{JsonValue, JsonView, ObjectMap};
use crate::plugin::error::{PluginError, PluginResult};
use crate::plugin::registry::PluginRegistry;
use crate::plugin::traits::{Filter, Input, Output};
use crate::plugin::types::{plugin_type_name, PluginConfig, PluginType};
use crate::text::{push_text, text_of, texts_of};

verus! {

/// The text of the error for a plugin that the registry does not hold.
pub open spec fn unsupported_message(name: Seq<char>, t: PluginType) -> Seq<char> {
    "Plugin '"@ + name + "' of type '"@ + plugin_type_name(t) + "' is not supported"@
}

/// The text of the error for a configuration without a name.
pub open spec fn empty_name_message() -> Seq<char> {
    "Plugin name cannot be empty"@
}

/// A plugin of any kind.
pub enum AnyPlugin {
    /// An input plugin.
    Input(Box<dyn Input>),
    /// A filter plugin.
    Filter(Box<dyn Filter>),
    /// An output plugin.
    Output(Box<dyn Output>),
}

/// Makes plugins from configurations, through a registry of constructors.
pub struct PluginFactory {
    registry: PluginRegistry,
}

/// The outcome of checking a configuration before making its plugin: an
/// empty name, then a name that the registry does not hold for its kind.
pub open spec fn check_outcome(registry: PluginRegistry, name: Seq<char>, t: PluginType, r: PluginResult<()>) -> bool {
    if name.len() == 0 {
        r matches Err(PluginError::InvalidName(s)) && s@ == empty_name_message()
    } else if !supported_by(registry, name, t) {
        r matches Err(PluginError::NotFound(s)) && s@ == unsupported_message(name, t)
    } else {
        r is Ok
    }
}

/// A result with its success value dropped.
pub open spec fn unit_of<T>(r: PluginResult<T>) -> PluginResult<()> {
    match r {
        Ok(_) => Ok(()),
        Err(e) => Err(e),
    }
}

/// Whether `registry` holds a constructor of kind `t` under `name`.
pub open spec fn supported_by(registry: PluginRegistry, name: Seq<char>, t: PluginType) -> bool {
    match t {
        PluginType::Input => registry.input_names_view().contains(name),
        PluginType::Filter => registry.filter_names_view().contains(name),
        PluginType::Output => registry.output_names_view().contains(name),
    }
}

/// Whether `r`, its plugin dropped, is what making the plugin that
/// `config` names with the constructors of `registry` gives: the check's
/// error when the name is empty or not supported for its kind; else the
/// constructor's error as it came, or, when the constructor made a plugin,
/// success or an error that preparing that plugin may give.
pub open spec fn creation_outcome(registry: PluginRegistry, config: PluginConfig, r: PluginResult<()>) -> bool {
    if !check_outcome(registry, config.name@, config.plugin_type, Ok(())) {
        check_outcome(registry, config.name@, config.plugin_type, r)
    } else {
        match config.plugin_type {
            PluginType::Input => exists|made: PluginResult<Box<dyn Input>>|
                #[trigger] registry.input_gives(config.name@, made) && (made is Err ==> r == unit_of(made))
                && (made is Ok ==> (r is Ok || made->Ok_0.initialize_fails_with(r->Err_0))),
            PluginType::Filter => exists|made: PluginResult<Box<dyn Filter>>|
                #[trigger] registry.filter_gives(config.name@, made) && (made is Err ==> r == unit_of(made))
                && (made is Ok ==> (r is Ok || made->Ok_0.initialize_fails_with(r->Err_0))),
            PluginType::Output => exists|made: PluginResult<Box<dyn Output>>|
                #[trigger] registry.output_gives(config.name@, made) && (made is Err ==> r == unit_of(made))
                && (made is Ok ==> (r is Ok || made->Ok_0.initialize_fails_with(r->Err_0))),
        }
    }
}

impl PluginFactory {
    /// The registry of constructors.
    pub closed spec fn spec_registry(&self) -> PluginRegistry {
        self.registry
    }

    /// A factory with an empty registry.
    pub fn new() -> (f: Self)
        ensures
            f.spec_registry().input_names_view() == Seq::<Seq<char>>::empty(),
            f.spec_registry().filter_names_view() == Seq::<Seq<char>>::empty(),
            f.spec_registry().output_names_view() == Seq::<Seq<char>>::empty(),
    {
        PluginFactory { registry: PluginRegistry::new() }
    }

    /// A factory over `registry`.
    pub fn with_registry(registry: PluginRegistry) -> (f: Self)
        ensures
            f.spec_registry() == registry,
    {
        PluginFactory { registry }
    }

    /// The registry.
    pub fn registry(&self) -> (r: &PluginRegistry)
        ensures
            *r == self.spec_registry(),
    {
        &self.registry
    }

    /// The registry, for change in place.
    pub fn registry_mut(&mut self) -> (r: &mut PluginRegistry)
        ensures
            *r == old(self).spec_registry(),
            final(self).spec_registry() == *final(r),
    {
        &mut self.registry
    }

    /// Whether the registry holds a constructor of kind `plugin_type` under
    /// `name`.
    pub fn supports_plugin(&self, name: &str, plugin_type: PluginType) -> (b: bool)
        ensures
            b == supported_by(self.spec_registry(), name@, plugin_type),
    {
        match plugin_type {
            PluginType::Input => self.registry.has_input(name),
            PluginType::Filter => self.registry.has_filter(name),
            PluginType::Output => self.registry.has_output(name),
        }
    }

    /// The names registered for kind `plugin_type`.
    pub fn supported_plugins(&self, plugin_type: PluginType) -> (r: Vec<String>)
        ensures
            texts_of(r@) == match plugin_type {
                PluginType::Input => self.spec_registry().input_names_view(),
                PluginType::Filter => self.spec_registry().filter_names_view(),
                PluginType::Output => self.spec_registry().output_names_view(),
            },
    {
        match plugin_type {
            PluginType::Input => self.registry.input_names(),
            PluginType::Filter => self.registry.filter_names(),
            PluginType::Output => self.registry.output_names(),
        }
    }

    /// Checks a configuration: its name is not empty and is registered for
    /// its kind.
    fn validate_config(&self, config: &PluginConfig) -> (r: PluginResult<()>)
        ensures
            check_outcome(self.spec_registry(), config.name@, config.plugin_type, r),
    {
        if config.name().is_empty() {
            return Err(PluginError::invalid_name("Plugin name cannot be empty"));
        }
        if !self.supports_plugin(config.name(), config.plugin_type()) {
            let mut msg = text_of("Plugin '");
            push_text(&mut msg, config.name());
            push_text(&mut msg, "' of type '");
            push_text(&mut msg, config.plugin_type().as_str());
            push_text(&mut msg, "' is not supported");
            return Err(PluginError::not_found(msg.as_str()));
        }
        Ok(())
    }

    /// Makes and prepares the input plugin that `config` names.
    pub fn create_input(&self, config: &PluginConfig) -> (r: PluginResult<Box<dyn Input>>)
        ensures
            !check_outcome(self.spec_registry(), config.name@, config.plugin_type, Ok(())) ==> check_outcome(self.spec_registry(), config.name@, config.plugin_type, unit_of(r)),
            check_outcome(self.spec_registry(), config.name@, config.plugin_type, Ok(()))
                && !self.spec_registry().input_names_view().contains(config.name@) ==> (r matches Err(PluginError::NotFound(s)) && s@ == config.name@),
            check_outcome(self.spec_registry(), config.name@, config.plugin_type, Ok(()))
                && self.spec_registry().input_names_view().contains(config.name@) ==> exists|made: PluginResult<Box<dyn Input>>|
                    #[trigger] self.spec_registry().input_gives(config.name@, made) && (made is Err ==> r == made)
                    && (made is Ok ==> (r is Ok || made->Ok_0.initialize_fails_with(r->Err_0)))
                    && (r is Ok ==> made is Ok && r->Ok_0.prepared() && r->Ok_0.known_name() == made->Ok_0.known_name()),
    {
        self.validate_config(config)?;
        let made = self.registry.create_input(config.name());
        let ghost gmade = made;
        match made {
            Ok(p) => {
                let mut plugin = p;
                match plugin.initialize() {
                    Ok(()) => {
                        let ghost gp = plugin;
                        let r = ok_of(plugin);
                        proof {
                            assert(r->Ok_0 == gp);
                        }
                        r
                    },
                    Err(e) => {
                        proof {
                            assert(gmade->Ok_0.initialize_fails_with(e));
                        }
                        let r: PluginResult<Box<dyn Input>> = Err(e);
                        proof {
                            assert(r->Err_0 == e);
                        }
                        r
                    },
                }
            },
            Err(e) => Err(e),
        }
    }

    /// Makes and prepares the filter plugin that `config` names.
    pub fn create_filter(&self, config: &PluginConfig) -> (r: PluginResult<Box<dyn Filter>>)
        ensures
            !check_outcome(self.spec_registry(), config.name@, config.plugin_type, Ok(())) ==> check_outcome(self.spec_registry(), config.name@, config.plugin_type, unit_of(r)),
            check_outcome(self.spec_registry(), config.name@, config.plugin_type, Ok(()))
                && !self.spec_registry().filter_names_view().contains(config.name@) ==> (r matches Err(PluginError::NotFound(s)) && s@ == config.name@),
            check_outcome(self.spec_registry(), config.name@, config.plugin_type, Ok(()))
                && self.spec_registry().filter_names_view().contains(config.name@) ==> exists|made: PluginResult<Box<dyn Filter>>|
                    #[trigger] self.spec_registry().filter_gives(config.name@, made) && (made is Err ==> r == made)
                    && (made is Ok ==> (r is Ok || made->Ok_0.initialize_fails_with(r->Err_0)))
                    && (r is Ok ==> made is Ok && r->Ok_0.prepared() && r->Ok_0.known_name() == made->Ok_0.known_name()),
    {
        self.validate_config(config)?;
        let made = self.registry.create_filter(config.name());
        let ghost gmade = made;
        match made {
            Ok(p) => {
                let mut plugin = p;
                match plugin.initialize() {
                    Ok(()) => {
                        let ghost gp = plugin;
                        let r = ok_of(plugin);
                        proof {
                            assert(r->Ok_0 == gp);
                        }
                        r
                    },
                    Err(e) => {
                        proof {
                            assert(gmade->Ok_0.initialize_fails_with(e));
                        }
                        let r: PluginResult<Box<dyn Filter>> = Err(e);
                        proof {
                            assert(r->Err_0 == e);
                        }
                        r
                    },
                }
            },
            Err(e) => Err(e),
        }
    }

    /// Makes and prepares the output plugin that `config` names.
    pub fn create_output(&self, config: &PluginConfig) -> (r: PluginResult<Box<dyn Output>>)
        ensures
            !check_outcome(self.spec_registry(), config.name@, config.plugin_type, Ok(())) ==> check_outcome(self.spec_registry(), config.name@, config.plugin_type, unit_of(r)),
            check_outcome(self.spec_registry(), config.name@, config.plugin_type, Ok(()))
                && !self.spec_registry().output_names_view().contains(config.name@) ==> (r matches Err(PluginError::NotFound(s)) && s@ == config.name@),
            check_outcome(self.spec_registry(), config.name@, config.plugin_type, Ok(()))
                && self.spec_registry().output_names_view().contains(config.name@) ==> exists|made: PluginResult<Box<dyn Output>>|
                    #[trigger] self.spec_registry().output_gives(config.name@, made) && (made is Err ==> r == made)
                    && (made is Ok ==> (r is Ok || made->Ok_0.initialize_fails_with(r->Err_0)))
                    && (r is Ok ==> made is Ok && r->Ok_0.prepared() && r->Ok_0.known_name() == made->Ok_0.known_name()),
    {
        self.validate_config(config)?;
        let made = self.registry.create_output(config.name());
        let ghost gmade = made;
        match made {
            Ok(p) => {
                let mut plugin = p;
                match plugin.initialize() {
                    Ok(()) => {
                        let ghost gp = plugin;
                        let r = ok_of(plugin);
                        proof {
                            assert(r->Ok_0 == gp);
                        }
                        r
                    },
                    Err(e) => {
                        proof {
                            assert(gmade->Ok_0.initialize_fails_with(e));
                        }
                        let r: PluginResult<Box<dyn Output>> = Err(e);
                        proof {
                            assert(r->Err_0 == e);
                        }
                        r
                    },
                }
            },
            Err(e) => Err(e),
        }
    }

    /// Makes and prepares the plugin that `config` names, of the kind it
    /// gives.
    pub fn create_plugin(&self, config: &PluginConfig) -> (r: PluginResult<AnyPlugin>)
        ensures
            !check_outcome(self.spec_registry(), config.name@, config.plugin_type, Ok(())) ==> check_outcome(self.spec_registry(), config.name@, config.plugin_type, unit_of(r)),
            r matches Ok(p) ==> kind_of_plugin(p) == config.plugin_type,
            check_outcome(self.spec_registry(), config.name@, config.plugin_type, Ok(())) ==> match config.plugin_type {
                PluginType::Input => exists|made: PluginResult<Box<dyn Input>>|
                    #[trigger] self.spec_registry().input_gives(config.name@, made) && (made is Err ==> unit_of(r) == unit_of(made))
                    && (made is Ok ==> (r is Ok || made->Ok_0.initialize_fails_with(unit_of(r)->Err_0)))
                    && (r is Ok ==> made is Ok),
                PluginType::Filter => exists|made: PluginResult<Box<dyn Filter>>|
                    #[trigger] self.spec_registry().filter_gives(config.name@, made) && (made is Err ==> unit_of(r) == unit_of(made))
                    && (made is Ok ==> (r is Ok || made->Ok_0.initialize_fails_with(unit_of(r)->Err_0)))
                    && (r is Ok ==> made is Ok),
                PluginType::Output => exists|made: PluginResult<Box<dyn Output>>|
                    #[trigger] self.spec_registry().output_gives(config.name@, made) && (made is Err ==> unit_of(r) == unit_of(made))
                    && (made is Ok ==> (r is Ok || made->Ok_0.initialize_fails_with(unit_of(r)->Err_0)))
                    && (r is Ok ==> made is Ok),
            },
    {
        match config.plugin_type() {
            PluginType::Input => match self.create_input(config) {
                Ok(p) => Ok(AnyPlugin::Input(p)),
                Err(e) => Err(e),
            },
            PluginType::Filter => match self.create_filter(config) {
                Ok(p) => Ok(AnyPlugin::Filter(p)),
                Err(e) => Err(e),
            },
            PluginType::Output => match self.create_output(config) {
                Ok(p) => Ok(AnyPlugin::Output(p)),
                Err(e) => Err(e),
            },
        }
    }

    /// Registers an input constructor under `name`.
    pub fn register_input<F: Fn() -> PluginResult<Box<dyn Input>> + 'static>(&mut self, name: &str, constructor: F)
        requires
            call_requires(constructor, ()),
        ensures
            final(self).spec_registry().input_names_view().to_set() == old(self).spec_registry().input_names_view().to_set().insert(name@),
            old(self).spec_registry().input_names_view().contains(name@) ==> final(self).spec_registry().input_names_view() == old(self).spec_registry().input_names_view(),
            !old(self).spec_registry().input_names_view().contains(name@) ==> final(self).spec_registry().input_names_view() == old(self).spec_registry().input_names_view().push(name@),
            forall|r: PluginResult<Box<dyn Input>>| #[trigger] final(self).spec_registry().input_gives(name@, r) == call_ensures(constructor, (), r),
            forall|n: Seq<char>, r: PluginResult<Box<dyn Input>>| n != name@ ==> (#[trigger] final(self).spec_registry().input_gives(n, r) == old(self).spec_registry().input_gives(n, r)),
            forall|n: Seq<char>, r: PluginResult<Box<dyn Filter>>| #[trigger] final(self).spec_registry().filter_gives(n, r) == old(self).spec_registry().filter_gives(n, r),
            forall|n: Seq<char>, r: PluginResult<Box<dyn Output>>| #[trigger] final(self).spec_registry().output_gives(n, r) == old(self).spec_registry().output_gives(n, r),

            final(self).spec_registry().filter_names_view() == old(self).spec_registry().filter_names_view(),
            final(self).spec_registry().output_names_view() == old(self).spec_registry().output_names_view(),
    {
        self.registry.register_input(name, constructor);
    }

    /// Registers a filter constructor under `name`.
    pub fn register_filter<F: Fn() -> PluginResult<Box<dyn Filter>> + 'static>(&mut self, name: &str, constructor: F)
        requires
            call_requires(constructor, ()),
        ensures
            final(self).spec_registry().filter_names_view().to_set() == old(self).spec_registry().filter_names_view().to_set().insert(name@),
            old(self).spec_registry().filter_names_view().contains(name@) ==> final(self).spec_registry().filter_names_view() == old(self).spec_registry().filter_names_view(),
            !old(self).spec_registry().filter_names_view().contains(name@) ==> final(self).spec_registry().filter_names_view() == old(self).spec_registry().filter_names_view().push(name@),
            forall|r: PluginResult<Box<dyn Filter>>| #[trigger] final(self).spec_registry().filter_gives(name@, r) == call_ensures(constructor, (), r),
            forall|n: Seq<char>, r: PluginResult<Box<dyn Filter>>| n != name@ ==> (#[trigger] final(self).spec_registry().filter_gives(n, r) == old(self).spec_registry().filter_gives(n, r)),
            forall|n: Seq<char>, r: PluginResult<Box<dyn Input>>| #[trigger] final(self).spec_registry().input_gives(n, r) == old(self).spec_registry().input_gives(n, r),
            forall|n: Seq<char>, r: PluginResult<Box<dyn Output>>| #[trigger] final(self).spec_registry().output_gives(n, r) == old(self).spec_registry().output_gives(n, r),

            final(self).spec_registry().input_names_view() == old(self).spec_registry().input_names_view(),
            final(self).spec_registry().output_names_view() == old(self).spec_registry().output_names_view(),
    {
        self.registry.register_filter(name, constructor);
    }

    /// Registers an output constructor under `name`.
    pub fn register_output<F: Fn() -> PluginResult<Box<dyn Output>> + 'static>(&mut self, name: &str, constructor: F)
        requires
            call_requires(constructor, ()),
        ensures
            final(self).spec_registry().output_names_view().to_set() == old(self).spec_registry().output_names_view().to_set().insert(name@),
            old(self).spec_registry().output_names_view().contains(name@) ==> final(self).spec_registry().output_names_view() == old(self).spec_registry().output_names_view(),
            !old(self).spec_registry().output_names_view().contains(name@) ==> final(self).spec_registry().output_names_view() == old(self).spec_registry().output_names_view().push(name@),
            forall|r: PluginResult<Box<dyn Output>>| #[trigger] final(self).spec_registry().output_gives(name@, r) == call_ensures(constructor, (), r),
            forall|n: Seq<char>, r: PluginResult<Box<dyn Output>>| n != name@ ==> (#[trigger] final(self).spec_registry().output_gives(n, r) == old(self).spec_registry().output_gives(n, r)),
            forall|n: Seq<char>, r: PluginResult<Box<dyn Input>>| #[trigger] final(self).spec_registry().input_gives(n, r) == old(self).spec_registry().input_gives(n, r),
            forall|n: Seq<char>, r: PluginResult<Box<dyn Filter>>| #[trigger] final(self).spec_registry().filter_gives(n, r) == old(self).spec_registry().filter_gives(n, r),

            final(self).spec_registry().input_names_view() == old(self).spec_registry().input_names_view(),
            final(self).spec_registry().filter_names_view() == old(self).spec_registry().filter_names_view(),
    {
        self.registry.register_output(name, constructor);
    }
}

/// The kind of a plugin.
pub open spec fn kind_of_plugin(p: AnyPlugin) -> PluginType {
    match p {
        AnyPlugin::Input(_) => PluginType::Input,
        AnyPlugin::Filter(_) => PluginType::Filter,
        AnyPlugin::Output(_) => PluginType::Output,
    }
}

impl Default for PluginFactory {
    fn default() -> (f: Self)
        ensures
            f.spec_registry().input_names_view() == Seq::<Seq<char>>::empty(),
            f.spec_registry().filter_names_view() == Seq::<Seq<char>>::empty(),
            f.spec_registry().output_names_view() == Seq::<Seq<char>>::empty(),
    {
        PluginFactory::new()
    }
}

/// A filter that stores one value under one field of every event.
pub struct AddFieldFilter {
    name: String,
    config: ObjectMap,
    field: String,
    value: JsonValue,
}

impl AddFieldFilter {
    /// The plugin name.
    pub closed spec fn spec_name(&self) -> Seq<char> {
        self.name@
    }

    /// The settings.
    pub closed spec fn spec_config(&self) -> Map<Seq<char>, JsonView> {
        self.config@
    }

    /// The field that is set.
    pub closed spec fn spec_field(&self) -> Seq<char> {
        self.field@
    }

    /// The value that is stored.
    pub closed spec fn spec_value(&self) -> JsonView {
        self.value@
    }

    /// A filter named `add_field_` and the field, with the field and the
    /// value as its settings.
    pub fn new(field: &str, value: JsonValue) -> (f: Self)
        ensures
            f.spec_name() == "add_field_"@ + field@,
            f.spec_field() == field@,
            f.spec_value() == value@,
            f.spec_config() == Map::<Seq<char>, JsonView>::empty().insert("field"@, JsonView::Str(field@)).insert("value"@, value@),
    {
        let mut config = ObjectMap::new();
        let _ = config.insert(text_of("field"), JsonValue::from_text(field));
        let _ = config.insert(text_of("value"), value.clone());
        let mut name = text_of("add_field_");
        push_text(&mut name, field);
        AddFieldFilter { name, config, field: text_of(field), value }
    }
}

impl Filter for AddFieldFilter {
    open spec fn known_name(&self) -> Option<Seq<char>> {
        Some(self.spec_name())
    }

    /// Nothing to prepare.
    fn initialize(&mut self) -> (r: PluginResult<()>)
        ensures
            r is Ok,
    {
        Ok(())
    }

    /// Nothing to release.
    fn shutdown(&mut self) -> (r: PluginResult<()>)
        ensures
            r is Ok,
    {
        Ok(())
    }

    /// Preparing never fails.
    open spec fn initialize_fails_with(&self, e: PluginError) -> bool {
        false
    }

    /// Shutting down never fails.
    open spec fn shutdown_fails_with(&self, e: PluginError) -> bool {
        false
    }

    open spec fn filters(&self, input: Event, output: PluginResult<Event>) -> bool {
        output matches Ok(e) && e.fields() == input.fields().insert(self.spec_field(), self.spec_value())
            && e.spec_id() == input.spec_id() && e.spec_timestamp() == input.spec_timestamp()
            && e.spec_metadata() == input.spec_metadata()
    }

    fn name(&self) -> (r: &str)
        ensures
            r@ == self.spec_name(),
    {
        self.name.as_str()
    }

    fn config(&self) -> (r: &ObjectMap)
        ensures
            r@ == self.spec_config(),
    {
        &self.config
    }

    fn process(&self, event: Event) -> (r: PluginResult<Event>) {
        let mut e = event;
        e.set(self.field.as_str(), self.value.clone());
        Ok(e)
    }
}

/// An output that turns each event into its JSON line and keeps the lines
/// until the program's standard output takes them.
pub struct StdoutOutput {
    name: String,
    config: ObjectMap,
    lines: Vec<String>,
}

impl StdoutOutput {
    /// The lines written and not yet taken.
    pub closed spec fn pending(&self) -> Seq<Seq<char>> {
        texts_of(self.lines@)
    }

    /// The plugin name.
    pub closed spec fn spec_name(&self) -> Seq<char> {
        self.name@
    }

    /// The settings.
    pub closed spec fn spec_config(&self) -> Map<Seq<char>, JsonView> {
        self.config@
    }

    /// An output named `stdout`, with no settings and no lines.
    pub fn new() -> (o: Self)
        ensures
            o.spec_name() == "stdout"@,
            o.spec_config() == Map::<Seq<char>, JsonView>::empty(),
            o.pending() == Seq::<Seq<char>>::empty(),
    {
        let o = StdoutOutput { name: text_of("stdout"), config: ObjectMap::new(), lines: Vec::new() };
        proof {
            assert(o.pending() =~= Seq::<Seq<char>>::empty());
        }
        o
    }

    /// Takes the lines written so far, oldest first.
    pub fn take_lines(&mut self) -> (r: Vec<String>)
        ensures
            texts_of(r@) == old(self).pending(),
            final(self).pending() == Seq::<Seq<char>>::empty(),
            final(self).spec_name() == old(self).spec_name(),
            final(self).spec_config() == old(self).spec_config(),
    {
        let mut r: Vec<String> = Vec::new();
        std::mem::swap(&mut r, &mut self.lines);
        proof {
            assert(self.pending() =~= Seq::<Seq<char>>::empty());
        }
        r
    }
}

impl Output for StdoutOutput {
    open spec fn known_name(&self) -> Option<Seq<char>> {
        Some(self.spec_name())
    }

    /// Nothing to prepare.
    fn initialize(&mut self) -> (r: PluginResult<()>)
        ensures
            r is Ok,
            final(self).pending() == old(self).pending(),
    {
        Ok(())
    }

    /// Nothing to release.
    fn shutdown(&mut self) -> (r: PluginResult<()>)
        ensures
            r is Ok,
            final(self).pending() == old(self).pending(),
    {
        Ok(())
    }

    /// Preparing never fails.
    open spec fn initialize_fails_with(&self, e: PluginError) -> bool {
        false
    }

    /// Shutting down never fails.
    open spec fn shutdown_fails_with(&self, e: PluginError) -> bool {
        false
    }

    /// Writing never fails.
    open spec fn write_fails_with(&self, e: PluginError) -> bool {
        false
    }

    fn name(&self) -> (r: &str)
        ensures
            r@ == self.spec_name(),
    {
        self.name.as_str()
    }

    fn config(&self) -> (r: &ObjectMap)
        ensures
            r@ == self.spec_config(),
    {
        &self.config
    }

    fn write(&mut self, event: Event) -> (r: PluginResult<()>)
        ensures
            r is Ok,
            final(self).pending() == old(self).pending().push(event_json(event)),
            final(self).spec_name() == old(self).spec_name(),
            final(self).spec_config() == old(self).spec_config(),
    {
        match event.to_json() {
            Ok(line) => {
                self.lines.push(line);
                proof {
                    assert(texts_of(self.lines@) =~= texts_of(old(self).lines@).push(event_json(event)));
                }
                Ok(())
            },
            Err(e) => Err(PluginError::JsonError(e.message)),
        }
    }

    /// Each line is written out as it comes, so there is nothing to flush.
    fn flush(&mut self) -> (r: PluginResult<()>)
        ensures
            r is Ok,
            final(self).pending() == old(self).pending(),
            final(self).spec_name() == old(self).spec_name(),
            final(self).spec_config() == old(self).spec_config(),
    {
        Ok(())
    }
}

/// A factory with the built-in plugins registered: the `stdin` input, the
/// `add_field` filter (storing `default_value` under `default_field`) and the
/// `stdout` output.
pub fn default_factory() -> (f: PluginFactory)
    ensures
        f.spec_registry().input_names_view() == seq!["stdin"@],
        f.spec_registry().filter_names_view() == seq!["add_field"@],
        f.spec_registry().output_names_view() == seq!["stdout"@],
        forall|r: PluginResult<Box<dyn Input>>| #[trigger] f.spec_registry().input_gives("stdin"@, r)
            ==> r is Ok && (forall|e: PluginError| !r->Ok_0.initialize_fails_with(e)) && r->Ok_0.known_name() == Some("stdin"@),
        forall|r: PluginResult<Box<dyn Filter>>| #[trigger] f.spec_registry().filter_gives("add_field"@, r)
            ==> r is Ok && (forall|e: PluginError| !r->Ok_0.initialize_fails_with(e)) && r->Ok_0.known_name() == Some("add_field_default_field"@),
        forall|r: PluginResult<Box<dyn Output>>| #[trigger] f.spec_registry().output_gives("stdout"@, r)
            ==> r is Ok && (forall|e: PluginError| !r->Ok_0.initialize_fails_with(e)) && r->Ok_0.known_name() == Some("stdout"@),
{
    let mut factory = PluginFactory::new();
    factory.register_input("stdin", || -> (r: PluginResult<Box<dyn Input>>)
        ensures
            r is Ok && (forall|e: PluginError| !r->Ok_0.initialize_fails_with(e)) && r->Ok_0.known_name() == Some("stdin"@),
    {
        let i = crate::input::stdin::StdinInput::default();
        proof {
            assert(i.config_map().spec_get("codec"@) is None);
        }
        let r: PluginResult<Box<dyn Input>> = Ok(Box::new(i));
        r
    });
    factory.register_filter("add_field", || -> (r: PluginResult<Box<dyn Filter>>)
        ensures
            r is Ok && (forall|e: PluginError| !r->Ok_0.initialize_fails_with(e)) && r->Ok_0.known_name() == Some("add_field_default_field"@),
    {
        proof {
            reveal_strlit("add_field_");
            reveal_strlit("default_field");
            reveal_strlit("add_field_default_field");
            assert("add_field_"@ + "default_field"@ =~= "add_field_default_field"@);
        }
        let r: PluginResult<Box<dyn Filter>> = Ok(Box::new(AddFieldFilter::new("default_field", JsonValue::from_text("default_value"))));
        r
    });
    factory.register_output("stdout", || -> (r: PluginResult<Box<dyn Output>>)
        ensures
            r is Ok && (forall|e: PluginError| !r->Ok_0.initialize_fails_with(e)) && r->Ok_0.known_name() == Some("stdout"@),
    {
        let r: PluginResult<Box<dyn Output>> = Ok(Box::new(StdoutOutput::new()));
        r
    });
    proof {
        assert(factory.spec_registry().input_names_view() =~= seq!["stdin"@]);
        assert(factory.spec_registry().filter_names_view() =~= seq!["add_field"@]);
        assert(factory.spec_registry().output_names_view() =~= seq!["stdout"@]);
    }
    factory
}


/// `x` as a success.
fn ok_of<T>(x: T) -> (r: PluginResult<T>)
    ensures
        r is Ok,
        r->Ok_0 == x,
{
    Ok(x)
}

}
