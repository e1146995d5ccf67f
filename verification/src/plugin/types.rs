//! Plugin kinds, statuses, statistics and configurations.
use vstd::prelude::*;
use crate::json::{JsonValue, JsonView, ObjectMap};
use crate::text::{ascii_lower, lower_eq, text_of};

verus! {

/// Plugin type enumeration.
#[derive(Clone, Copy, Debug, PartialEq, Eq, Hash, Structural)]
pub enum PluginType {
    /// Input plugin (reads data from external sources).
    Input,
    /// Filter plugin (processes and transforms events).
    Filter,
    /// Output plugin (writes data to external destinations).
    Output,
}

/// The name of a plugin type.
pub open spec fn plugin_type_name(t: PluginType) -> Seq<char> {
    match t {
        PluginType::Input => "input"@,
        PluginType::Filter => "filter"@,
        PluginType::Output => "output"@,
    }
}

impl PluginType {
    /// The name of this type: "input", "filter" or "output".
    pub fn as_str(&self) -> (r: &'static str)
        ensures
            r@ == plugin_type_name(*self),
    {
        match self {
            PluginType::Input => "input",
            PluginType::Filter => "filter",
            PluginType::Output => "output",
        }
    }

    /// The type named by `s`, in any letter case.
    pub open spec fn from_str_spec(s: Seq<char>) -> Option<PluginType> {
        if ascii_lower(s) == "input"@ {
            Some(PluginType::Input)
        } else if ascii_lower(s) == "filter"@ {
            Some(PluginType::Filter)
        } else if ascii_lower(s) == "output"@ {
            Some(PluginType::Output)
        } else {
            None
        }
    }

    /// The type named by `s`, in any letter case.
    pub fn from_str(s: &str) -> (r: Option<PluginType>)
        ensures
            r == PluginType::from_str_spec(s@),
    {
        if lower_eq(s, "input") {
            Some(PluginType::Input)
        } else if lower_eq(s, "filter") {
            Some(PluginType::Filter)
        } else if lower_eq(s, "output") {
            Some(PluginType::Output)
        } else {
            None
        }
    }
}

/// The name of a plugin type reads back as that type.
pub proof fn law_type_name_round_trip(t: PluginType)
    ensures
        PluginType::from_str_spec(plugin_type_name(t)) == Some(t),
{
    reveal_strlit("input");
    reveal_strlit("filter");
    reveal_strlit("output");
    crate::text::lemma_lower_fixed("input"@);
    crate::text::lemma_lower_fixed("filter"@);
    crate::text::lemma_lower_fixed("output"@);
    assert("output"@[0] != "filter"@[0]);
}

/// Plugin status.
#[derive(Clone, Copy, Debug, PartialEq, Eq, Structural)]
pub enum PluginStatus {
    /// Plugin is initializing.
    Initializing,
    /// Plugin is ready for operation.
    Ready,
    /// Plugin is running.
    Running,
    /// Plugin is paused.
    Paused,
    /// Plugin is stopping.
    Stopping,
    /// Plugin has stopped.
    Stopped,
    /// Plugin has encountered an error.
    Error,
}

/// The name of a status.
pub open spec fn status_name(s: PluginStatus) -> Seq<char> {
    match s {
        PluginStatus::Initializing => "initializing"@,
        PluginStatus::Ready => "ready"@,
        PluginStatus::Running => "running"@,
        PluginStatus::Paused => "paused"@,
        PluginStatus::Stopping => "stopping"@,
        PluginStatus::Stopped => "stopped"@,
        PluginStatus::Error => "error"@,
    }
}

impl PluginStatus {
    /// The name of this status, as it is displayed.
    pub fn as_str(&self) -> (r: &'static str)
        ensures
            r@ == status_name(*self),
    {
        match self {
            PluginStatus::Initializing => "initializing",
            PluginStatus::Ready => "ready",
            PluginStatus::Running => "running",
            PluginStatus::Paused => "paused",
            PluginStatus::Stopping => "stopping",
            PluginStatus::Stopped => "stopped",
            PluginStatus::Error => "error",
        }
    }
}

/// Input plugin statistics.
#[derive(Clone, Copy, Debug, PartialEq, Eq, Structural)]
pub struct InputStats {
    /// Number of events read.
    pub events_read: u64,
    /// Number of bytes read.
    pub bytes_read: u64,
    /// Number of read errors.
    pub errors: u64,
    /// Time spent reading (in milliseconds).
    pub read_time_ms: u64,
}

impl Default for InputStats {
    /// All counts zero.
    fn default() -> (s: Self)
        ensures
            s == (InputStats { events_read: 0, bytes_read: 0, errors: 0, read_time_ms: 0 }),
    {
        InputStats { events_read: 0, bytes_read: 0, errors: 0, read_time_ms: 0 }
    }
}

/// Filter plugin statistics.
#[derive(Clone, Copy, Debug, PartialEq, Eq, Structural)]
pub struct FilterStats {
    /// Number of events processed.
    pub events_processed: u64,
    /// Number of events filtered out.
    pub events_filtered: u64,
    /// Number of processing errors.
    pub errors: u64,
    /// Time spent processing (in milliseconds).
    pub process_time_ms: u64,
}

impl Default for FilterStats {
    /// All counts zero.
    fn default() -> (s: Self)
        ensures
            s == (FilterStats { events_processed: 0, events_filtered: 0, errors: 0, process_time_ms: 0 }),
    {
        FilterStats { events_processed: 0, events_filtered: 0, errors: 0, process_time_ms: 0 }
    }
}

/// Output plugin statistics.
#[derive(Clone, Copy, Debug, PartialEq, Eq, Structural)]
pub struct OutputStats {
    /// Number of events written.
    pub events_written: u64,
    /// Number of bytes written.
    pub bytes_written: u64,
    /// Number of write errors.
    pub errors: u64,
    /// Time spent writing (in milliseconds).
    pub write_time_ms: u64,
}

impl Default for OutputStats {
    /// All counts zero.
    fn default() -> (s: Self)
        ensures
            s == (OutputStats { events_written: 0, bytes_written: 0, errors: 0, write_time_ms: 0 }),
    {
        OutputStats { events_written: 0, bytes_written: 0, errors: 0, write_time_ms: 0 }
    }
}

/// Plugin configuration.
pub struct PluginConfig {
    /// Plugin name (must be unique within its type).
    pub name: String,
    /// Plugin type (input, filter, or output).
    pub plugin_type: PluginType,
    /// Plugin-specific configuration.
    pub config: ObjectMap,
}

impl PluginConfig {
    /// A configuration with no settings.
    pub fn new(name: &str, plugin_type: PluginType) -> (c: Self)
        ensures
            c.name@ == name@,
            c.plugin_type == plugin_type,
            c.config@ == Map::<Seq<char>, JsonView>::empty(),
    {
        PluginConfig { name: text_of(name), plugin_type, config: ObjectMap::new() }
    }

    /// A configuration with the given settings.
    pub fn with_config(name: &str, plugin_type: PluginType, config: ObjectMap) -> (c: Self)
        ensures
            c.name@ == name@,
            c.plugin_type == plugin_type,
            c.config == config,
    {
        PluginConfig { name: text_of(name), plugin_type, config }
    }

    /// The plugin name.
    pub fn name(&self) -> (r: &str)
        ensures
            r@ == self.name@,
    {
        self.name.as_str()
    }

    /// The plugin type.
    pub fn plugin_type(&self) -> (r: PluginType)
        ensures
            r == self.plugin_type,
    {
        self.plugin_type
    }

    /// The settings.
    pub fn config(&self) -> (r: &ObjectMap)
        ensures
            *r == self.config,
    {
        &self.config
    }

    /// The settings, for change in place.
    pub fn config_mut(&mut self) -> (r: &mut ObjectMap)
        ensures
            *r == old(self).config,
            final(self).config == *final(r),
            final(self).name == old(self).name,
            final(self).plugin_type == old(self).plugin_type,
    {
        &mut self.config
    }

    /// Stores a setting.
    pub fn set_config(&mut self, key: &str, value: JsonValue)
        ensures
            final(self).config@ == old(self).config@.insert(key@, value@),
            final(self).config.spec_get(key@) == Some(value),
            final(self).name == old(self).name,
            final(self).plugin_type == old(self).plugin_type,
    {
        let _ = self.config.insert(text_of(key), value);
    }

    /// A setting.
    pub fn get_config(&self, key: &str) -> (r: Option<&JsonValue>)
        ensures
            r matches Some(v) ==> self.config.spec_get(key@) == Some(*v),
            r is None ==> self.config.spec_get(key@) is None,
    {
        self.config.get(key)
    }
}

impl Clone for PluginConfig {
    fn clone(&self) -> (r: Self)
        ensures
            r.name == self.name,
            r.plugin_type == self.plugin_type,
            r.config@ == self.config@,
            r.config.entries_view() == self.config.entries_view(),
    {
        PluginConfig { name: self.name.clone(), plugin_type: self.plugin_type, config: self.config.clone() }
    }
}

}
