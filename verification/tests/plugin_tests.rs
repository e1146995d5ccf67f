use gohangout_rs::event::Event;
use gohangout_rs::json::{JsonValue, ObjectMap};
use gohangout_rs::plugin::factory::{default_factory, AddFieldFilter, StdoutOutput};
use gohangout_rs::plugin::{
    AnyPlugin, Filter, Input, Output, PluginConfig, PluginError, PluginFactory, PluginManager, PluginRegistry,
    PluginResult, PluginStatus, PluginType,
};

fn json(text: &str) -> JsonValue {
    JsonValue::parse(text).unwrap()
}

struct TestInput {
    config: ObjectMap,
    count: usize,
}

impl TestInput {
    fn new() -> Self {
        TestInput { config: ObjectMap::new(), count: 0 }
    }
}

impl Input for TestInput {
    fn name(&self) -> &str {
        "test_input"
    }
    fn config(&self) -> &ObjectMap {
        &self.config
    }
    fn initialize(&mut self) -> PluginResult<()> {
        Ok(())
    }
    fn shutdown(&mut self) -> PluginResult<()> {
        Ok(())
    }
    fn read(&mut self) -> PluginResult<Option<Event>> {
        if self.count < 3 {
            self.count += 1;
            Ok(Some(Event::new(JsonValue::from_u64(self.count as u64))))
        } else {
            Ok(None)
        }
    }
}

struct TestFilter {
    config: ObjectMap,
}

impl Filter for TestFilter {
    fn name(&self) -> &str {
        "test_filter"
    }
    fn config(&self) -> &ObjectMap {
        &self.config
    }
    fn initialize(&mut self) -> PluginResult<()> {
        Ok(())
    }
    fn shutdown(&mut self) -> PluginResult<()> {
        Ok(())
    }
    fn process(&self, event: Event) -> PluginResult<Event> {
        let mut event = event;
        event.set("filtered", JsonValue::Bool(true));
        Ok(event)
    }
}

struct TestOutput {
    config: ObjectMap,
    written: Vec<Event>,
    fail_shutdown: bool,
}

impl Output for TestOutput {
    fn name(&self) -> &str {
        "test_output"
    }
    fn config(&self) -> &ObjectMap {
        &self.config
    }
    fn write(&mut self, event: Event) -> PluginResult<()> {
        self.written.push(event);
        Ok(())
    }
    fn flush(&mut self) -> PluginResult<()> {
        Ok(())
    }
    fn initialize(&mut self) -> PluginResult<()> {
        Ok(())
    }
    fn shutdown(&mut self) -> PluginResult<()> {
        if self.fail_shutdown {
            Err(PluginError::other("disk gone"))
        } else {
            Ok(())
        }
    }
}

fn test_factory() -> PluginFactory {
    let mut factory = PluginFactory::new();
    factory.register_input("input1", || Ok(Box::new(TestInput::new()) as Box<dyn Input>));
    factory.register_input("test", || Ok(Box::new(TestInput::new()) as Box<dyn Input>));
    factory.register_filter("filter1", || Ok(Box::new(TestFilter { config: ObjectMap::new() }) as Box<dyn Filter>));
    factory.register_output("output1", || {
        Ok(Box::new(TestOutput { config: ObjectMap::new(), written: Vec::new(), fail_shutdown: false }) as Box<dyn Output>)
    });
    factory.register_output("broken", || {
        Ok(Box::new(TestOutput { config: ObjectMap::new(), written: Vec::new(), fail_shutdown: true }) as Box<dyn Output>)
    });
    factory
}

#[test]
fn test_registry_basics() {
    let mut registry = PluginRegistry::new();
    registry.register_input("stdin", || Ok(Box::new(TestInput::new()) as Box<dyn Input>));
    registry.register_filter("add", || Ok(Box::new(TestFilter { config: ObjectMap::new() }) as Box<dyn Filter>));
    registry.register_output("stdout", || {
        Ok(Box::new(TestOutput { config: ObjectMap::new(), written: Vec::new(), fail_shutdown: false }) as Box<dyn Output>)
    });
    assert!(registry.has_input("stdin"));
    assert!(registry.has_filter("add"));
    assert!(registry.has_output("stdout"));
    assert!(registry.has_plugin("stdin"));
    assert!(registry.has_plugin("add"));
    assert!(registry.has_plugin("stdout"));
    let input = registry.create_input("stdin").unwrap();
    let filter = registry.create_filter("add").unwrap();
    let output = registry.create_output("stdout").unwrap();
    assert_eq!(input.name(), "test_input");
    assert_eq!(filter.name(), "test_filter");
    assert_eq!(output.name(), "test_output");
    assert_eq!(registry.input_count(), 1);
    assert_eq!(registry.filter_count(), 1);
    assert_eq!(registry.output_count(), 1);
    assert_eq!(registry.total_count(), 3);
    assert!(!registry.is_empty());
    assert_eq!(registry.input_names(), vec!["stdin".to_string()]);
    assert_eq!(registry.filter_names(), vec!["add".to_string()]);
    assert_eq!(registry.output_names(), vec!["stdout".to_string()]);
    assert_eq!(registry.all_plugin_names(), vec!["stdin".to_string(), "add".to_string(), "stdout".to_string()]);
    assert_eq!(registry.plugin_type("stdin"), Some(PluginType::Input));
    assert_eq!(registry.plugin_type("add"), Some(PluginType::Filter));
    assert_eq!(registry.plugin_type("stdout"), Some(PluginType::Output));
    assert_eq!(registry.plugin_type("unknown"), None);
}

#[test]
fn test_registry_unregister() {
    let mut registry = PluginRegistry::new();
    registry.register_input("test", || Ok(Box::new(TestInput::new()) as Box<dyn Input>));
    assert!(registry.has_input("test"));
    assert!(registry.unregister_input("test"));
    assert!(!registry.has_input("test"));
    assert!(!registry.unregister_input("nonexistent"));
}

#[test]
fn registering_a_name_again_replaces_it() {
    let mut registry = PluginRegistry::new();
    registry.register_input("a", || Err(PluginError::other("first")));
    registry.register_input("a", || Ok(Box::new(TestInput::new()) as Box<dyn Input>));
    assert_eq!(registry.input_count(), 1);
    assert!(registry.create_input("a").is_ok());
    registry.register_output("a", || Err(PluginError::other("out")));
    assert_eq!(registry.plugin_type("a"), Some(PluginType::Input));
    assert!(registry.unregister_plugin("a"));
    assert!(!registry.has_plugin("a"));
    assert!(!registry.unregister_plugin("a"));
}

#[test]
fn test_registry_clear() {
    let mut registry = PluginRegistry::new();
    registry.register_input("in", || Ok(Box::new(TestInput::new()) as Box<dyn Input>));
    registry.register_filter("filter", || Ok(Box::new(TestFilter { config: ObjectMap::new() }) as Box<dyn Filter>));
    assert_eq!(registry.total_count(), 2);
    registry.clear();
    assert!(registry.is_empty());
    assert_eq!(registry.total_count(), 0);
}

#[test]
fn test_registry_error_handling() {
    let registry = PluginRegistry::new();
    let result = registry.create_input("nonexistent");
    assert!(result.is_err());
    if let Err(e) = result {
        assert!(matches!(e, PluginError::NotFound(_)));
    }
}

#[test]
fn test_plugin_registry() {
    let mut registry = PluginRegistry::new();
    registry.register_input("stdin", || Ok(Box::new(TestInput::new()) as Box<dyn Input>));
    registry.register_filter("add_field", || Ok(Box::new(TestFilter { config: ObjectMap::new() }) as Box<dyn Filter>));
    registry.register_output("stdout", || {
        Ok(Box::new(TestOutput { config: ObjectMap::new(), written: Vec::new(), fail_shutdown: false }) as Box<dyn Output>)
    });
    assert!(registry.has_input("stdin"));
    assert!(registry.has_filter("add_field"));
    assert!(registry.has_output("stdout"));
    assert!(!registry.has_input("unknown"));
    assert!(!registry.has_filter("unknown"));
    assert!(!registry.has_output("unknown"));
}

#[test]
fn test_plugin_error_handling() {
    let mut registry = PluginRegistry::new();
    registry.register_input("failing", || Err(PluginError::InitializationFailed("Test failure".to_string())));
    let result = registry.create_input("failing");
    assert!(result.is_err());
    let result = registry.create_input("unknown");
    assert!(result.is_err());
    assert!(matches!(result.err().unwrap(), PluginError::NotFound(_)));
}

#[test]
fn test_factory_basics() {
    let mut factory = PluginFactory::new();
    factory.register_input("test_input", || Ok(Box::new(TestInput::new()) as Box<dyn Input>));
    factory.register_filter("test_filter", || Ok(Box::new(TestFilter { config: ObjectMap::new() }) as Box<dyn Filter>));
    factory.register_output("test_output", || {
        Ok(Box::new(TestOutput { config: ObjectMap::new(), written: Vec::new(), fail_shutdown: false }) as Box<dyn Output>)
    });
    let input = factory.create_input(&PluginConfig::new("test_input", PluginType::Input)).unwrap();
    let filter = factory.create_filter(&PluginConfig::new("test_filter", PluginType::Filter)).unwrap();
    let output = factory.create_output(&PluginConfig::new("test_output", PluginType::Output)).unwrap();
    assert_eq!(input.name(), "test_input");
    assert_eq!(filter.name(), "test_filter");
    assert_eq!(output.name(), "test_output");
    assert!(factory.supports_plugin("test_input", PluginType::Input));
    assert!(factory.supports_plugin("test_filter", PluginType::Filter));
    assert!(factory.supports_plugin("test_output", PluginType::Output));
    assert!(factory.supported_plugins(PluginType::Input).contains(&"test_input".to_string()));
    assert!(factory.supported_plugins(PluginType::Filter).contains(&"test_filter".to_string()));
    assert!(factory.supported_plugins(PluginType::Output).contains(&"test_output".to_string()));
}

#[test]
fn test_factory_validation() {
    let factory = PluginFactory::new();
    let result = factory.create_input(&PluginConfig::new("unknown", PluginType::Input));
    assert!(result.is_err());
    if let Err(e) = result {
        assert!(matches!(e, PluginError::NotFound(_)));
        assert_eq!(e.message(), "Plugin not found: Plugin 'unknown' of type 'input' is not supported");
    }
    let result = factory.create_input(&PluginConfig::new("", PluginType::Input));
    assert!(result.is_err());
    if let Err(e) = result {
        assert!(matches!(e, PluginError::InvalidName(_)));
        assert_eq!(e.message(), "Invalid plugin name: Plugin name cannot be empty");
    }
}

#[test]
fn create_plugin_follows_the_configured_kind() {
    let factory = test_factory();
    match factory.create_plugin(&PluginConfig::new("filter1", PluginType::Filter)) {
        Ok(AnyPlugin::Filter(f)) => assert_eq!(f.name(), "test_filter"),
        _ => panic!("expected a filter"),
    }
    let mismatched = factory.create_input(&PluginConfig::new("filter1", PluginType::Filter));
    assert!(matches!(mismatched.err().unwrap(), PluginError::NotFound(_)));
}

#[test]
fn test_default_factory() {
    let factory = default_factory();
    assert!(factory.supports_plugin("stdin", PluginType::Input));
    assert!(factory.supports_plugin("add_field", PluginType::Filter));
    assert!(factory.supports_plugin("stdout", PluginType::Output));
    let input = factory.create_input(&PluginConfig::new("stdin", PluginType::Input)).unwrap();
    let filter = factory.create_filter(&PluginConfig::new("add_field", PluginType::Filter)).unwrap();
    let output = factory.create_output(&PluginConfig::new("stdout", PluginType::Output)).unwrap();
    assert_eq!(input.name(), "stdin");
    assert_eq!(filter.name(), "add_field_default_field");
    assert_eq!(output.name(), "stdout");
}

#[test]
fn test_plugin_factory() {
    let factory = default_factory();
    let input = factory.create_input(&PluginConfig::new("stdin", PluginType::Input)).unwrap();
    assert_eq!(input.name(), "stdin");
    let mut filter_config = PluginConfig::new("add_field", PluginType::Filter);
    filter_config.set_config("field", JsonValue::from_text("timestamp"));
    filter_config.set_config("value", JsonValue::from_text("now"));
    let filter = factory.create_filter(&filter_config).unwrap();
    assert_eq!(filter.name(), "add_field_default_field");
    let output = factory.create_output(&PluginConfig::new("stdout", PluginType::Output)).unwrap();
    assert_eq!(output.name(), "stdout");
}

#[test]
fn test_plugin_config_validation() {
    let mut factory = PluginFactory::new();
    factory.register_input("valid", || Ok(Box::new(TestInput::new()) as Box<dyn Input>));
    assert!(factory.create_input(&PluginConfig::new("", PluginType::Input)).is_err());
    assert!(factory.create_input(&PluginConfig::new("valid", PluginType::Input)).is_ok());
}

#[test]
fn add_field_filter_sets_its_field() {
    let filter = AddFieldFilter::new("host", JsonValue::from_text("localhost"));
    assert_eq!(filter.name(), "add_field_host");
    assert_eq!(filter.config().get("field").unwrap().as_str(), Some("host"));
    assert_eq!(filter.plugin_type(), PluginType::Filter);
    let out = filter.process(Event::new(json(r#"{"a": 1}"#))).unwrap();
    assert_eq!(out.get("host").unwrap().as_str(), Some("localhost"));
    let batch = filter.process_batch(vec![Event::new(json("{}")), Event::new(json("{}"))]).unwrap();
    assert_eq!(batch.len(), 2);
    assert!(batch.iter().all(|e| e.get("host").is_some()));
}

#[test]
fn simple_stdout_output_keeps_json_lines() {
    let mut out = StdoutOutput::new();
    let event = Event::new(json(r#"{"m": "x"}"#));
    let expected = event.to_json().unwrap();
    out.write(event).unwrap();
    let lines = out.take_lines();
    assert_eq!(lines, vec![expected]);
    assert!(out.take_lines().is_empty());
}

#[test]
fn test_manager_basics() {
    let mut manager = PluginManager::with_factory(test_factory());
    manager.add_plugin(PluginConfig::new("input1", PluginType::Input)).unwrap();
    manager.add_plugin(PluginConfig::new("filter1", PluginType::Filter)).unwrap();
    manager.add_plugin(PluginConfig::new("output1", PluginType::Output)).unwrap();
    assert_eq!(manager.input_count(), 1);
    assert_eq!(manager.filter_count(), 1);
    assert_eq!(manager.output_count(), 1);
    assert_eq!(manager.total_count(), 3);
    assert!(manager.has_plugin("input1", PluginType::Input));
    assert!(manager.has_plugin("filter1", PluginType::Filter));
    assert!(manager.has_plugin("output1", PluginType::Output));
    assert!(manager.get_input("input1").is_some());
    assert!(manager.get_filter("filter1").is_some());
    assert!(manager.get_output("output1").is_some());
    assert_eq!(manager.inputs().len(), 1);
    assert_eq!(manager.filters().len(), 1);
    assert_eq!(manager.outputs().len(), 1);
    assert_eq!(manager.plugin_names(PluginType::Input), vec!["input1".to_string()]);
}

#[test]
fn test_plugin_manager() {
    let mut manager = PluginManager::with_factory(test_factory());
    manager.add_plugin(PluginConfig::new("input1", PluginType::Input)).unwrap();
    let mut filter_config = PluginConfig::new("filter1", PluginType::Filter);
    filter_config.set_config("field", JsonValue::from_text("host"));
    filter_config.set_config("value", JsonValue::from_text("localhost"));
    manager.add_plugin(filter_config).unwrap();
    manager.add_plugin(PluginConfig::new("output1", PluginType::Output)).unwrap();
    assert_eq!(manager.input_count(), 1);
    assert_eq!(manager.filter_count(), 1);
    assert_eq!(manager.output_count(), 1);
    assert_eq!(manager.inputs().len(), 1);
    assert_eq!(manager.filters().len(), 1);
    assert_eq!(manager.outputs().len(), 1);
}

#[test]
fn test_manager_remove() {
    let mut manager = PluginManager::with_factory(test_factory());
    manager.add_plugin(PluginConfig::new("test", PluginType::Input)).unwrap();
    assert!(manager.has_plugin("test", PluginType::Input));
    manager.remove_plugin("test", PluginType::Input).unwrap();
    assert!(!manager.has_plugin("test", PluginType::Input));
    let result = manager.remove_plugin("nonexistent", PluginType::Input);
    assert!(result.is_err());
}

#[test]
fn test_plugin_lifecycle() {
    let mut manager = PluginManager::with_factory(test_factory());
    manager.add_plugin(PluginConfig::new("test", PluginType::Input)).unwrap();
    assert_eq!(manager.input_count(), 1);
    manager.remove_plugin("test", PluginType::Input).unwrap();
    assert_eq!(manager.input_count(), 0);
    assert!(manager.remove_plugin("nonexistent", PluginType::Input).is_err());
}

#[test]
fn test_manager_duplicate() {
    let mut manager = PluginManager::with_factory(test_factory());
    manager.add_plugin(PluginConfig::new("test", PluginType::Input)).unwrap();
    let result = manager.add_plugin(PluginConfig::new("test", PluginType::Input));
    assert!(result.is_err());
    let e = result.unwrap_err();
    assert!(matches!(e, PluginError::RegistrationError(_)));
    assert_eq!(e.message(), "Plugin registration error: Plugin 'test' of type 'input' already exists");
}

#[test]
fn test_manager_validation() {
    let mut manager = PluginManager::new();
    let result = manager.add_plugin(PluginConfig::new("", PluginType::Input));
    assert!(result.is_err());
    assert!(matches!(result.unwrap_err(), PluginError::InvalidName(_)));
}

#[test]
fn manager_runs_the_pipeline() {
    let mut manager = PluginManager::with_factory(test_factory());
    manager.add_plugin(PluginConfig::new("input1", PluginType::Input)).unwrap();
    manager.add_plugin(PluginConfig::new("filter1", PluginType::Filter)).unwrap();
    manager.add_plugin(PluginConfig::new("output1", PluginType::Output)).unwrap();
    assert!(manager.initialize_all().is_ok());
    let events = manager.read_from_inputs().unwrap();
    assert_eq!(events.len(), 3);
    let processed = manager.process_pipeline(events).unwrap();
    assert_eq!(processed.len(), 3);
    assert!(processed.iter().all(|e| e.get("filtered").and_then(|v| v.as_bool()) == Some(true)));
    assert!(manager.shutdown_all().is_ok());
}

#[test]
fn manager_reports_failed_shutdowns() {
    let mut manager = PluginManager::with_factory(test_factory());
    manager.add_plugin(PluginConfig::new("broken", PluginType::Output)).unwrap();
    match manager.shutdown_all() {
        Err(PluginError::Other(m)) => assert_eq!(m, "Output plugin 'broken': Plugin error: disk gone"),
        _ => panic!("expected a shutdown report"),
    }
}

#[test]
fn test_input_trait_basic() {
    let mut input = TestInput::new();
    let event = input.read().unwrap().unwrap();
    assert_eq!(event.data().as_u64(), Some(1));
    assert_eq!(input.name(), "test_input");
    assert_eq!(input.plugin_type(), PluginType::Input);
    assert_eq!(input.status(), PluginStatus::Ready);
}

#[test]
fn test_filter_trait_basic() {
    let filter = TestFilter { config: ObjectMap::new() };
    let processed = filter.process(Event::new(json("{}"))).unwrap();
    assert_eq!(processed.get("filtered").unwrap().as_bool(), Some(true));
    assert_eq!(filter.name(), "test_filter");
}

#[test]
fn test_output_trait_basic() {
    let mut output = TestOutput { config: ObjectMap::new(), written: Vec::new(), fail_shutdown: false };
    output.write(Event::new(json(r#"{"data": "test"}"#))).unwrap();
    assert_eq!(output.written.len(), 1);
    assert_eq!(output.written[0].get("data").unwrap().as_str(), Some("test"));
    assert_eq!(output.name(), "test_output");
    output.write_batch(vec![Event::new(json("{}")), Event::new(json("{}"))]).unwrap();
    assert_eq!(output.written.len(), 3);
}

#[test]
fn plugin_type_and_status_names() {
    assert_eq!(PluginType::from_str("INPUT"), Some(PluginType::Input));
    assert_eq!(PluginType::from_str("Filter"), Some(PluginType::Filter));
    assert_eq!(PluginType::from_str("output"), Some(PluginType::Output));
    assert_eq!(PluginType::from_str("other"), None);
    assert_eq!(PluginType::Output.as_str(), "output");
    assert_eq!(PluginStatus::Stopped.as_str(), "stopped");
    let e = PluginError::type_mismatch("input", "output");
    assert_eq!(e.message(), "Plugin type mismatch: expected input, got output");
    assert!(PluginError::not_found("x").is_not_found());
}

#[test]
fn simple_stdout_output_flush_keeps_written_lines() {
    let mut out = StdoutOutput::new();
    assert!(out.config().is_empty());
    out.write(Event::new(json("{\"a\":1}"))).unwrap();
    assert!(out.flush().is_ok());
    assert_eq!(out.take_lines().len(), 1);
}

#[test]
fn manager_without_plugins_initializes_and_reads_nothing() {
    let mut manager = PluginManager::new();
    assert!(manager.initialize_all().is_ok());
    assert!(manager.read_from_inputs().unwrap().is_empty());
    assert!(manager.shutdown_all().is_ok());
}

#[test]
fn manager_input_can_be_changed_in_place() {
    let mut manager = PluginManager::with_factory(test_factory());
    manager.add_plugin(PluginConfig::new("input1", PluginType::Input)).unwrap();
    assert!(manager.get_input_mut("missing").is_none());
    let input = manager.get_input_mut("input1").unwrap();
    let first = input.read().unwrap().unwrap();
    assert_eq!(first.data().as_u64(), Some(1));
    let again = manager.get_input_mut("input1").unwrap();
    let second = again.read().unwrap().unwrap();
    assert_eq!(second.data().as_u64(), Some(2));
    assert_eq!(manager.input_count(), 1);
}

struct FailingInput {
    config: ObjectMap,
}

impl Input for FailingInput {
    fn name(&self) -> &str {
        "failing"
    }
    fn config(&self) -> &ObjectMap {
        &self.config
    }
    fn initialize(&mut self) -> PluginResult<()> {
        Err(PluginError::initialization_failed("cannot start"))
    }
    fn shutdown(&mut self) -> PluginResult<()> {
        Ok(())
    }
    fn read(&mut self) -> PluginResult<Option<Event>> {
        Ok(None)
    }
}

#[test]
fn add_plugin_gives_what_creation_gives() {
    let mut factory = test_factory();
    factory.register_input("refused", || Err(PluginError::configuration_error("no settings")));
    factory.register_input("failing", || Ok(Box::new(FailingInput { config: ObjectMap::new() }) as Box<dyn Input>));
    let mut manager = PluginManager::with_factory(factory);
    let unsupported = manager.add_plugin(PluginConfig::new("nowhere", PluginType::Input)).unwrap_err();
    assert_eq!(unsupported.message(), "Plugin not found: Plugin 'nowhere' of type 'input' is not supported");
    let refused = manager.add_plugin(PluginConfig::new("refused", PluginType::Input)).unwrap_err();
    assert!(matches!(refused, PluginError::ConfigurationError(ref m) if m == "no settings"));
    let failing = manager.add_plugin(PluginConfig::new("failing", PluginType::Input)).unwrap_err();
    assert!(failing.message().contains("cannot start"));
    assert!(manager.add_plugin(PluginConfig::new("input1", PluginType::Input)).is_ok());
    assert_eq!(manager.plugin_names(PluginType::Input), vec!["input1".to_string()]);
    assert!(manager.initialize_all().is_ok());
}
