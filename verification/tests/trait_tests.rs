use gohangout_rs::event::{Event, EventTrait, PipelineTrait, SimplePipeline};
use gohangout_rs::input::RandomInput;
use gohangout_rs::json::JsonValue;
use gohangout_rs::output::StdoutOutput;
use gohangout_rs::plugin::{FromConfig, Plugin, PluginConfig, PluginStatus, PluginType};

fn json(text: &str) -> JsonValue {
    JsonValue::parse(text).unwrap()
}

#[test]
fn plugins_answer_through_the_common_traits() {
    let mut config = PluginConfig::new("rng", PluginType::Input);
    config.set_config("from", JsonValue::from_i64(1));
    config.set_config("to", JsonValue::from_i64(3));
    let mut r = <RandomInput as FromConfig>::from_config(&config).ok().unwrap();
    assert_eq!(Plugin::name(&r), "rng");
    assert_eq!(Plugin::plugin_type(&r), PluginType::Input);
    assert!(Plugin::initialize(&mut r).is_ok());
    assert_eq!(Plugin::status(&r), PluginStatus::Ready);
    let out = <StdoutOutput as FromConfig>::from_config(&PluginConfig::new("out", PluginType::Output)).ok().unwrap();
    assert_eq!(Plugin::plugin_type(&out), PluginType::Output);
    assert!(Plugin::validate_config(&out).is_ok());
}

#[test]
fn events_and_pipelines_answer_through_their_traits() {
    let mut e = Event::new(json(r#"{"a": 1}"#));
    EventTrait::set(&mut e, "b", JsonValue::from_i64(2));
    assert!(EventTrait::contains(&e, "b"));
    assert_eq!(EventTrait::remove(&mut e, "a").unwrap().as_i64(), Some(1));
    let p = SimplePipeline::new();
    assert_eq!(PipelineTrait::processor_count(&p), 0);
    assert!(PipelineTrait::process_event(&p, e).is_ok());
}
