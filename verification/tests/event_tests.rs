use gohangout_rs::event::{
    AddFieldProcessor, Event, FilterProcessor, FunctionProcessor, PipelineError, ProcessorTrait,
    RemoveFieldProcessor, RenameFieldProcessor, SimplePipeline, SimpleProcessor,
};
use gohangout_rs::json::{JsonValue, ObjectMap};

fn json(text: &str) -> JsonValue {
    JsonValue::parse(text).unwrap()
}

fn text(v: Option<&JsonValue>) -> &str {
    v.unwrap().as_str().unwrap()
}

fn num(v: Option<&JsonValue>) -> i64 {
    v.unwrap().as_i64().unwrap()
}

#[test]
fn test_event_basics() {
    let event = Event::new(json(r#"{"message": "test"}"#));
    let later = Event::new(json("{}"));
    assert!(event.id() != 0);
    assert!(event.timestamp().secs <= later.timestamp().secs);
    assert_eq!(text(event.get("message")), "test");
}

#[test]
fn event_test_event_serialization() {
    let original = Event::new(json(r#"{"message": "hello", "level": "info"}"#));
    let json_str = original.to_json().unwrap();
    let restored = Event::from_json(&json_str).unwrap();
    assert_eq!(restored.id(), original.id());
    assert_eq!(text(restored.get("message")), "hello");
    assert_eq!(text(restored.get("level")), "info");
}

#[test]
fn event_test_event_merge() {
    let mut event1 = Event::new(json(r#"{"a": 1}"#));
    event1.add_metadata("host", JsonValue::from_text("server1"));
    let event2 = Event::new(json(r#"{"b": 2}"#));
    event1.merge(event2);
    assert_eq!(num(event1.get("a")), 1);
    assert_eq!(num(event1.get("b")), 2);
    assert_eq!(text(event1.get_metadata("host")), "server1");
}

#[test]
fn test_ensure_timestamp() {
    let mut event1 = Event::new(json(r#"{"message": "test"}"#));
    assert!(!event1.contains("@timestamp"));
    event1.ensure_timestamp();
    assert!(event1.contains("@timestamp"));
    let timestamp = event1.get("@timestamp").unwrap();
    assert!(timestamp.is_string());
    let timestamp_str = timestamp.as_str().unwrap();
    assert!(timestamp_str.contains("T"));
    assert!(timestamp_str.contains("+08:00"));

    let existing_timestamp = "2026-04-03T11:59:23.464765211+08:00";
    let mut event2 = Event::new(json(r#"{"message": "test", "@timestamp": "2026-04-03T11:59:23.464765211+08:00"}"#));
    event2.ensure_timestamp();
    assert_eq!(text(event2.get("@timestamp")), existing_timestamp);
}

#[test]
fn test_event_creation() {
    let event = Event::new(json(r#"{"message": "test log"}"#));
    let later = Event::new(json("{}"));
    assert!(event.id() != 0);
    assert!(event.timestamp().secs <= later.timestamp().secs);
    assert_eq!(text(event.get("message")), "test log");
}

#[test]
fn test_event_with_metadata() {
    let mut metadata = ObjectMap::new();
    metadata.insert("host".to_string(), JsonValue::from_text("localhost"));
    metadata.insert("service".to_string(), JsonValue::from_text("web"));
    let event = Event::with_metadata(json(r#"{"message": "test"}"#), metadata);
    assert_eq!(text(event.metadata().get("host")), "localhost");
    assert_eq!(text(event.metadata().get("service")), "web");
    assert_eq!(text(event.get("message")), "test");
}

#[test]
fn test_event_set_and_get() {
    let mut event = Event::new(json("{}"));
    event.set("message", JsonValue::from_text("hello world"));
    event.set("level", JsonValue::from_text("info"));
    assert_eq!(text(event.get("message")), "hello world");
    assert_eq!(text(event.get("level")), "info");
    assert!(event.get("nonexistent").is_none());
}

#[test]
fn event_tests_test_event_serialization() {
    let original = Event::new(json(
        r#"{"message": "test log", "level": "error", "timestamp": "2024-01-01T00:00:00Z"}"#,
    ));
    let serialized = original.to_json().expect("Failed to serialize");
    let deserialized = Event::from_json(&serialized).expect("Failed to deserialize");
    assert_eq!(text(deserialized.get("message")), "test log");
    assert_eq!(text(deserialized.get("level")), "error");
    assert_eq!(deserialized.id(), original.id());
}

#[test]
fn test_event_clone() {
    let event1 = Event::new(json(r#"{"test": "data"}"#));
    let event2 = event1.clone();
    assert_eq!(text(event1.get("test")), text(event2.get("test")));
    assert_ne!(event1.id(), event2.id());
}

#[test]
fn test_event_remove_field() {
    let mut event = Event::new(json(r#"{"keep": "this", "remove": "this"}"#));
    let removed = event.remove("remove");
    assert_eq!(removed.unwrap().as_str().unwrap(), "this");
    assert!(event.get("remove").is_none());
    assert_eq!(text(event.get("keep")), "this");
    assert!(event.remove("nonexistent").is_none());
}

#[test]
fn test_event_metadata_operations() {
    let mut event = Event::new(json("{}"));
    event.add_metadata("host", JsonValue::from_text("server1"));
    event.add_metadata("environment", JsonValue::from_text("production"));
    assert_eq!(text(event.get_metadata("host")), "server1");
    assert_eq!(text(event.get_metadata("environment")), "production");
    let removed = event.remove_metadata("host");
    assert_eq!(removed.unwrap().as_str().unwrap(), "server1");
    assert!(event.get_metadata("host").is_none());
}

#[test]
fn test_event_timestamp_operations() {
    let before = Event::new(json("{}")).timestamp();
    let event = Event::new(json("{}"));
    let diff = event.timestamp().secs - before.secs;
    assert!(diff.abs() <= 1);

    let mut custom = before;
    custom.secs -= 3600;
    let mut event2 = Event::new(json("{}"));
    event2.set_timestamp(custom);
    assert_eq!(event2.timestamp(), custom);
}

#[test]
fn event_tests_test_event_merge() {
    let mut event1 = Event::new(json(r#"{"field1": "value1", "common": "old"}"#));
    let event2 = Event::new(json(r#"{"field2": "value2", "common": "new"}"#));
    event1.merge(event2);
    assert_eq!(text(event1.get("field1")), "value1");
    assert_eq!(text(event1.get("field2")), "value2");
    assert_eq!(text(event1.get("common")), "new");
}

#[test]
fn test_event_error_handling() {
    let result = Event::from_json("invalid json");
    assert!(result.is_err());
    let event = Event::from_json("{}").expect("Should parse empty JSON");
    assert!(event.data().is_object());
}

#[test]
fn event_tests_test_pipeline_basic() {
    let pipeline = SimplePipeline::new();
    let events = vec![
        Event::new(json(r#"{"id": 1}"#)),
        Event::new(json(r#"{"id": 2}"#)),
        Event::new(json(r#"{"id": 3}"#)),
    ];
    let processed = pipeline.process_batch(events).expect("Pipeline should process");
    assert_eq!(processed.len(), 3);
}

#[test]
fn test_pipeline_with_processor() {
    let mut pipeline = SimplePipeline::new();
    pipeline.add_function("mark", |mut event: Event| {
        event.set("processed", JsonValue::Bool(true));
        Ok(event)
    });
    let mut event = Event::new(json("{}"));
    event = pipeline.process(event).expect("Should process");
    assert_eq!(event.get("processed").unwrap().as_bool(), Some(true));
}

#[test]
fn test_pipeline_error_propagation() {
    let mut pipeline = SimplePipeline::new();
    pipeline.add_function("fail", |_event: Event| Err("Test error".to_string()));
    let event = Event::new(json("{}"));
    let result = pipeline.process(event);
    assert!(result.is_err());
}

#[test]
fn test_event_trait_impl() {
    let mut event = Event::new(json(r#"{"test": "value"}"#));
    assert!(event.contains("test"));
    assert_eq!(text(event.get("test")), "value");
    event.set("new", JsonValue::from_text("field"));
    assert_eq!(text(event.get("new")), "field");
    let removed = event.remove("test");
    assert_eq!(removed.unwrap().as_str().unwrap(), "value");
    assert!(!event.contains("test"));
}

#[test]
fn test_function_processor() {
    let processor = FunctionProcessor::new("test", |mut event: Event| {
        event.set("processed", JsonValue::Bool(true));
        Ok(event)
    });
    let event = Event::new(json("{}"));
    let processed = processor.process(event).unwrap();
    assert_eq!(processed.get("processed").unwrap().as_bool(), Some(true));
    assert_eq!(processor.name(), "test");
}

#[test]
fn test_add_field_processor() {
    let processor = AddFieldProcessor::new("host", JsonValue::from_text("localhost"));
    let event = Event::new(json(r#"{"message": "test"}"#));
    let processed = processor.process(event).unwrap();
    assert_eq!(text(processed.get("host")), "localhost");
    assert_eq!(text(processed.get("message")), "test");
    assert_eq!(processor.name(), "add_field_host");
}

#[test]
fn test_remove_field_processor() {
    let processor = RemoveFieldProcessor::new("secret");
    let event = Event::new(json(r#"{"message": "test", "secret": "password"}"#));
    let processed = processor.process(event).unwrap();
    assert!(processed.get("secret").is_none());
    assert_eq!(text(processed.get("message")), "test");
    assert_eq!(processor.name(), "remove_field_secret");
    assert_eq!(processor.field(), "secret");
}

#[test]
fn test_rename_field_processor() {
    let processor = RenameFieldProcessor::new("old", "new");
    let event = Event::new(json(r#"{"old": "value", "other": "data"}"#));
    let processed = processor.process(event).unwrap();
    assert!(processed.get("old").is_none());
    assert_eq!(text(processed.get("new")), "value");
    assert_eq!(text(processed.get("other")), "data");
    assert_eq!(processor.name(), "rename_old_to_new");
    assert_eq!(processor.from(), "old");
    assert_eq!(processor.to(), "new");
}

#[test]
fn rename_without_the_field_leaves_the_event() {
    let processor = RenameFieldProcessor::new("old", "new");
    let event = Event::new(json(r#"{"other": "data"}"#));
    let processed = processor.process(event).unwrap();
    assert!(processed.get("new").is_none());
    assert_eq!(text(processed.get("other")), "data");
}

#[test]
fn test_filter_processor() {
    let processor = FilterProcessor::new("level_filter", |event: &Event| match event.get("level") {
        Some(v) => v.as_str() != Some("debug"),
        None => false,
    });
    let event1 = Event::new(json(r#"{"level": "info"}"#));
    assert!(processor.process(event1).is_ok());
    let event2 = Event::new(json(r#"{"level": "debug"}"#));
    let result2 = processor.process(event2);
    assert!(result2.is_err());
    assert_eq!(result2.err().unwrap(), "Event filtered by level_filter");
}

#[test]
fn test_simple_processor() {
    let processor = SimpleProcessor::new("test", "Test processor");
    let event = Event::new(json(r#"{"data": "test"}"#));
    let processed = processor.process(event).unwrap();
    assert_eq!(text(processed.get("data")), "test");
    assert_eq!(processor.name(), "test");
    assert_eq!(processor.description(), "Test processor");
}

#[test]
fn pipeline_test_pipeline_basic() {
    let mut pipeline = SimplePipeline::new();
    pipeline.add_function("add_field", |mut event: Event| {
        event.set("processed", JsonValue::Bool(true));
        Ok(event)
    });
    pipeline.add_function("modify", |mut event: Event| {
        let count = event.get("count").and_then(|v| v.as_i64());
        if let Some(num) = count {
            event.set("count", JsonValue::from_i64(num + 1));
        }
        Ok(event)
    });
    let event = Event::new(json(r#"{"count": 0}"#));
    let processed = pipeline.process(event).unwrap();
    assert_eq!(processed.get("processed").unwrap().as_bool(), Some(true));
    assert_eq!(num(processed.get("count")), 1);
    assert_eq!(pipeline.processor_count(), 2);
}

#[test]
fn test_pipeline_batch() {
    let mut pipeline = SimplePipeline::new();
    pipeline.add_function("increment", |mut event: Event| {
        let id = event.get("id").and_then(|v| v.as_i64());
        if let Some(num) = id {
            event.set("id", JsonValue::from_i64(num + 100));
        }
        Ok(event)
    });
    let events = vec![
        Event::new(json(r#"{"id": 1}"#)),
        Event::new(json(r#"{"id": 2}"#)),
        Event::new(json(r#"{"id": 3}"#)),
    ];
    let processed = pipeline.process_batch(events).unwrap();
    assert_eq!(processed.len(), 3);
    assert_eq!(num(processed[0].get("id")), 101);
    assert_eq!(num(processed[1].get("id")), 102);
    assert_eq!(num(processed[2].get("id")), 103);
}

#[test]
fn test_pipeline_error() {
    let mut pipeline = SimplePipeline::new();
    pipeline.add_function("error", |_event: Event| Err("Test error".to_string()));
    let event = Event::new(json("{}"));
    let result = pipeline.process(event);
    assert!(result.is_err());
    let error = result.unwrap_err();
    assert!(error.message().contains("Test error"));
    assert_eq!(error.message(), "Processor error: Processor 'error' (index 0) failed: Test error");
}

#[test]
fn test_pipeline_processor_management() {
    let mut pipeline = SimplePipeline::new();
    assert_eq!(pipeline.processor_count(), 0);
    pipeline.add_function("p1", |e: Event| Ok(e));
    pipeline.add_function("p2", |e: Event| Ok(e));
    assert_eq!(pipeline.processor_count(), 2);
    let removed = pipeline.remove_processor(0);
    assert!(removed.is_some());
    assert_eq!(pipeline.processor_count(), 1);
    assert_eq!(pipeline.get_processor(0).unwrap().name(), "p2");
    assert!(pipeline.remove_processor(5).is_none());
    pipeline.clear_processors();
    assert_eq!(pipeline.processor_count(), 0);
}

#[test]
fn test_empty_pipeline() {
    let pipeline = SimplePipeline::new();
    let event = Event::new(json(r#"{"test": "value"}"#));
    let id = event.id();
    let processed = pipeline.process(event).unwrap();
    assert_eq!(text(processed.get("test")), "value");
    assert_eq!(processed.id(), id);
}

#[test]
fn batch_error_names_the_event() {
    let mut pipeline = SimplePipeline::with_name("checks");
    assert_eq!(pipeline.name(), "checks");
    pipeline.add_function("ok", |e: Event| Ok(e));
    pipeline.add_function("needs_id", |e: Event| {
        if e.contains("id") {
            Ok(e)
        } else {
            Err("no id".to_string())
        }
    });
    let events = vec![Event::new(json(r#"{"id": 1}"#)), Event::new(json("{}"))];
    match pipeline.process_batch(events) {
        Err(PipelineError::BatchError { index, error }) => {
            assert_eq!(index, 1);
            assert_eq!(error, "Processor error: Processor 'needs_id' (index 1) failed: no id");
        },
        _ => panic!("expected a batch error"),
    }
    let e = PipelineError::BatchError { index: 1, error: "x".to_string() };
    assert_eq!(e.message(), "Batch processing error at index 1: x");
    assert_eq!(PipelineError::EmptyPipeline.message(), "Pipeline has no processors");
}

#[test]
fn event_size_counts_bytes() {
    let event = Event::new(json(r#"{"a": "bc"}"#));
    assert!(event.size() > 0);
}

#[test]
fn json_round_trip_keeps_the_timestamp() {
    let e = Event::new(JsonValue::parse(r#"{"a": 1}"#).unwrap());
    let back = Event::from_json(&e.to_json().unwrap()).unwrap();
    assert_eq!(back.timestamp(), e.timestamp());
    assert_eq!(back.id(), e.id());
}

#[test]
fn first_failing_processor_stops_the_pipeline() {
    let mut pipeline = SimplePipeline::new();
    pipeline.add_function("mark", |mut e: Event| {
        e.set("marked", JsonValue::Bool(true));
        Ok(e)
    });
    pipeline.add_function("first_bad", |_e: Event| Err("first".to_string()));
    pipeline.add_function("second_bad", |_e: Event| Err("second".to_string()));
    let error = pipeline.process(Event::new(json("{}"))).unwrap_err();
    assert_eq!(error.message(), "Processor error: Processor 'first_bad' (index 1) failed: first");
}

#[test]
fn batch_of_passing_events_passes_whole() {
    let mut pipeline = SimplePipeline::new();
    pipeline.add_function("tag", |mut e: Event| {
        e.set("tagged", JsonValue::Bool(true));
        Ok(e)
    });
    let events = vec![Event::new(json(r#"{"n": 1}"#)), Event::new(json(r#"{"n": 2}"#))];
    let out = pipeline.process_batch(events).unwrap();
    assert_eq!(out.len(), 2);
    assert_eq!(num(out[0].get("n")), 1);
    assert_eq!(num(out[1].get("n")), 2);
    assert!(out.iter().all(|e| e.get("tagged").is_some()));
}

#[test]
fn stamp_text_has_t_and_ends_with_offset() {
    let mut event = Event::new(json("{}"));
    event.ensure_timestamp();
    let s = text(event.get("@timestamp")).to_string();
    assert_eq!(s.len(), 35);
    assert_eq!(&s[10..11], "T");
    assert!(s.ends_with("+08:00"));
}

#[test]
fn deeply_nested_payload_round_trips() {
    let depth = 120;
    let text_in = format!("{}1{}", "[".repeat(depth), "]".repeat(depth));
    let e = Event::new(json(&text_in));
    let back = Event::from_json(&e.to_json().unwrap()).unwrap();
    assert_eq!(back.id(), e.id());
    assert_eq!(back.timestamp(), e.timestamp());
    assert_eq!(back.data().to_json_text(), e.data().to_json_text());
}
