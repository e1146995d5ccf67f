use gohangout_rs::cli::{example_config, parse_command, Command};
use gohangout_rs::event::Event;
use gohangout_rs::input::{create_decoder, CodecKind, Decoder, DecoderError, JsonDecoder, LineDecoder, LineEvent, LineSource, PlainDecoder, RandomInput, StdinInput};
use gohangout_rs::json::JsonValue;
use gohangout_rs::output::{create_formatter, Formatter, JsonFormatter, OutputFormat, PlainFormatter, PrettyFormatter, StdoutOutput};
use gohangout_rs::plugin::{Input, Output, PluginConfig, PluginError, PluginStatus, PluginType};
use gohangout_rs::watcher::{change_result, is_relevant_event, should_notify, ChangeKind, EventPath, WaitOutcome, WatcherError};

fn json(text: &str) -> JsonValue {
    JsonValue::parse(text).unwrap()
}

fn text(v: Option<&JsonValue>) -> &str {
    v.unwrap().as_str().unwrap()
}

#[test]
fn codec_test_json_decoder() {
    let decoder = JsonDecoder::new();
    let event = decoder.decode(r#"{"test": "value", "number": 42}"#).unwrap();
    assert_eq!(text(event.get("test")), "value");
    assert_eq!(event.get("number").unwrap().as_i64(), Some(42));
    assert_eq!(decoder.name(), "json");
    assert!(decoder.decode(r#"{"invalid: json}"#).is_err());
}

#[test]
fn codec_test_plain_decoder() {
    let decoder = PlainDecoder::new();
    let event = decoder.decode("Hello, world!").unwrap();
    assert_eq!(text(event.get("message")), "Hello, world!");
    assert_eq!(decoder.name(), "plain");
}

#[test]
fn codec_test_line_decoder() {
    let decoder = LineDecoder::new();
    let line = "2024-01-01 INFO: Test message";
    let event = decoder.decode(line).unwrap();
    assert_eq!(text(event.get("message")), line);
    assert_eq!(text(event.get("line")), line);
    assert_eq!(decoder.name(), "line");
}

#[test]
fn test_create_decoder() {
    assert!(create_decoder("json").is_ok());
    assert!(create_decoder("plain").is_ok());
    assert!(create_decoder("line").is_ok());
    assert!(create_decoder("JSON").is_ok());
    assert!(create_decoder("Plain").is_ok());
    assert!(create_decoder("LINE").is_ok());
    let result = create_decoder("invalid");
    assert!(result.is_err());
    assert!(matches!(result.err().unwrap(), DecoderError::UnsupportedCodec(_)));
    assert_eq!(create_decoder("Json").ok().unwrap().name(), "json");
}

#[test]
fn decoder_errors_read_as_displayed() {
    match JsonDecoder::new().decode("nope") {
        Err(e) => assert!(e.message().starts_with("JSON decode error: ")),
        Ok(_) => panic!("expected an error"),
    }
    assert_eq!(DecoderError::UnsupportedCodec("x".to_string()).message(), "Unsupported codec type: x");
    assert_eq!(DecoderError::InvalidFormat("y".to_string()).message(), "Invalid input format: y");
    assert_eq!(CodecKind::from_name("LiNe").ok(), Some(CodecKind::Line));
}

#[test]
fn stdin_tests_test_json_decoder() {
    let decoder = JsonDecoder::new();
    let event = decoder.decode(r#"{"message": "test", "level": "info"}"#).unwrap();
    assert_eq!(text(event.get("message")), "test");
    assert_eq!(text(event.get("level")), "info");
    assert!(decoder.decode(r#"{"invalid: json}"#).is_err());
}

#[test]
fn stdin_tests_test_plain_decoder() {
    let event = PlainDecoder::new().decode("Hello, world!").unwrap();
    assert_eq!(text(event.get("message")), "Hello, world!");
}

#[test]
fn stdin_tests_test_line_decoder() {
    let line = "2024-01-01 INFO: Application started";
    let event = LineDecoder::new().decode(line).unwrap();
    assert_eq!(text(event.get("message")), line);
}

#[test]
fn stdin_test_stdin_input_creation() {
    let config = PluginConfig::new("test_stdin", PluginType::Input);
    let input = StdinInput::from_config(&config).unwrap();
    assert_eq!(input.name(), "stdin");
    assert_eq!(input.codec_type(), "plain");
    assert_eq!(input.buffer_size(), 8192);
    assert!(input.add_fields().is_empty());
}

#[test]
fn stdin_tests_test_stdin_input_creation() {
    let config = PluginConfig::new("test_stdin", PluginType::Input);
    let input = StdinInput::from_config(&config).expect("Failed to create StdinInput");
    assert_eq!(input.name(), "stdin");
    assert_eq!(input.codec_type(), "plain");
}

#[test]
fn stdin_test_stdin_input_with_json_codec() {
    let mut config = PluginConfig::new("test_stdin", PluginType::Input);
    config.set_config("codec", JsonValue::from_text("json"));
    let input = StdinInput::from_config(&config).unwrap();
    assert_eq!(input.codec_type(), "json");
}

#[test]
fn stdin_tests_test_stdin_input_with_json_codec() {
    let mut config = PluginConfig::new("test_stdin", PluginType::Input);
    config.set_config("codec", JsonValue::from_text("json"));
    let input = StdinInput::from_config(&config).expect("Failed to create StdinInput with JSON codec");
    assert_eq!(input.codec_type(), "json");
}

#[test]
fn test_stdin_input_with_line_codec() {
    let mut config = PluginConfig::new("test_stdin", PluginType::Input);
    config.set_config("codec", JsonValue::from_text("line"));
    let input = StdinInput::from_config(&config).expect("Failed to create StdinInput with line codec");
    assert_eq!(input.codec_type(), "line");
}

#[test]
fn stdin_test_stdin_input_with_add_fields() {
    let mut config = PluginConfig::new("test_stdin", PluginType::Input);
    config.set_config("add_fields", json(r#"{"source": "stdin", "environment": "test"}"#));
    let input = StdinInput::from_config(&config).unwrap();
    let add_fields = input.add_fields();
    assert_eq!(text(add_fields.get("source")), "stdin");
    assert_eq!(text(add_fields.get("environment")), "test");
}

#[test]
fn stdin_tests_test_stdin_input_with_add_fields() {
    let mut config = PluginConfig::new("test_stdin", PluginType::Input);
    config.set_config("add_fields", json(r#"{"source": "stdin", "environment": "test"}"#));
    let input = StdinInput::from_config(&config).expect("Failed to create StdinInput with add_fields");
    assert_eq!(text(input.add_fields().get("source")), "stdin");
    assert_eq!(text(input.add_fields().get("environment")), "test");
}

#[test]
fn test_stdin_input_invalid_buffer_size() {
    let mut config = PluginConfig::new("test_stdin", PluginType::Input);
    config.set_config("buffer_size", JsonValue::from_u64(0));
    let result = StdinInput::from_config(&config);
    assert!(result.is_err());
    assert!(result.err().unwrap().message().contains("buffer_size"));
}

#[test]
fn stdin_test_stdin_input_invalid_codec() {
    let mut config = PluginConfig::new("test_stdin", PluginType::Input);
    config.set_config("codec", JsonValue::from_text("invalid_codec"));
    let result = StdinInput::from_config(&config);
    assert!(result.is_err());
    assert!(result.err().unwrap().message().contains("Unsupported codec"));
}

#[test]
fn stdin_tests_test_stdin_input_invalid_codec() {
    let mut config = PluginConfig::new("test_stdin", PluginType::Input);
    config.set_config("codec", JsonValue::from_text("invalid_codec"));
    let result = StdinInput::from_config(&config);
    assert!(result.is_err());
    assert!(result.err().unwrap().message().contains("Unsupported codec"));
}

#[test]
fn stdin_test_stdin_input_plugin_trait() {
    let config = PluginConfig::new("test_stdin", PluginType::Input);
    let input = StdinInput::from_config(&config).unwrap();
    assert_eq!(input.plugin_type(), PluginType::Input);
    assert!(input.validate_config().is_ok());
}

#[test]
fn test_stdin_input_apply_add_fields() {
    let mut config = PluginConfig::new("test_stdin", PluginType::Input);
    config.set_config("add_fields", json(r#"{"source": "stdin", "count": 1}"#));
    let input = StdinInput::from_config(&config).unwrap();
    let event = Event::new(json(r#"{"message": "test"}"#));
    let test_event = input.apply_add_fields(event.clone());
    assert_eq!(text(test_event.get("message")), "test");
    assert_eq!(text(test_event.get("source")), "stdin");
    assert_eq!(test_event.get("count").unwrap().as_i64(), Some(1));
}

#[test]
fn test_stdin_input_default() {
    let input = StdinInput::default();
    assert_eq!(input.name(), "stdin");
    assert_eq!(input.codec_type(), "plain");
    assert_eq!(input.buffer_size(), 8192);
    assert!(input.add_fields().is_empty());
}

#[test]
fn stdin_test_stdin_input_clone() {
    let config = PluginConfig::new("test_stdin", PluginType::Input);
    let input1 = StdinInput::from_config(&config).unwrap();
    let input2 = input1.clone();
    assert_eq!(input1.name(), input2.name());
    assert_eq!(input1.codec_type(), input2.codec_type());
    assert_eq!(input1.buffer_size(), input2.buffer_size());
}

#[test]
fn stdin_tests_test_stdin_input_clone() {
    let config = PluginConfig::new("test_stdin", PluginType::Input);
    let input1 = StdinInput::from_config(&config).unwrap();
    let input2 = input1.clone();
    assert_eq!(input1.name(), input2.name());
    assert_eq!(input1.codec_type(), input2.codec_type());
    assert_eq!(input1.buffer_size(), input2.buffer_size());
}

#[test]
fn test_stdin_input_stats() {
    let config = PluginConfig::new("test_stdin", PluginType::Input);
    let input = StdinInput::from_config(&config).unwrap();
    let stats = input.stats();
    assert_eq!(stats.events_read, 0);
    assert_eq!(stats.bytes_read, 0);
    assert_eq!(stats.errors, 0);
}

#[test]
fn test_stdin_input_config_validation() {
    let mut config = PluginConfig::new("test_stdin", PluginType::Input);
    config.set_config("buffer_size", JsonValue::from_u64(0));
    let result = StdinInput::from_config(&config);
    assert!(result.is_err());
    assert!(result.err().unwrap().message().contains("buffer_size"));
    let mut config = PluginConfig::new("test_stdin", PluginType::Input);
    config.set_config("buffer_size", JsonValue::from_i64(-1));
    let input = StdinInput::from_config(&config).unwrap();
    assert_eq!(input.buffer_size(), 8192);
}

#[test]
fn test_stdin_input_default_values() {
    let config = PluginConfig::new("test_stdin", PluginType::Input);
    let input = StdinInput::from_config(&config).unwrap();
    assert_eq!(input.codec_type(), "plain");
    assert_eq!(input.buffer_size(), 8192);
    assert!(input.add_fields().is_empty());
}

struct Lines {
    items: Vec<LineEvent>,
}

impl LineSource for Lines {
    fn next_line(&mut self) -> LineEvent {
        if self.items.is_empty() {
            LineEvent::Empty
        } else {
            self.items.remove(0)
        }
    }
    fn has_line(&self) -> bool {
        !self.items.is_empty()
    }
}

#[test]
fn stdin_reads_decodes_and_adds_fields() {
    let mut config = PluginConfig::new("in", PluginType::Input);
    config.set_config("codec", JsonValue::from_text("json"));
    config.set_config("add_fields", json(r#"{"source": "stdin"}"#));
    let mut input = StdinInput::from_config(&config).unwrap();
    match input.read() {
        Err(PluginError::ExecutionError(m)) => assert_eq!(m, "StdinInput reader not initialized"),
        _ => panic!("expected an error before a reader is attached"),
    }
    input.attach(Box::new(Lines {
        items: vec![
            LineEvent::Line { text: r#"{"a": 1}"#.to_string(), bytes: 9 },
            LineEvent::Line { text: "not json".to_string(), bytes: 9 },
            LineEvent::Failed("broken pipe".to_string()),
            LineEvent::Eof,
        ],
    }));
    assert!(input.is_ready());
    let e = input.read().unwrap().unwrap();
    assert_eq!(e.get("a").unwrap().as_i64(), Some(1));
    assert_eq!(text(e.get("source")), "stdin");
    match input.read() {
        Err(PluginError::ExecutionError(m)) => assert!(m.starts_with("JSON decode error: ")),
        _ => panic!("expected a decode error"),
    }
    assert!(matches!(input.read(), Err(PluginError::IoError(_))));
    assert!(input.read().unwrap().is_none());
    assert!(input.read().unwrap().is_none());
    let stats = input.stats();
    assert_eq!(stats.events_read, 2);
    assert_eq!(stats.bytes_read, 18);
    assert_eq!(stats.errors, 2);
    assert!(input.shutdown().is_ok());
    assert!(!input.is_ready());
}

#[test]
fn stdin_initialize_takes_the_codec_setting() {
    let mut input = StdinInput::default();
    input.config_mut().insert("codec".to_string(), JsonValue::from_text("LINE"));
    assert!(input.initialize().is_ok());
    assert_eq!(input.codec_type(), "line");
    input.config_mut().insert("codec".to_string(), JsonValue::from_text("xml"));
    match input.initialize() {
        Err(PluginError::ConfigurationError(m)) => assert_eq!(m, "Unsupported codec type: xml"),
        _ => panic!("expected a configuration error"),
    }
}

fn random_config(pairs: &[(&str, i64)]) -> PluginConfig {
    let mut config = PluginConfig::new("rand", PluginType::Input);
    for (k, v) in pairs {
        config.set_config(k, JsonValue::from_i64(*v));
    }
    config
}

#[test]
fn random_input_stays_in_its_range() {
    let mut input = RandomInput::from_config(&random_config(&[("from", 1), ("to", 10)])).unwrap();
    input.initialize().unwrap();
    for _ in 0..50 {
        let event = input.read().unwrap().unwrap();
        let n: i64 = text(event.get("message")).parse().unwrap();
        assert!((1..=10).contains(&n));
    }
    assert_eq!(input.stats().events_read, 50);
    assert_eq!(input.name(), "rand");
}

#[test]
fn random_input_stops_after_max_messages() {
    let mut input = RandomInput::from_config(&random_config(&[("from", 5), ("to", 5), ("max_messages", 2)])).unwrap();
    assert_eq!(input.status(), PluginStatus::Ready);
    assert_eq!(text(input.read().unwrap().unwrap().get("message")), "5");
    assert!(input.read().unwrap().is_some());
    assert!(input.read().unwrap().is_none());
    assert_eq!(input.status(), PluginStatus::Stopped);
    input.initialize().unwrap();
    assert_eq!(input.status(), PluginStatus::Ready);
}

#[test]
fn random_input_checks_its_settings() {
    let err = |c: PluginConfig| RandomInput::from_config(&c).err().unwrap().message();
    assert_eq!(err(random_config(&[("to", 1)])), "Plugin configuration error: from must be configured in Random Input");
    assert_eq!(err(random_config(&[("from", 1)])), "Plugin configuration error: to must be configured in Random Input");
    assert_eq!(
        err(random_config(&[("from", 3), ("to", -2)])),
        "Plugin configuration error: from (3) must be less than or equal to to (-2)"
    );
    let d = RandomInput::default();
    assert_eq!(d.name(), "random");
}

#[test]
fn output_format_names() {
    assert_eq!(OutputFormat::from_str("JSON"), Some(OutputFormat::Json));
    assert_eq!(OutputFormat::from_str("pretty"), Some(OutputFormat::Pretty));
    assert_eq!(OutputFormat::from_str("Plain"), Some(OutputFormat::Plain));
    assert_eq!(OutputFormat::from_str("xml"), None);
    assert_eq!(OutputFormat::Pretty.as_str(), "pretty");
}

#[test]
fn json_formatter_writes_the_payload() {
    let event = Event::new(json(r#"{"b": 2, "a": "x"}"#));
    assert_eq!(JsonFormatter::new(false).format(&event).unwrap(), r#"{"a":"x","b":2}"#);
    let pretty = JsonFormatter::new(true).format(&event).unwrap();
    assert!(pretty.contains("\n"));
}

#[test]
fn plain_formatter_parts() {
    let event = Event::new(json(r#"{"timestamp": "T0", "msg": "hi", "n": 3, "ok": true, "list": [1], "nul": null}"#));
    let f = PlainFormatter::new(true, vec![]);
    assert_eq!(f.format(&event).unwrap(), "T0 msg=hi n=3 ok=true timestamp=T0");
    let f = PlainFormatter::new(false, vec!["msg".to_string(), "missing".to_string(), "list".to_string(), "nul".to_string()]);
    assert_eq!(f.format(&event).unwrap(), "hi - [1] null");
    assert_eq!(f.extract_field(event.data(), "ok"), "true");
}

#[test]
fn pretty_formatter_layout() {
    let event = Event::new(json(r#"{"level": "ERROR", "message": "boom", "code": [1, 2], "ctx": {"k": "v"}}"#));
    let plain = PrettyFormatter::new(false).format(&event).unwrap();
    assert_eq!(
        plain,
        "=== Event ===\nLevel: ERROR\nMessage: boom\ncode: [1, 2]\nctx: {k: \"v\"}\n============="
    );
    let f = PrettyFormatter::new(true);
    assert_eq!(f.colorize("x", "1;31"), "\x1b[1;31mx\x1b[0m");
    let coloured = f.format(&event).unwrap();
    assert!(coloured.contains("\x1b[1;31mERROR\x1b[0m"));
}

#[test]
fn batches_join_lines() {
    let events = vec![Event::new(json(r#"{"a": 1}"#)), Event::new(json(r#"{"a": 2}"#))];
    let f = JsonFormatter::new(false);
    assert_eq!(f.format_batch(&events).unwrap(), "{\"a\":1}\n{\"a\":2}");
    let stamped = f.format_batch_with_timestamp(&events).unwrap();
    assert_eq!(stamped.lines().count(), 2);
    assert!(stamped.contains("@timestamp"));
    assert!(create_formatter(OutputFormat::Plain, &gohangout_rs::json::ObjectMap::new()).is_ok());
}

fn stdout_config(pairs: &[(&str, JsonValue)]) -> PluginConfig {
    let mut config = PluginConfig::new("test_stdout", PluginType::Output);
    for (k, v) in pairs {
        config.set_config(k, v.clone());
    }
    config
}

#[test]
fn test_stdout_output_default() {
    let mut plugin = StdoutOutput::from_config(&stdout_config(&[])).unwrap();
    assert_eq!(plugin.name(), "test_stdout");
    assert_eq!(plugin.plugin_type(), PluginType::Output);
    assert!(plugin.validate_config().is_ok());
    plugin.initialize().unwrap();
    let event = Event::new(json(r#"{"message": "Test message", "level": "INFO"}"#));
    assert!(plugin.write(event).is_ok());
    assert!(plugin.flush().is_ok());
    plugin.shutdown().unwrap();
    let out = plugin.take_output();
    assert_eq!(out.len(), 1);
    assert!(out[0].ends_with('\n'));
    assert!(out[0].contains("Test message"));
    assert_eq!(plugin.stats().events_written, 1);
}

#[test]
fn test_stdout_output_validation_errors() {
    let plugin = StdoutOutput::from_config(&stdout_config(&[("buffer_size", JsonValue::from_u64(0))])).unwrap();
    assert!(plugin.validate_config().err().unwrap().message().contains("Buffer size"));
    let plugin2 = StdoutOutput::from_config(&stdout_config(&[("flush_interval", JsonValue::from_u64(0))])).unwrap();
    assert!(plugin2.validate_config().err().unwrap().message().contains("Flush interval"));
    let plugin3 = StdoutOutput::from_config(&stdout_config(&[("buffer_size", JsonValue::from_u64(2_000_000))])).unwrap();
    assert_eq!(
        plugin3.validate_config().err().unwrap().message(),
        "Plugin configuration error: Buffer size cannot exceed 1,000,000"
    );
    let result = StdoutOutput::from_config(&stdout_config(&[("format", JsonValue::from_text("invalid_format"))]));
    assert!(result.err().unwrap().message().contains("Invalid output format"));
}

#[test]
fn test_stdout_output_batch_write() {
    let mut plugin = StdoutOutput::from_config(&stdout_config(&[("buffer_size", JsonValue::from_u64(4))])).unwrap();
    let few: Vec<Event> = (0..3).map(|i| Event::new(JsonValue::from_u64(i))).collect();
    plugin.write_batch(few).unwrap();
    assert_eq!(plugin.take_output().len(), 3);
    let many: Vec<Event> = (0..11).map(|i| Event::new(JsonValue::from_u64(i))).collect();
    plugin.write_batch(many).unwrap();
    assert_eq!(plugin.take_output().len(), 2);
    assert!(plugin.needs_flush(None) == false);
    plugin.flush().unwrap();
    let rest = plugin.take_output();
    assert_eq!(rest.len(), 1);
    assert_eq!(rest[0].lines().count(), 3);
    assert!(plugin.write_batch(vec![]).is_ok());
    assert!(plugin.take_output().is_empty());
}

#[test]
fn stdout_needs_flush_by_time() {
    let plugin = StdoutOutput::from_config(&stdout_config(&[("flush_interval", JsonValue::from_u64(50))])).unwrap();
    assert!(!plugin.needs_flush(Some(49)));
    assert!(plugin.needs_flush(Some(50)));
    assert!(!plugin.needs_flush(None));
    let d = StdoutOutput::default();
    assert_eq!(d.name(), "stdout");
}

#[test]
fn watcher_decisions() {
    let file = EventPath { path: "/etc/app/config.yaml".to_string(), file_name: Some("config.yaml".to_string()) };
    let same = EventPath { path: "/etc/app/config.yaml".to_string(), file_name: Some("config.yaml".to_string()) };
    let moved = EventPath { path: "/tmp/x/config.yaml".to_string(), file_name: Some("config.yaml".to_string()) };
    let other = EventPath { path: "/etc/app/other.yaml".to_string(), file_name: Some("other.yaml".to_string()) };
    assert!(is_relevant_event(&file, ChangeKind::Other, &vec![other, same]));
    let moved2 = EventPath { path: moved.path.clone(), file_name: moved.file_name.clone() };
    assert!(is_relevant_event(&file, ChangeKind::RenameTo, &vec![moved]));
    assert!(!is_relevant_event(&file, ChangeKind::RenameFrom, &vec![moved2]));
    assert!(!is_relevant_event(&file, ChangeKind::Other, &vec![]));
    assert!(should_notify(None, 0, 100));
    assert!(!should_notify(Some(1000), 1050, 100));
    assert!(should_notify(Some(1000), 1100, 100));
    assert!(!should_notify(Some(1000), 900, 100));
    assert!(change_result(WaitOutcome::Changed).is_ok());
    assert!(matches!(change_result(WaitOutcome::Closed), Err(WatcherError::Stopped)));
    assert_eq!(change_result(WaitOutcome::TimedOut).unwrap_err().message(), "Timeout waiting for file change");
    assert_eq!(WatcherError::FileNotFound("/x".to_string()).message(), "File not found: /x");
}

#[test]
fn command_line() {
    let args = |v: &[&str]| v.iter().map(|s| s.to_string()).collect::<Vec<String>>();
    assert!(matches!(parse_command(&args(&["prog"])), Command::Usage));
    assert!(matches!(parse_command(&args(&["prog", "run"])), Command::MissingConfig));
    match parse_command(&args(&["prog", "run", "c.yaml"])) {
        Command::Run(p) => assert_eq!(p, "c.yaml"),
        _ => panic!("expected run"),
    }
    assert!(matches!(parse_command(&args(&["prog", "demo"])), Command::Demo));
    assert!(matches!(parse_command(&args(&["prog", "test"])), Command::Test));
    assert!(matches!(parse_command(&args(&["prog", "-h"])), Command::Help));
    assert!(matches!(parse_command(&args(&["prog", "--version"])), Command::Version));
    match parse_command(&args(&["prog", "launch"])) {
        Command::Unknown(w) => assert_eq!(w, "launch"),
        _ => panic!("expected unknown"),
    }
    assert!(example_config().starts_with("# Example GoHangout-rs configuration\ninputs:"));
}

#[test]
fn create_decoder_gives_the_named_codec() {
    assert_eq!(create_decoder("Plain").ok().unwrap().name(), "plain");
    assert_eq!(create_decoder("LINE").ok().unwrap().name(), "line");
    let d = create_decoder("plain").ok().unwrap();
    let e = d.decode("hello").unwrap();
    assert_eq!(text(e.get("message")), "hello");
}

#[test]
fn stdin_line_events_each_give_their_result() {
    let mut input = StdinInput::default();
    let e = input.on_line_event(LineEvent::Line { text: "hi".to_string(), bytes: 3 }).unwrap().unwrap();
    assert_eq!(text(e.get("message")), "hi");
    assert!(input.on_line_event(LineEvent::Empty).unwrap().is_none());
    assert!(input.on_line_event(LineEvent::Eof).unwrap().is_none());
    assert!(matches!(input.on_line_event(LineEvent::Failed("x".to_string())), Err(PluginError::IoError(m)) if m == "x"));
    assert!(matches!(input.on_line_event(LineEvent::Disconnected), Err(PluginError::ExecutionError(m)) if m == "StdinInput reader disconnected"));
    let stats = input.stats();
    assert_eq!(stats.events_read, 1);
    assert_eq!(stats.bytes_read, 3);
    assert_eq!(stats.errors, 1);
}

#[test]
fn stdout_default_factory_creates_stdout() {
    let f = gohangout_rs::output::default_factory();
    assert_eq!(f.supported_plugins(PluginType::Output), vec!["stdout".to_string()]);
    assert!(f.supported_plugins(PluginType::Input).is_empty());
    let o = f.create_output(&PluginConfig::new("stdout", PluginType::Output)).ok().unwrap();
    assert_eq!(o.name(), "stdout");
}

#[test]
fn fresh_stdout_output_counts_nothing() {
    let o = StdoutOutput::from_config(&PluginConfig::new("out", PluginType::Output)).ok().unwrap();
    assert_eq!(o.stats().events_written, 0);
}

#[test]
fn pretty_output_is_framed_with_and_without_colour() {
    let e = Event::new(json(r#"{"message": "hi", "level": "INFO", "n": 1}"#));
    let coloured = PrettyFormatter::new(true).format(&e).unwrap();
    assert!(coloured.starts_with("\x1b[1;36m=== Event ===\x1b[0m\n"));
    assert!(coloured.ends_with("\x1b[1;36m=============\x1b[0m"));
    let plain = PrettyFormatter::new(false).format(&e).unwrap();
    assert!(plain.starts_with("=== Event ===\n"));
    assert!(plain.ends_with("============="));
    assert!(!plain.contains('\x1b'));
}


fn named_stdout(name: &str, pairs: &[(&str, JsonValue)]) -> PluginConfig {
    let mut config = PluginConfig::new(name, PluginType::Output);
    for (k, v) in pairs {
        config.set_config(k, v.clone());
    }
    config
}

#[test]
fn test_stdout_output_json_format() {
    let plugin = StdoutOutput::from_config(&named_stdout(
        "test_json",
        &[("format", JsonValue::from_text("json")), ("pretty", JsonValue::Bool(false))],
    ))
    .unwrap();
    assert_eq!(plugin.name(), "test_json");
    assert!(plugin.validate_config().is_ok());
}

#[test]
fn test_stdout_output_pretty_format() {
    let plugin = StdoutOutput::from_config(&named_stdout(
        "test_pretty",
        &[("format", JsonValue::from_text("pretty")), ("color", JsonValue::Bool(false))],
    ))
    .unwrap();
    assert_eq!(plugin.name(), "test_pretty");
    assert!(plugin.validate_config().is_ok());
}

#[test]
fn test_stdout_output_plain_format() {
    let plugin = StdoutOutput::from_config(&named_stdout(
        "test_plain",
        &[("format", JsonValue::from_text("plain")), ("timestamp", JsonValue::Bool(true))],
    ))
    .unwrap();
    assert_eq!(plugin.name(), "test_plain");
    assert!(plugin.validate_config().is_ok());
}

#[test]
fn test_stdout_output_buffer_config() {
    let plugin = StdoutOutput::from_config(&named_stdout(
        "test_buffer",
        &[("buffer_size", JsonValue::from_u64(4096)), ("flush_interval", JsonValue::from_u64(500))],
    ))
    .unwrap();
    assert!(plugin.validate_config().is_ok());
}

#[test]
fn test_stdout_output_stats() {
    let mut plugin = StdoutOutput::from_config(&named_stdout("test_stats", &[])).unwrap();
    plugin.initialize().unwrap();
    assert_eq!(plugin.stats().events_written, 0);
    let event = Event::new(json(r#"{"test": "value"}"#));
    plugin.write(event.clone()).unwrap();
    plugin.write(event.clone()).unwrap();
    assert_eq!(plugin.stats().events_written, 2);
    plugin.shutdown().unwrap();
    assert_eq!(plugin.stats().events_written, 2);
}

#[test]
fn test_stdout_output_registration() {
    let factory = gohangout_rs::output::default_factory();
    assert!(factory.supports_plugin("stdout", PluginType::Output));
    let config = named_stdout("stdout", &[("format", JsonValue::from_text("json"))]);
    let plugin = factory.create_output(&config);
    assert!(plugin.is_ok());
    let mut plugin = plugin.ok().unwrap();
    plugin.initialize().unwrap();
    let event = Event::new(json(r#"{"test": "registered"}"#));
    assert!(plugin.write(event).is_ok());
    plugin.shutdown().unwrap();
}

#[test]
fn test_stdout_output_various_events() {
    let mut plugin = StdoutOutput::from_config(&named_stdout("test_various", &[])).unwrap();
    plugin.initialize().unwrap();
    assert!(plugin.write(Event::new(json(r#"{"message": "Simple message"}"#))).is_ok());
    let complex = json(
        r#"{"user": {"id": 123, "name": "Test User", "email": "test@example.com"},
            "request": {"method": "GET", "path": "/api/test", "status": 200}}"#,
    );
    assert!(plugin.write(Event::new(complex)).is_ok());
    let arrays = json(r#"{"tags": ["rust", "testing", "etl"], "numbers": [1, 2, 3, 4, 5]}"#);
    assert!(plugin.write(Event::new(arrays)).is_ok());
    plugin.shutdown().unwrap();
    assert_eq!(plugin.take_output().len(), 3);
}

#[test]
fn stdin_lines_come_out_in_order() {
    let mut input = StdinInput::default();
    let lines = ["first", "second", "third"];
    let mut seen = Vec::new();
    for l in lines.iter() {
        let e = input.on_line_event(LineEvent::Line { text: l.to_string(), bytes: l.len() as u64 + 1 }).unwrap().unwrap();
        seen.push(text(e.get("message")).to_string());
    }
    assert_eq!(seen, vec!["first".to_string(), "second".to_string(), "third".to_string()]);
    assert_eq!(input.stats().events_read, 3);
}

#[test]
fn uncoloured_pretty_output_has_no_escape() {
    let event = Event::new(json(r#"{"level": "WARN", "message": "m", "nested": {"inner": "\u001b[31mred"}, "list": ["\u001b"]}"#));
    let plain = PrettyFormatter::new(false).format(&event).unwrap();
    assert!(!plain.contains('\x1b'));
    assert!(plain.contains("\\u001b"));
    let coloured = PrettyFormatter::new(true).format(&event).unwrap();
    assert!(coloured.contains('\x1b'));
}

#[test]
fn plain_output_skips_compound_fields() {
    let event = Event::new(json(r#"{"a": "x", "b": [1], "c": {"d": 1}, "e": null, "f": 2.5, "g": false}"#));
    let f = PlainFormatter::new(false, vec![]);
    assert_eq!(f.format(&event).unwrap(), "a=x f=2.5 g=false");
    let not_object = Event::new(json("3"));
    assert_eq!(PlainFormatter::new(true, vec![]).format(&not_object).unwrap(), "");
}

#[test]
fn stdout_small_batch_keeps_event_order() {
    let mut plugin = StdoutOutput::from_config(&stdout_config(&[])).unwrap();
    let events: Vec<Event> = (1..=4).map(|i| Event::new(json(&format!(r#"{{"n": {}}}"#, i)))).collect();
    plugin.write_batch(events).unwrap();
    let out = plugin.take_output();
    assert_eq!(out.len(), 4);
    for (i, line) in out.iter().enumerate() {
        assert!(line.contains(&format!("\"n\":{}", i + 1)));
        assert!(line.contains("@timestamp"));
        assert!(line.ends_with('\n'));
    }
}

#[test]
fn stdout_flush_writes_gathered_group_as_one_piece() {
    let mut plugin = StdoutOutput::from_config(&stdout_config(&[("buffer_size", JsonValue::from_u64(100))])).unwrap();
    let many: Vec<Event> = (0..12).map(|i| Event::new(json(&format!(r#"{{"k": {}}}"#, i)))).collect();
    plugin.write_batch(many).unwrap();
    assert!(plugin.take_output().is_empty());
    plugin.flush().unwrap();
    let out = plugin.take_output();
    assert_eq!(out.len(), 1);
    let lines: Vec<&str> = out[0].lines().collect();
    assert_eq!(lines.len(), 12);
    for (i, l) in lines.iter().enumerate() {
        assert!(l.contains(&format!("\"k\":{}", i)));
    }
}

#[test]
fn compact_json_output_is_one_line() {
    let event = Event::new(json(r#"{"text": "two\nlines", "tab": "a\tb", "nested": {"x": [1, 2]}}"#));
    let out = JsonFormatter::new(false).format(&event).unwrap();
    assert!(!out.contains('\n'));
    assert!(out.chars().all(|c| c as u32 >= 0x20));
    assert!(out.contains("two\\nlines"));
}
