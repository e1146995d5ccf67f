use gohangout_rs::config::defaults::{DEFAULT_BATCH_SIZE, DEFAULT_BUFFER_SIZE, DEFAULT_WORKERS};
use gohangout_rs::config::loader::parse_usize;
use gohangout_rs::config::{AppConfig, ConfigError, ConfigLoader, ConfigValidator, FilterConfig, InputConfig, OutputConfig};
use gohangout_rs::json::{JsonValue, ObjectMap};

fn settings(pairs: &[(&str, &str)]) -> ObjectMap {
    let mut m = ObjectMap::new();
    for (k, v) in pairs {
        m.insert(k.to_string(), JsonValue::from_text(v));
    }
    m
}

fn input(kind: &str) -> InputConfig {
    InputConfig { kind: kind.to_string(), config: ObjectMap::new() }
}

fn output(kind: &str) -> OutputConfig {
    OutputConfig { kind: kind.to_string(), config: ObjectMap::new() }
}

fn filter(kind: &str) -> FilterConfig {
    FilterConfig { kind: kind.to_string(), config: ObjectMap::new(), condition: None }
}

fn config(workers: usize, batch_size: usize, inputs: Vec<InputConfig>, filters: Vec<FilterConfig>, outputs: Vec<OutputConfig>) -> AppConfig {
    AppConfig { inputs, filters, outputs, workers, batch_size, buffer_size: DEFAULT_BUFFER_SIZE }
}

#[test]
fn test_load_valid_config() {
    let mut stdin = input("stdin");
    stdin.config = settings(&[("codec", "json")]);
    let mut stdout = output("stdout");
    stdout.config = settings(&[("format", "json")]);
    let parsed = config(2, 500, vec![stdin], vec![], vec![stdout]);
    let loader = ConfigLoader::new();
    let config = loader.load_parsed(parsed, None, None).expect("Failed to load config");
    assert_eq!(config.workers, 2);
    assert_eq!(config.batch_size, 500);
    assert_eq!(config.inputs.len(), 1);
    assert_eq!(config.outputs.len(), 1);
}

#[test]
fn test_load_invalid_config() {
    let parsed = config(0, DEFAULT_BATCH_SIZE, vec![], vec![], vec![]);
    let loader = ConfigLoader::new();
    let result = loader.load_parsed(parsed, None, None);
    assert!(result.is_err());
    assert!(matches!(result.unwrap_err(), ConfigError::ValidationError(_)));
}

#[test]
fn test_load_without_validation() {
    let parsed = config(0, DEFAULT_BATCH_SIZE, vec![], vec![], vec![]);
    let loader = ConfigLoader::without_validation();
    let config = loader.load_parsed(parsed, None, None).expect("Failed to load config");
    assert_eq!(config.workers, 0);
}

#[test]
fn test_env_overrides() {
    let parsed = config(2, 500, vec![input("stdin")], vec![], vec![output("stdout")]);
    let loader = ConfigLoader::new();
    let config = loader
        .load_parsed(parsed, Some("8".to_string()), Some("2000".to_string()))
        .expect("Failed to load config");
    assert_eq!(config.workers, 8);
    assert_eq!(config.batch_size, 2000);
}

#[test]
fn env_overrides_that_do_not_parse_are_ignored() {
    let parsed = config(2, 500, vec![input("stdin")], vec![], vec![output("stdout")]);
    let loader = ConfigLoader::new();
    let config = loader
        .load_parsed(parsed, Some("eight".to_string()), Some("-1".to_string()))
        .expect("Failed to load config");
    assert_eq!(config.workers, 2);
    assert_eq!(config.batch_size, 500);
    assert_eq!(parse_usize("+7"), Some(7));
    assert_eq!(parse_usize(""), None);
    assert_eq!(parse_usize("18446744073709551616"), None);
}

#[test]
fn test_merge_configs() {
    let base = config(2, 500, vec![input("stdin")], vec![], vec![]);
    let mut kafka = input("kafka");
    kafka.config = settings(&[("brokers", "localhost:9092")]);
    let over = config(4, 1000, vec![kafka], vec![], vec![output("stdout")]);
    let loader = ConfigLoader::new();
    let config = loader.merge_loaded(vec![base, over]).expect("Failed to load merged config");
    assert_eq!(config.workers, 4);
    assert_eq!(config.batch_size, 1000);
    assert_eq!(config.inputs.len(), 2);
    assert_eq!(config.inputs[0].kind, "stdin");
    assert_eq!(config.inputs[1].kind, "kafka");
    assert_eq!(config.outputs.len(), 1);
    assert_eq!(config.outputs[0].kind, "stdout");
}

#[test]
fn merging_takes_the_sizes_of_the_second() {
    let base = config(2, 500, vec![input("stdin")], vec![], vec![output("stdout")]);
    let over = config(DEFAULT_WORKERS, 700, vec![input("tcp")], vec![], vec![]);
    let mut merged = base;
    ConfigLoader::new().merge_configs(&mut merged, over);
    assert_eq!(merged.workers, DEFAULT_WORKERS);
    assert_eq!(merged.batch_size, 700);
    assert_eq!(merged.inputs.len(), 2);
    assert_eq!(merged.outputs.len(), 1);
}

#[test]
fn an_unknown_type_is_reported_with_the_allowed_ones() {
    let v = ConfigValidator::with_allowed_types(vec!["a".to_string(), "b".to_string()], vec![], vec!["o".to_string()]);
    let c = AppConfig { workers: 1, batch_size: 1, buffer_size: 1, inputs: vec![input("x")], filters: vec![], outputs: vec![output("o")] };
    assert_eq!(v.validate(&c).unwrap_err(), vec!["input[0]: unknown input type 'x'. Allowed: a, b".to_string()]);
}

#[test]
fn test_validate_valid_config() {
    let mut stdin = input("stdin");
    stdin.config = settings(&[("codec", "json")]);
    let mut add = filter("add");
    add.config = settings(&[("field", "host"), ("value", "localhost")]);
    let mut stdout = output("stdout");
    stdout.config = settings(&[("format", "json")]);
    let config = AppConfig { workers: 4, batch_size: 1000, buffer_size: 10000, inputs: vec![stdin], filters: vec![add], outputs: vec![stdout] };
    let validator = ConfigValidator::new();
    assert!(validator.validate(&config).is_ok());
}

#[test]
fn test_validate_invalid_workers() {
    let config = AppConfig { workers: 0, batch_size: 1000, buffer_size: 10000, inputs: vec![input("stdin")], filters: vec![], outputs: vec![output("stdout")] };
    let result = ConfigValidator::new().validate(&config);
    assert!(result.is_err());
    let errors = result.unwrap_err();
    assert!(errors.iter().any(|e| e.contains("workers")));
}

#[test]
fn test_validate_unknown_input_type() {
    let config = AppConfig { workers: 4, batch_size: 1000, buffer_size: 10000, inputs: vec![input("unknown_input")], filters: vec![], outputs: vec![output("stdout")] };
    let result = ConfigValidator::new().validate(&config);
    assert!(result.is_err());
    let errors = result.unwrap_err();
    assert!(errors.iter().any(|e| e.contains("unknown_input")));
}

#[test]
fn test_validate_empty_config() {
    let config = AppConfig { workers: 4, batch_size: 1000, buffer_size: 10000, inputs: vec![], filters: vec![], outputs: vec![] };
    let result = ConfigValidator::new().validate(&config);
    assert!(result.is_err());
    let errors = result.unwrap_err();
    assert!(errors.iter().any(|e| e.contains("at least one input")));
    assert!(errors.iter().any(|e| e.contains("at least one output")));
}

#[test]
fn test_custom_allowed_types() {
    let validator = ConfigValidator::with_allowed_types(
        vec!["custom_input".to_string()],
        vec!["custom_filter".to_string()],
        vec!["custom_output".to_string()],
    );
    let config = AppConfig {
        workers: 4,
        batch_size: 1000,
        buffer_size: 10000,
        inputs: vec![input("custom_input")],
        filters: vec![filter("custom_filter")],
        outputs: vec![output("custom_output")],
    };
    assert!(validator.validate(&config).is_ok());
}

#[test]
fn test_duplicate_inputs() {
    let mut a = input("stdin");
    a.config = settings(&[("codec", "json")]);
    let mut b = input("stdin");
    b.config = settings(&[("codec", "json")]);
    let config = AppConfig { workers: 4, batch_size: 1000, buffer_size: 10000, inputs: vec![a, b], filters: vec![], outputs: vec![output("stdout")] };
    let result = ConfigValidator::new().validate(&config);
    assert!(result.is_err());
    let errors = result.unwrap_err();
    assert!(errors.iter().any(|e| e.contains("duplicate")));
}

#[test]
fn test_config_validation() {
    let config = config(0, 1000, vec![], vec![], vec![]);
    let result = ConfigValidator::new().validate(&config);
    assert!(result.is_err());
    assert!(result.unwrap_err().join("; ").contains("workers"));
}

#[test]
fn test_config_default_values() {
    let config = AppConfig::new();
    assert_eq!(config.workers, DEFAULT_WORKERS);
    assert_eq!(config.batch_size, DEFAULT_BATCH_SIZE);
    assert_eq!(config.buffer_size, DEFAULT_BUFFER_SIZE);
    assert!(config.is_empty());
}

#[test]
fn app_config_validate_reports_the_first_problem() {
    let mut c = config(4, 0, vec![], vec![], vec![]);
    assert_eq!(c.validate().unwrap_err(), "batch_size must be greater than 0");
    c.batch_size = 10;
    assert_eq!(c.validate().unwrap_err(), "at least one input must be configured");
    c.inputs.push(input("stdin"));
    assert_eq!(c.validate().unwrap_err(), "at least one output must be configured");
    c.outputs.push(output("stdout"));
    assert!(c.validate().is_ok());
    assert_eq!(c.total_plugins(), 2);
}

#[test]
fn validator_allowed_types_can_grow() {
    let mut v = ConfigValidator::new();
    assert!(!v.allowed_inputs().iter().any(|t| t == "file"));
    v.add_input_type("file".to_string());
    v.add_input_type("file".to_string());
    assert_eq!(v.allowed_inputs().iter().filter(|t| *t == "file").count(), 1);
    v.add_filter_type("rename".to_string());
    assert!(v.allowed_filters().iter().any(|t| t == "rename"));
    v.add_output_type("file".to_string());
    assert!(v.allowed_outputs().iter().any(|t| t == "file"));
}

#[test]
fn config_error_messages_name_the_failure() {
    assert_eq!(
        ConfigError::ValidationError("no inputs".to_string()).message(),
        "Configuration validation failed: no inputs"
    );
    assert_eq!(
        ConfigError::FileReadError("missing".to_string()).message(),
        "Failed to read configuration file: missing"
    );
    assert_eq!(
        ConfigError::ParseError("bad yaml".to_string()).message(),
        "Failed to parse YAML configuration: bad yaml"
    );
    assert_eq!(
        ConfigError::EnvError("not unicode".to_string()).message(),
        "Failed to read environment variable: not unicode"
    );
}

#[test]
fn test_config_loader_from_file() {
    let parsed = config(2, 500, vec![], vec![], vec![]);
    let loader = ConfigLoader::new();
    let config = loader.load_parsed(parsed, None, None).expect("Failed to load config from file");
    assert_eq!(config.workers, 2);
    assert_eq!(config.batch_size, 500);
}

#[test]
fn validation_lists_every_failure() {
    let c = config(0, 0, vec![input("mystery"), input("stdin"), input("other")], vec![], vec![output("stdout")]);
    let errors = ConfigValidator::new().validate(&c).unwrap_err();
    assert!(errors.iter().any(|e| e == "workers must be greater than 0"));
    assert!(errors.iter().any(|e| e == "batch_size must be greater than 0"));
    assert!(!errors.iter().any(|e| e == "buffer_size must be greater than 0"));
    assert!(errors.iter().any(|e| e.starts_with("input[0]: unknown input type 'mystery'")));
    assert!(errors.iter().any(|e| e.starts_with("input[2]: unknown input type 'other'")));
}
