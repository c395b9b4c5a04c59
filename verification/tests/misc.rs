use transcribe_rs::indicator::State;
use transcribe_rs::logging::default_config_yaml;
use transcribe_rs::notifications::{
    notify_error, notify_recording_started, notify_recording_stopped, notify_transcription_copied,
    notify_transcription_pasted,
};
use transcribe_rs::numbers::{parse_u64, u64_to_decimal};
use transcribe_rs::remote_groq::GroqModel;
use transcribe_rs::timing::{PerformanceMetrics, TimingBreakdown};
use transcribe_rs::text_map::TextMap;
use transcribe_rs::tools::{
    cli_tool_args, find_tool, http_request, launch_message, substitute_params, tool_backend, tool_definitions,
    Backend, HttpConfig, HttpMethod, ParamValue, ParameterSchema, ToolConfig,
};
use transcribe_rs::llm::{api_key_from_env_file, parse_api_key, GroqClient};
use transcribe_rs::transcription_timing::{
    append_history_line, format_pair, parse_api_timing_entries, parse_pair, parse_timing_entries, ApiTimer,
    TranscriptionTimer,
};

#[test]
fn test_default_config_yaml_is_valid() {
    assert!(!default_config_yaml().is_empty());
    assert!(default_config_yaml().contains("appenders:"));
    assert!(default_config_yaml().contains("loggers:"));
}

#[test]
fn test_notification_functions_exist() {
    let n = notify_recording_started();
    assert!(n.summary.contains("Recording"));
    assert_eq!(n.timeout_ms, 1000);
}

#[test]
fn notification_texts() {
    assert_eq!(notify_recording_stopped().body, "Transcribing audio...");
    assert_eq!(notify_transcription_pasted("hi").body, "hi");
    let c = notify_transcription_copied("hi");
    assert_eq!(c.body, "hi\nPress Ctrl+V to paste");
    assert_eq!(c.timeout_ms, 3000);
    assert_eq!(notify_error("boom").body, "boom");
}

#[test]
fn test_model_names() {
    assert_eq!(GroqModel::WhisperLargeV3.as_str(), "whisper-large-v3");
    assert_eq!(GroqModel::WhisperLargeV3Turbo.as_str(), "whisper-large-v3-turbo");
    assert_eq!(GroqModel::DistilWhisperLargeV3En.as_str(), "distil-whisper-large-v3-en");
    assert!(matches!(GroqModel::default(), GroqModel::WhisperLargeV3Turbo));
}

#[test]
fn indicator_states() {
    assert_eq!(State::from_str("  Recording\n"), State::Recording);
    assert_eq!(State::from_str("transcribing"), State::Transcribing);
    assert_eq!(State::from_str("ENHANCING"), State::Enhancing);
    assert_eq!(State::from_str("error"), State::Error);
    assert_eq!(State::from_str("whatever"), State::Idle);
    assert_eq!(State::Recording.name(), "Recording");
    assert!(!State::Idle.is_visible());
    assert!(State::Error.is_visible());
    assert_eq!(State::Recording.color(), (0, 255, 51));
}

#[test]
fn timing_breakdown_totals() {
    let t = TimingBreakdown::new(1000, 200, 300, 50);
    assert_eq!(t.processing_total_ms(), 550);
    assert_eq!(t.total_ms(), 1550);
}

#[test]
fn performance_metrics_marks() {
    let mut m = PerformanceMetrics::from_start_time(5);
    assert_eq!(m.start_ns, 5);
    m.mark_recording_stop();
    m.mark_transcription_done();
    m.mark_processing_done();
    m.mark_clipboard_done();
    m.mark_paste_done();
    assert!(m.recording_stop_ns.is_some() && m.paste_done_ns.is_some());
    assert_eq!(m.start_ns, 5);
}

#[test]
fn timing_history_lines() {
    assert_eq!(format_pair(1200, 85), "1200,85");
    assert_eq!(parse_pair("1200,85"), Some((1200, 85)));
    assert_eq!(parse_pair("+7,0"), Some((7, 0)));
    assert_eq!(parse_pair("1,2,3"), None);
    assert_eq!(parse_pair("12"), None);
    assert_eq!(parse_pair("a,1"), None);
    assert_eq!(parse_pair(" 1,2"), None);
    assert_eq!(parse_pair("18446744073709551616,1"), None);
    let lines = vec!["10,2".to_string(), "junk".to_string(), "20,4".to_string()];
    let entries = parse_timing_entries(&lines);
    assert_eq!(entries.len(), 2);
    assert_eq!(entries[1].recording_ms, 20);
    assert_eq!(entries[1].transcription_ms, 4);
    let api = parse_api_timing_entries(&lines);
    assert_eq!(api[0].text_length, 10);
    assert_eq!(api[0].api_ms, 2);
    let mut history: Vec<String> = (0..100).map(|i| format!("{},1", i)).collect();
    history = append_history_line(history, "100,1".to_string());
    assert_eq!(history.len(), 100);
    assert_eq!(history[0], "1,1");
    assert_eq!(history[99], "100,1");
}

#[test]
fn decimal_numbers() {
    assert_eq!(u64_to_decimal(0), "0");
    assert_eq!(u64_to_decimal(18446744073709551615), "18446744073709551615");
    assert_eq!(parse_u64("18446744073709551615"), Some(u64::MAX));
    assert_eq!(parse_u64(""), None);
    assert_eq!(parse_u64("+"), None);
    assert_eq!(parse_u64("007"), Some(7));
}

#[test]
fn timers_report_elapsed_only_after_start() {
    let mut t = TranscriptionTimer::new(3000);
    assert_eq!(t.elapsed_ms(), None);
    t.start();
    assert!(t.elapsed_ms().is_some());
    assert_eq!(t.recording_duration_ms(), 3000);
    let mut a = ApiTimer::new(42);
    assert_eq!(a.elapsed_ms(), None);
    a.start();
    assert!(a.elapsed_ms().is_some());
    assert_eq!(a.text_length(), 42);
}

fn params() -> Vec<(String, ParamValue)> {
    vec![
        ("workspace".to_string(), ParamValue::Number("3".to_string())),
        ("task".to_string(), ParamValue::Text("hello world".to_string())),
        ("flag".to_string(), ParamValue::Bool(true)),
        ("list".to_string(), ParamValue::Other),
    ]
}

#[test]
fn test_substitute_params() {
    let params = params();

    let result = substitute_params("workspace {workspace}", &params).unwrap();
    assert_eq!(result, "workspace 3");

    let result = substitute_params("{task}", &params).unwrap();
    assert_eq!(result, "hello world");
}

#[test]
fn substitute_params_errors_and_repeats() {
    let params = params();
    assert_eq!(substitute_params("{flag}-{flag}", &params).unwrap(), "true-true");
    assert_eq!(substitute_params("{nope}", &params), Err("Missing parameter: nope".to_string()));
    assert_eq!(substitute_params("{list}", &params), Err("Invalid parameter type for list".to_string()));
    assert_eq!(substitute_params("no placeholders", &params).unwrap(), "no placeholders");
}

fn tool(backend: &str, args: Vec<&str>) -> ToolConfig {
    ToolConfig {
        name: "t".to_string(),
        description: "d".to_string(),
        command: "echo".to_string(),
        args: args.into_iter().map(|s| s.to_string()).collect(),
        backend: backend.to_string(),
        http: None,
        parameters: TextMap::new(),
    }
}

#[test]
fn tool_backends_and_args() {
    assert!(matches!(tool_backend(&tool("", vec![])), Ok(Backend::Cli)));
    assert!(matches!(tool_backend(&tool("http", vec![])), Ok(Backend::Http)));
    assert_eq!(tool_backend(&tool("ftp", vec![])).err(), Some("Unknown backend: ftp".to_string()));
    let args = cli_tool_args(&tool("cli", vec!["-w", "{workspace}"]), &params()).unwrap();
    assert_eq!(args, vec!["-w", "3"]);
    assert!(cli_tool_args(&tool("cli", vec!["{missing}"]), &params()).is_err());
}

#[test]
fn test_tool_definitions() {
    let mut params = TextMap::new();
    params.insert(
        "test_param".to_string(),
        ParameterSchema { param_type: "string".to_string(), description: "Test parameter".to_string() },
    );
    let tool_config = ToolConfig {
        name: "test_tool".to_string(),
        description: "Test tool description".to_string(),
        command: "echo".to_string(),
        args: vec!["{test_param}".to_string()],
        backend: "cli".to_string(),
        http: None,
        parameters: params,
    };
    let tools = tool_definitions(&[tool_config]);
    assert_eq!(tools.len(), 1);
    assert_eq!(tools[0].name, "test_tool");
    assert!(tools[0].description.contains("Test tool"));
    assert_eq!(tools[0].parameters.len(), 1);
    assert_eq!(tools[0].parameters[0].0, "test_param");
    assert_eq!(tools[0].parameters[0].1.param_type, "string");
    assert_eq!(tools[0].parameters[0].1.description, "Test parameter");
}

#[test]
fn tool_lookup_and_http_requests() {
    let tools = vec![tool("cli", vec![]), tool("http", vec![])];
    assert_eq!(find_tool(&tools, "t"), Ok(0));
    assert_eq!(find_tool(&tools, "x"), Err("Unknown tool: x".to_string()));
    let mut h = tool("http", vec![]);
    assert_eq!(http_request(&h).err(), Some("HTTP backend requires http config".to_string()));
    h.http = Some(HttpConfig { url: "http://h/x".to_string(), method: "post".to_string(), body: "{}".to_string() });
    let (m, url, body) = http_request(&h).unwrap();
    assert_eq!(m, HttpMethod::Post);
    assert_eq!(url, "http://h/x");
    assert_eq!(body, "{}");
    h.http = Some(HttpConfig { url: "u".to_string(), method: "Get".to_string(), body: String::new() });
    assert_eq!(http_request(&h).unwrap().0, HttpMethod::Get);
    h.http = Some(HttpConfig { url: "u".to_string(), method: "put".to_string(), body: String::new() });
    assert_eq!(http_request(&h).err(), Some("Unsupported HTTP method: PUT".to_string()));
    assert_eq!(launch_message("lights", 4242), "Launched: lights (PID: 4242)");
}

#[test]
fn api_key_file_parsing() {
    assert_eq!(parse_api_key("GROQ_API_KEY=abc"), Some("abc".to_string()));
    assert_eq!(parse_api_key("# key\n  GROQ_API_KEY=\"quoted\"  \n"), Some("quoted".to_string()));
    assert_eq!(parse_api_key("GROQ_API_KEY=''\nGROQ_API_KEY='second'"), Some("second".to_string()));
    assert_eq!(parse_api_key("OTHER=1\r\nGROQ_API_KEY= spaced \r\n"), Some("spaced".to_string()));
    assert_eq!(parse_api_key("GROQ_API_KEY = x"), None);
    assert_eq!(parse_api_key(""), None);
    assert_eq!(api_key_from_env_file("/c/.env", "GROQ_API_KEY=k1\nGROQ_API_KEY=k2"), Ok("k1".to_string()));
    assert_eq!(
        api_key_from_env_file("/c/.env", "nothing"),
        Err("GROQ_API_KEY not found in .env file at /c/.env".to_string())
    );
}

#[test]
fn test_client_creation() {
    let tools = vec![];
    let client = GroqClient::new("test_key".to_string(), tools);
    assert_eq!(client.tools().len(), 0);

    let tools = vec![];
    let client_no_tools = GroqClient::new("test_key".to_string(), tools);
    assert_eq!(client_no_tools.tools().len(), 0);
    assert_eq!(client_no_tools.api_key(), "test_key");
}

#[test]
fn client_tools_lookup() {
    let client = GroqClient::new("k".to_string(), vec![tool("cli", vec![])]);
    assert_eq!(client.create_tools_from_config().len(), 1);
    assert_eq!(client.tool_named("t").unwrap().name, "t");
    assert_eq!(client.tool_named("u").err(), Some("Unknown tool: u".to_string()));
}
