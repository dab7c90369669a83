use csd::communication::{
    cache_file_from_response, can_analyze_from_response, can_generate_from_response,
    content_preview, decimal_text, generation_from_response, info_from_response, input_file_name,
    is_expired, is_stale_cache_file, judge_output, plan_for, plugin_type_from_response,
    progress_message, supported_formats, unparsable_error,
    supported_output_types, timeout_error, InputPluginCommunicator, OutputPluginCommunicator,
    PluginCommunicator, PluginError,
};
use csd::interface::{
    OutputPluginResult, PluginInfo, PluginInput, PluginMessage, PluginResponse, PluginType,
};

fn info_response() -> PluginResponse {
    PluginResponse::Info {
        name: "python_analyzer".to_string(),
        version: "1.2.0".to_string(),
        plugin_type: PluginType::Input,
        supported_extensions: vec![".py".to_string()],
        supported_filenames: vec!["requirements.txt".to_string()],
        supported_output_types: None,
        supported_formats: Some(vec!["markdown".to_string()]),
    }
}

fn error_response() -> PluginResponse {
    PluginResponse::Error {
        message: "File not found".to_string(),
        details: Some("Could not read /path/to/file.py".to_string()),
    }
}

#[test]
fn communicator_defaults_and_builders() {
    let c = PluginCommunicator::new("plugins/input/x.py".to_string());
    assert_eq!(c.plugin_path(), "plugins/input/x.py");
    assert_eq!(c.python_executable(), "python");
    assert_eq!(c.cache_dir(), ".csd_cache");

    let c = c
        .with_cache_dir("/tmp/cache".to_string())
        .with_python_executable("/usr/bin/python3.11".to_string());
    assert_eq!(c.cache_dir(), "/tmp/cache");
    assert_eq!(c.python_executable(), "/usr/bin/python3.11");
    assert_eq!(c.plugin_path(), "plugins/input/x.py");
}

#[test]
fn auto_detect_prefers_python_then_python3() {
    let c = PluginCommunicator::new("p.py".to_string())
        .with_python_executable("custom".to_string());
    assert_eq!(c.with_python_auto_detect(false, false).python_executable(), "custom");
    let c = PluginCommunicator::new("p.py".to_string())
        .with_python_executable("custom".to_string());
    assert_eq!(c.with_python_auto_detect(false, true).python_executable(), "python3");
    let c = PluginCommunicator::new("p.py".to_string())
        .with_python_executable("custom".to_string());
    assert_eq!(c.with_python_auto_detect(true, true).python_executable(), "python");
}

#[test]
fn role_communicators_delegate_to_base() {
    let i = InputPluginCommunicator::new("a.py".to_string())
        .with_cache_dir("c".to_string())
        .with_python_executable("py".to_string())
        .with_python_auto_detect(false, true);
    assert_eq!(i.base().plugin_path(), "a.py");
    assert_eq!(i.base().cache_dir(), "c");
    assert_eq!(i.base().python_executable(), "python3");

    let o = OutputPluginCommunicator::new("b.py".to_string())
        .with_cache_dir("d".to_string())
        .with_python_executable("py".to_string())
        .with_python_auto_detect(false, false);
    assert_eq!(o.base().plugin_path(), "b.py");
    assert_eq!(o.base().cache_dir(), "d");
    assert_eq!(o.base().python_executable(), "py");
}

#[test]
fn plans_per_message_kind() {
    let analyze = PluginMessage::Analyze {
        input: PluginInput {
            file_path: "/p/a.py".to_string(),
            relative_path: "a.py".to_string(),
            content: String::new(),
            project_root: "/p".to_string(),
            cache_dir: "/p/.csd_cache".to_string(),
            plugin_config: None,
        },
    };
    let p = plan_for(&analyze);
    assert_eq!((p.timeout_secs, p.progress_interval_secs), (300, 30));
    assert_eq!(p.operation_name, "Analyzing code");

    let p = plan_for(&PluginMessage::CanGenerate {
        output_type: "documentation".to_string(),
        format: "markdown".to_string(),
    });
    assert_eq!((p.timeout_secs, p.progress_interval_secs), (30, 10));
    assert_eq!(p.operation_name, "Checking generation capability");

    let p = plan_for(&PluginMessage::GetInfo);
    assert_eq!((p.timeout_secs, p.progress_interval_secs), (30, 10));
    assert_eq!(p.operation_name, "Getting plugin info");

    match timeout_error(&p) {
        PluginError::Timeout { operation, minutes } => {
            assert_eq!(operation, "Getting plugin info");
            assert_eq!(minutes, 0);
        }
        other => panic!("unexpected {other:?}"),
    }
}

#[test]
fn input_file_names_and_previews() {
    assert_eq!(input_file_name("1234-abcd"), "plugin_input_1234-abcd.json");
    assert_eq!(content_preview("short"), "short");
    let long: String = "é".repeat(600);
    let preview = content_preview(&long);
    assert_eq!(preview.chars().count(), 500);
    assert!(preview.chars().all(|c| c == 'é'));
}

#[test]
fn judging_process_output() {
    match judge_output(false, "exit status: 2".to_string(), " out \n", " boom \n") {
        Err(PluginError::NonZeroExit { status, stdout, stderr }) => {
            assert_eq!(status, "exit status: 2");
            assert_eq!(stdout, "out");
            assert_eq!(stderr, "boom");
        }
        other => panic!("unexpected {other:?}"),
    }
    match judge_output(true, String::new(), " \n\t", "warn") {
        Err(PluginError::NoOutput { stderr }) => assert_eq!(stderr, "warn"),
        other => panic!("unexpected {other:?}"),
    }
    match judge_output(true, String::new(), "loading\nready\n", "") {
        Err(PluginError::NoResponse { stdout, stderr }) => {
            assert_eq!(stdout, "loading\nready");
            assert_eq!(stderr, "");
        }
        other => panic!("unexpected {other:?}"),
    }
    let out = "log line\n\n   {\"status\": \"info\"}  \r\n{\"second\": 1}\n";
    assert_eq!(judge_output(true, String::new(), out, "").unwrap(), "{\"status\": \"info\"}");
}

#[test]
fn info_responses() {
    match info_from_response(info_response()) {
        Ok(PluginInfo { name, plugin_type, supported_formats, .. }) => {
            assert_eq!(name, "python_analyzer");
            assert_eq!(plugin_type, PluginType::Input);
            assert_eq!(supported_formats, Some(vec!["markdown".to_string()]));
        }
        other => panic!("unexpected {other:?}"),
    }
    match info_from_response(error_response()) {
        Err(PluginError::Reported { message, details }) => {
            assert_eq!(message, "File not found");
            assert_eq!(details, Some("Could not read /path/to/file.py".to_string()));
        }
        other => panic!("unexpected {other:?}"),
    }
    let wrong = PluginResponse::CanAnalyze { can_analyze: true, confidence: 90 };
    assert!(matches!(
        info_from_response(wrong),
        Err(PluginError::UnexpectedResponse { .. })
    ));
    assert_eq!(plugin_type_from_response(info_response()).unwrap(), PluginType::Input);

    let info = info_from_response(info_response()).unwrap();
    assert!(supported_output_types(info.clone()).is_empty());
    assert_eq!(supported_formats(info), vec!["markdown".to_string()]);
}

#[test]
fn capability_responses() {
    let yes = PluginResponse::CanAnalyze { can_analyze: true, confidence: 90 };
    assert!(matches!(can_analyze_from_response(yes), Ok(true)));
    let no = PluginResponse::CanAnalyze { can_analyze: false, confidence: 90 };
    assert!(matches!(can_analyze_from_response(no), Ok(false)));
    match can_analyze_from_response(error_response()) {
        Err(PluginError::Reported { message, details }) => {
            assert_eq!(message, "File not found");
            assert_eq!(details, Some("Could not read /path/to/file.py".to_string()));
        }
        other => panic!("unexpected {other:?}"),
    }
    let wrong = PluginResponse::CanGenerate { can_generate: true, confidence: 90 };
    assert!(matches!(
        can_analyze_from_response(wrong),
        Err(PluginError::UnexpectedResponse { .. })
    ));
    let gen = PluginResponse::CanGenerate { can_generate: true, confidence: 80 };
    assert!(matches!(can_generate_from_response(gen), Ok(true)));
    assert!(matches!(
        can_generate_from_response(error_response()),
        Err(PluginError::Reported { .. })
    ));
    assert!(matches!(
        can_generate_from_response(info_response()),
        Err(PluginError::UnexpectedResponse { .. })
    ));
}

#[test]
fn no_response_and_unparsable_errors_carry_stderr() {
    match judge_output(true, String::new(), "noise\n", "  trace here \n") {
        Err(PluginError::NoResponse { stdout, stderr }) => {
            assert_eq!(stdout, "noise");
            assert_eq!(stderr, "trace here");
        }
        other => panic!("unexpected {other:?}"),
    }
    match unparsable_error("{bad".to_string(), "eof".to_string(), " oops ") {
        PluginError::Unparsable { line, reason, stderr } => {
            assert_eq!(line, "{bad");
            assert_eq!(reason, "eof");
            assert_eq!(stderr, "oops");
        }
        other => panic!("unexpected {other:?}"),
    }
}

#[test]
fn heartbeat_messages() {
    assert_eq!(
        progress_message("Analyzing code", 30),
        "Analyzing code is taking longer than expected, still working..."
    );
    assert_eq!(progress_message("Op", 60), "Op in progress (1 minute elapsed)...");
    assert_eq!(progress_message("Op", 300), "Op final stretch (5 minutes elapsed)...");
    assert_eq!(progress_message("Op", 420), "Op still running (7 minutes elapsed)...");
    assert_eq!(progress_message("Op", 10), "Op still running (0 minutes elapsed)...");
    assert_eq!(decimal_text(0), "0");
    assert_eq!(decimal_text(1205), "1205");
    assert_eq!(decimal_text(u64::MAX), u64::MAX.to_string());
}

#[test]
fn stale_cache_files() {
    assert!(is_stale_cache_file(".csd_cache/a.json", 0, 7201, 2));
    assert!(!is_stale_cache_file(".csd_cache/a.json", 0, 7200, 2));
    assert!(!is_stale_cache_file(".csd_cache/a.txt", 0, 7201, 2));
    assert!(!is_stale_cache_file(".csd_cache/json", 0, 7201, 2));
}

#[test]
fn analysis_and_generation_responses() {
    let ok = PluginResponse::Success {
        cache_file: "analysis_123.json".to_string(),
        processing_time_ms: 12,
    };
    assert_eq!(cache_file_from_response(ok).unwrap(), "analysis_123.json");
    assert!(matches!(
        cache_file_from_response(error_response()),
        Err(PluginError::Reported { .. })
    ));
    assert!(matches!(
        cache_file_from_response(info_response()),
        Err(PluginError::UnexpectedResponse { .. })
    ));

    let result = OutputPluginResult {
        plugin_name: "markdown_docs".to_string(),
        plugin_version: "1.0.0".to_string(),
        output_type: "documentation".to_string(),
        outputs: vec![],
        processing_time_ms: 500,
        metadata: "{}".to_string(),
    };
    let generated = generation_from_response(PluginResponse::OutputSuccess { result }).unwrap();
    assert_eq!(generated.plugin_name, "markdown_docs");
    assert!(matches!(
        generation_from_response(info_response()),
        Err(PluginError::UnexpectedResponse { .. })
    ));
}

#[test]
fn cache_expiry() {
    assert!(is_expired(0, 3601, 1));
    assert!(!is_expired(1, 3601, 1));
    assert!(!is_expired(5000, 1000, 0));
    assert!(!is_expired(0, u64::MAX, u64::MAX));
}
