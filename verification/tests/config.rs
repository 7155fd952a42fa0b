use memos::llm_runner::{
    build_command, default_base_url, effective_base_url, is_daemon_runner, stopped_status,
    LlmRunnerConfig, LlmRunnerError, LlmRunnerState, LogBuffer, LOG_BUFFER_LINES, RUNNER_TYPE_LLAMA_CPP,
    RUNNER_TYPE_LMS,
};
use memos::mcp::{self, CallToolResult, McpConfig, McpState, ToolContent};

#[test]
fn config_test_default_config() {
    let c = LlmRunnerConfig::default_config();
    assert_eq!(c.runner_type, RUNNER_TYPE_LLAMA_CPP);
    assert_eq!(c.executable_path, "llama-server");
    assert_eq!(c.host, "127.0.0.1");
    assert_eq!(c.port, 8080);
    assert_eq!(c.context_size, 4096);
    assert_eq!(c.gpu_layers, 0);
    assert!(!c.auto_start);
    assert!(c.model_path.is_empty());
    assert!(c.base_url.is_empty());

    let m = McpConfig::default_config();
    assert!(!m.enabled);
    assert_eq!(m.host, "127.0.0.1");
    assert_eq!(m.port, 27100);
    assert!(m.auth_token.is_empty());
    assert!(!m.auto_start);
}

#[test]
fn test_is_daemon_runner() {
    let mut c = LlmRunnerConfig::default_config();
    assert!(!is_daemon_runner(&c));
    c.runner_type = RUNNER_TYPE_LMS.to_string();
    assert!(is_daemon_runner(&c));
}

#[test]
fn test_default_base_url_llama_cpp() {
    let mut c = LlmRunnerConfig::default_config();
    c.host = "0.0.0.0".to_string();
    c.port = 9999;
    assert_eq!(default_base_url(&c), "http://0.0.0.0:9999/v1");
}

#[test]
fn test_default_base_url_lms_ignores_host() {
    let mut c = LlmRunnerConfig::default_config();
    c.runner_type = RUNNER_TYPE_LMS.to_string();
    c.host = "0.0.0.0".to_string();
    c.port = 1234;
    assert_eq!(default_base_url(&c), "http://127.0.0.1:1234/v1");
}

#[test]
fn test_effective_base_url_uses_override() {
    let mut c = LlmRunnerConfig::default_config();
    c.runner_type = RUNNER_TYPE_LMS.to_string();
    c.port = 1234;
    c.base_url = "http://10.0.0.5:8080/v1/".to_string();
    assert_eq!(effective_base_url(&c), "http://10.0.0.5:8080/v1");
}

#[test]
fn test_effective_base_url_falls_back_to_default() {
    let mut c = LlmRunnerConfig::default_config();
    c.runner_type = RUNNER_TYPE_LMS.to_string();
    c.port = 1234;
    c.base_url = "   ".to_string();
    assert_eq!(effective_base_url(&c), "http://127.0.0.1:1234/v1");
}

#[test]
fn llm_runner_test_stopped_status_uses_config() {
    let mut cfg = LlmRunnerConfig::default_config();
    cfg.host = "1.2.3.4".to_string();
    cfg.port = 7777;
    let s = stopped_status(cfg);
    assert!(!s.running);
    assert!(s.pid.is_none());
    assert_eq!(s.base_url, "http://1.2.3.4:7777/v1");
    assert!(s.recent_logs.is_empty());
}

#[test]
fn llm_runner_test_stopped_status_default_config() {
    let cfg = LlmRunnerConfig::default_config();
    let s = stopped_status(cfg);
    assert_eq!(s.base_url, "http://127.0.0.1:8080/v1");
}

#[test]
fn test_stopped_status_lms_ignores_host() {
    let mut cfg = LlmRunnerConfig::default_config();
    cfg.runner_type = RUNNER_TYPE_LMS.to_string();
    cfg.host = "0.0.0.0".to_string();
    cfg.port = 1234;
    let s = stopped_status(cfg);
    assert_eq!(s.base_url, "http://127.0.0.1:1234/v1");
}

#[test]
fn test_stopped_status_uses_base_url_override() {
    let mut cfg = LlmRunnerConfig::default_config();
    cfg.runner_type = RUNNER_TYPE_LMS.to_string();
    cfg.port = 1234;
    cfg.base_url = "http://10.0.0.5:8080/v1/".to_string();
    let s = stopped_status(cfg);
    assert_eq!(s.base_url, "http://10.0.0.5:8080/v1");
}

fn sample_config(runner: &str) -> LlmRunnerConfig {
    LlmRunnerConfig {
        runner_type: runner.to_string(),
        executable_path: "/bin/echo".to_string(),
        model_path: "/models/x.gguf".to_string(),
        host: "127.0.0.1".to_string(),
        port: 8080,
        context_size: 4096,
        gpu_layers: 10,
        extra_args: "--verbose --jinja".to_string(),
        base_url: String::new(),
        auto_start: false,
    }
}

#[test]
fn test_build_command_llama_cpp_includes_all_args() {
    let cfg = sample_config("llama-cpp");
    let cmd = build_command(&cfg).unwrap();
    assert_eq!(cmd.program, "/bin/echo");
    let args = cmd.args;
    for a in [
        "-m", "/models/x.gguf", "--port", "8080", "--host", "127.0.0.1", "-c", "4096", "-ngl",
        "10", "--verbose", "--jinja",
    ] {
        assert!(args.contains(&a.to_string()));
    }
    assert_eq!(
        args,
        vec![
            "-m", "/models/x.gguf", "--port", "8080", "--host", "127.0.0.1", "-c", "4096",
            "-ngl", "10", "--verbose", "--jinja"
        ]
    );
}

#[test]
fn test_build_command_lms_uses_server_start_subcommand() {
    let cfg = sample_config("lms");
    let args = build_command(&cfg).unwrap().args;
    assert_eq!(args[0], "server");
    assert_eq!(args[1], "start");
    assert!(!args.contains(&"--model".to_string()));
    assert!(!args.contains(&"-m".to_string()));
    assert!(!args.contains(&"--host".to_string()));
    assert!(args.contains(&"--port".to_string()));
    assert!(args.contains(&"8080".to_string()));
    assert!(!args.contains(&"-c".to_string()));
    assert!(!args.contains(&"-ngl".to_string()));
    assert!(args.contains(&"--verbose".to_string()));
    assert!(args.contains(&"--jinja".to_string()));
}

#[test]
fn test_build_command_rejects_empty_executable() {
    let mut cfg = sample_config("llama-cpp");
    cfg.executable_path = "   ".to_string();
    let err = build_command(&cfg).unwrap_err();
    assert!(matches!(err, LlmRunnerError::Config(_)));
}

#[test]
fn test_build_command_skips_empty_model_path() {
    let mut cfg = sample_config("llama-cpp");
    cfg.model_path = String::new();
    let args = build_command(&cfg).unwrap().args;
    assert!(!args.contains(&"-m".to_string()));
}

#[test]
fn test_build_command_gpu_layers_zero_omits_ngl() {
    let mut cfg = sample_config("llama-cpp");
    cfg.gpu_layers = 0;
    let args = build_command(&cfg).unwrap().args;
    assert!(!args.contains(&"-ngl".to_string()));
}

#[test]
fn test_append_log_caps_buffer() {
    let mut logs = LogBuffer::new();
    for i in 0..(LOG_BUFFER_LINES + 100) {
        logs.append_log(format!("line {i}"));
    }
    assert_eq!(logs.lines().len(), LOG_BUFFER_LINES);
    assert_eq!(logs.lines().back().unwrap(), &format!("line {}", LOG_BUFFER_LINES + 99));
    assert_eq!(logs.lines()[0], "line 100");
}

#[test]
fn test_endpoint_url() {
    let mut c = McpConfig::default_config();
    c.host = "0.0.0.0".to_string();
    c.port = 9999;
    assert_eq!(c.endpoint_url(), "http://0.0.0.0:9999/mcp");
}

#[test]
fn test_has_auth() {
    let mut c = McpConfig::default_config();
    assert!(!c.has_auth());
    c.auth_token = "  tok  ".to_string();
    assert!(c.has_auth());
    c.auth_token = "   ".to_string();
    assert!(!c.has_auth());
}

#[test]
fn mcp_test_stopped_status_uses_config() {
    let mut cfg = McpConfig::default_config();
    cfg.host = "1.2.3.4".to_string();
    cfg.port = 7777;
    let s = mcp::stopped_status(cfg);
    assert!(!s.running);
    assert!(s.started_at.is_none());
    assert_eq!(s.endpoint_url, "http://1.2.3.4:7777/mcp");
}

#[test]
fn mcp_test_stopped_status_default_config() {
    let cfg = McpConfig::default_config();
    let s = mcp::stopped_status(cfg);
    assert_eq!(s.endpoint_url, "http://127.0.0.1:27100/mcp");
}

#[test]
fn test_call_tool_result_text() {
    let r = CallToolResult::text("hello".to_string());
    assert!(r.is_error.is_none());
    assert_eq!(r.content, vec![ToolContent::Text { text: "hello".to_string() }]);
}

#[test]
fn test_call_tool_result_error() {
    let r = CallToolResult::error("oops".to_string());
    assert_eq!(r.is_error, Some(true));
}

#[test]
fn test_llm_runner_state_default_not_running() {
    let mut state = LlmRunnerState::new(LlmRunnerConfig::default_config());
    assert!(!state.is_running(false));
    let status = state.status(false);
    assert!(!status.running);
    assert!(status.pid.is_none());
    assert_eq!(status.base_url, "http://127.0.0.1:8080/v1");
    assert!(status.recent_logs.is_empty());
}

#[test]
fn test_update_config_replaces_runtime_config() {
    let mut state = LlmRunnerState::new(LlmRunnerConfig::default_config());
    let mut cfg = LlmRunnerConfig::default_config();
    cfg.port = 9999;
    cfg.host = "0.0.0.0".to_string();
    state.update_config(cfg);
    assert_eq!(state.base_url(), "http://0.0.0.0:9999/v1");
}

#[test]
fn test_base_url_reflects_config() {
    let mut cfg = LlmRunnerConfig::default_config();
    cfg.host = "192.168.1.5".to_string();
    cfg.port = 1234;
    let state = LlmRunnerState::new(cfg);
    assert_eq!(state.base_url(), "http://192.168.1.5:1234/v1");
}

#[test]
fn test_base_url_uses_override_when_set() {
    let mut cfg = LlmRunnerConfig::default_config();
    cfg.runner_type = RUNNER_TYPE_LMS.to_string();
    cfg.host = "0.0.0.0".to_string();
    cfg.port = 1234;
    cfg.base_url = "http://10.0.0.5:8080/v1".to_string();
    let state = LlmRunnerState::new(cfg);
    assert_eq!(state.base_url(), "http://10.0.0.5:8080/v1");
}

#[test]
fn test_base_url_lms_default_ignores_host() {
    let mut cfg = LlmRunnerConfig::default_config();
    cfg.runner_type = RUNNER_TYPE_LMS.to_string();
    cfg.host = "0.0.0.0".to_string();
    cfg.port = 1234;
    let state = LlmRunnerState::new(cfg);
    assert_eq!(state.base_url(), "http://127.0.0.1:1234/v1");
}

#[test]
fn runner_state_tracks_the_process() {
    let mut state = LlmRunnerState::new(LlmRunnerConfig::default_config());
    state.record.record_foreground_start(42, 1000);
    assert!(state.is_running(true));
    let status = state.status(true);
    assert_eq!(status.pid, Some(42));
    assert_eq!(status.started_at, Some(1000));
    assert_eq!(status.recent_logs.last().unwrap(), "[info] 进程已启动 (pid=42)");
    // the process went away
    assert!(!state.is_running(false));
    assert!(state.record.pid.is_none());
    assert!(state.record.started_at.is_none());

    let mut lms = LlmRunnerConfig::default_config();
    lms.runner_type = RUNNER_TYPE_LMS.to_string();
    let mut daemon = LlmRunnerState::new(lms);
    daemon.record.record_daemon_start(7);
    assert!(daemon.is_running(false));
    daemon.append_log("x".to_string());
    assert_eq!(daemon.status(false).recent_logs.last().unwrap(), "x");
}

#[test]
fn test_mcp_state_new_not_running() {
    let state = McpState::new(McpConfig::default_config());
    assert!(!state.is_running());
    assert!(state.status().started_at.is_none());
}

#[test]
fn test_endpoint_url_reflects_config() {
    let mut cfg = McpConfig::default_config();
    cfg.host = "0.0.0.0".into();
    cfg.port = 9999;
    let state = McpState::new(cfg);
    assert_eq!(state.endpoint_url(), "http://0.0.0.0:9999/mcp");
}

#[test]
fn test_update_config_changes_endpoint() {
    let mut state = McpState::new(McpConfig::default_config());
    let mut cfg = McpConfig::default_config();
    cfg.port = 12345;
    state.update_config(cfg);
    assert_eq!(state.endpoint_url(), "http://127.0.0.1:12345/mcp");
}

#[test]
fn test_clear_runtime_resets_state() {
    let mut state = McpState::new(McpConfig::default_config());
    state.running = true;
    state.started_at = Some(123);
    state.clear_runtime();
    assert!(!state.is_running());
    assert!(state.status().started_at.is_none());
}

#[test]
fn mcp_state_start_and_failure() {
    let mut state = McpState::new(McpConfig::default_config());
    state.set_last_error("绑定 127.0.0.1:27100 失败: busy".to_string());
    assert_eq!(state.status().last_error.as_deref(), Some("绑定 127.0.0.1:27100 失败: busy"));
    state.record_started(55);
    let st = state.status();
    assert!(st.running);
    assert_eq!(st.started_at, Some(55));
    assert!(st.last_error.is_none());
    assert_eq!(st.endpoint_url, "http://127.0.0.1:27100/mcp");
}
