use gemini_mcp::classify::{enforce_required_fields, process_json_line, GeminiResult, PROMPT_DEPRECATION_WARNING};
use gemini_mcp::invocation::{
    accept_config_text, build_command, config_size_ok, prepare_prompt, Options, MAX_CONFIG_SIZE,
};
use gemini_mcp::record::decode_record;

fn create_test_options(prompt: &str) -> Options {
    Options {
        prompt: prompt.to_string(),
        session_id: None,
        additional_args: Vec::new(),
    }
}

#[test]
fn test_options_creation() {
    let opts = Options {
        prompt: "test prompt".to_string(),
        session_id: None,
        additional_args: Vec::new(),
    };

    assert_eq!(opts.prompt, "test prompt");
}

#[test]
fn test_options_with_session() {
    let opts = Options {
        prompt: "resume task".to_string(),
        session_id: Some("test-session-123".to_string()),
        additional_args: vec!["--model".to_string(), "gemini-pro".to_string()],
    };

    assert_eq!(opts.session_id, Some("test-session-123".to_string()));
    assert_eq!(opts.additional_args.len(), 2);
}

#[test]
fn test_options_validation() {
    let opts = Options {
        prompt: "test".to_string(),
        session_id: Some("session-123".to_string()),
        additional_args: vec!["--model".to_string(), "gemini-pro".to_string()],
    };

    assert_eq!(opts.prompt, "test");
    assert_eq!(opts.session_id, Some("session-123".to_string()));
    assert_eq!(opts.additional_args.len(), 2);
}

#[test]
fn test_create_test_options() {
    let opts = create_test_options("test prompt");
    assert_eq!(opts.prompt, "test prompt");
}

#[test]
fn test_enforce_required_fields_requires_session_id() {
    let result = GeminiResult {
        success: true,
        session_id: String::new(),
        agent_messages: "msg".to_string(),
        all_messages: Vec::new(),
        error: None,
    };

    let updated = enforce_required_fields(result);

    assert!(!updated.success);
    assert!(updated
        .error
        .as_ref()
        .unwrap()
        .contains("Failed to get `SESSION_ID`"));
}

#[test]
fn test_enforce_required_fields_requires_agent_messages_when_not_returning_all() {
    let result = GeminiResult {
        success: true,
        session_id: "session".to_string(),
        agent_messages: String::new(),
        all_messages: Vec::new(),
        error: None,
    };

    let updated = enforce_required_fields(result);

    assert!(!updated.success);
    assert!(updated
        .error
        .as_ref()
        .unwrap()
        .contains("Failed to get `agent_messages`"));
}

#[test]
fn test_enforce_required_fields_allows_empty_agent_messages_with_all_messages() {
    let record: serde_json::Value = serde_json::from_str(r#"{"type": "tool_use"}"#).unwrap();
    let result = GeminiResult {
        success: true,
        session_id: "session".to_string(),
        agent_messages: String::new(),
        all_messages: vec![record],
        error: None,
    };

    let updated = enforce_required_fields(result);

    assert!(!updated.success);
    assert!(updated.error.is_some());
}

#[test]
fn test_build_command_basic() {
    let opts = Options {
        prompt: "test prompt".to_string(),
        session_id: None,
        additional_args: Vec::new(),
    };

    let cmd = build_command(&opts, None);
    let program = cmd.program;

    assert!(program == "gemini" || program.contains("gemini"));
    assert_eq!(cmd.args, vec!["-o", "stream-json", "test prompt"]);
}

#[test]
fn test_build_command_with_all_options() {
    let opts = Options {
        prompt: "complex prompt".to_string(),
        session_id: Some("session-123".to_string()),
        additional_args: vec!["--model".to_string(), "gemini-pro".to_string()],
    };

    let cmd = build_command(&opts, None);
    let program = cmd.program;

    assert!(program == "gemini" || program.contains("gemini"));
    assert_eq!(
        cmd.args,
        vec![
            "-o",
            "stream-json",
            "--model",
            "gemini-pro",
            "--prompt",
            "complex prompt",
            "--resume",
            "session-123"
        ]
    );
}

#[test]
fn test_build_command_with_session_only() {
    let opts = Options {
        prompt: "resume".to_string(),
        session_id: Some("abc-123".to_string()),
        additional_args: Vec::new(),
    };

    let cmd = build_command(&opts, None);
    let program = cmd.program;

    assert!(program == "gemini" || program.contains("gemini"));
    assert_eq!(
        cmd.args,
        vec!["-o", "stream-json", "--prompt", "resume", "--resume", "abc-123"]
    );
}

#[test]
fn test_process_json_line_skips_prompt_deprecation_warning() {
    let mut result = GeminiResult {
        success: true,
        session_id: String::new(),
        agent_messages: String::new(),
        all_messages: Vec::new(),
        error: None,
    };

    let content = format!(
        "{} and will be removed in a future version. Please use a positional argument.",
        PROMPT_DEPRECATION_WARNING
    );
    let mut fields = serde_json::Map::new();
    fields.insert("session_id".to_string(), serde_json::Value::String("test-session".to_string()));
    fields.insert("type".to_string(), serde_json::Value::String("message".to_string()));
    fields.insert("role".to_string(), serde_json::Value::String("assistant".to_string()));
    fields.insert("content".to_string(), serde_json::Value::String(content));
    let line = serde_json::Value::Object(fields).to_string();

    let record = decode_record(&line).unwrap();
    process_json_line(record, &mut result);

    // Warning should not be treated as an agent message, but session_id should still be set.
    assert_eq!(result.session_id, "test-session");
    assert!(result.agent_messages.is_empty());
    assert!(result.error.is_none());
}

#[test]
fn test_read_gemini_config_with_content() {
    let test_content = "Test configuration content";
    assert!(config_size_ok(test_content.len() as u64));
    let result = accept_config_text(test_content.to_string());
    assert_eq!(result, Some(test_content.to_string()));
}

#[test]
fn test_read_gemini_config_empty_file() {
    let result = accept_config_text("   \n  \n  ".to_string());
    assert!(result.is_none());
}

#[test]
fn test_read_gemini_config_preserves_formatting() {
    let test_content = "\n# Header\n\nContent with spaces.  \n\n";
    let result = accept_config_text(test_content.to_string());
    assert_eq!(result, Some(test_content.to_string()));
}

#[test]
fn test_read_gemini_config_too_large() {
    let large_content = "x".repeat(MAX_CONFIG_SIZE as usize + 1);
    assert!(!config_size_ok(large_content.len() as u64));
    assert!(config_size_ok(MAX_CONFIG_SIZE));
}

#[test]
fn test_prepare_prompt_without_config() {
    let user_prompt = "Test user prompt";
    let result = prepare_prompt(None, user_prompt);

    assert!(result.contains(user_prompt));
    assert_eq!(result, user_prompt);
}

#[test]
fn test_prepare_prompt_preserves_user_prompt() {
    let user_prompt = "What is 2+2?";
    let result = prepare_prompt(Some("Project rules".to_string()), user_prompt);

    assert!(result.contains(user_prompt));
    assert_eq!(result, "Project rules\n\nWhat is 2+2?");
}
