use gemini_mcp::classify::{
    extend_narrative, process_json_line, type_signals_error, GeminiResult, MAX_MESSAGES_LIMIT,
};
use gemini_mcp::invocation::{
    check_prompt, conclude, config_path_override, default_additional_args, default_timeout_secs,
    DrainOutcome, FatalError, GeminiArgs,
};
use gemini_mcp::record::{decode_record, ErrorField};
use gemini_mcp::stream::{
    join_strings, ExitOutcome, StreamState, MAX_NON_JSON_LINES, MAX_STDERR_BYTES,
};
use gemini_mcp::text::push_decimal;

fn clean_exit() -> ExitOutcome {
    ExitOutcome { success: true, code: Some(0) }
}

#[test]
fn assistant_record_with_session_succeeds() {
    let mut state = StreamState::new();
    state.on_stdout_line(
        r#"{"session_id":"S-1","type":"message","role":"assistant","content":"hello"}"#,
    );
    let out = state.finish(clean_exit());
    assert!(out.success);
    assert_eq!(out.session_id, "S-1");
    assert_eq!(out.agent_messages, "hello");
    assert!(out.error.is_none());
    assert_eq!(out.all_messages.len(), 1);
}

#[test]
fn deprecation_notice_is_not_assistant_text() {
    let mut state = StreamState::new();
    state.on_stdout_line(
        r#"{"session_id":"S-2","type":"message","role":"assistant","content":"note: The --prompt (-p) flag has been deprecated, sorry"}"#,
    );
    assert_eq!(state.result.session_id, "S-2");
    assert_eq!(state.result.agent_messages, "");
    assert!(state.result.success);
}

#[test]
fn assistant_texts_join_in_order() {
    let mut state = StreamState::new();
    state.on_stdout_line(r#"{"type":"message","role":"assistant","content":"A"}"#);
    state.on_stdout_line(r#"{"type":"message","role":"assistant","content":"B"}"#);
    assert_eq!(state.result.agent_messages, "A\nB");
}

#[test]
fn non_assistant_records_add_no_text() {
    let mut state = StreamState::new();
    state.on_stdout_line(r#"{"type":"message","role":"user","content":"question"}"#);
    state.on_stdout_line(r#"{"type":"tool_use","content":"x"}"#);
    state.on_stdout_line(r#"[1, 2, 3]"#);
    state.on_stdout_line(r#"42"#);
    assert_eq!(state.result.agent_messages, "");
    assert_eq!(state.result.all_messages.len(), 4);
    assert!(state.valid_json_seen);
}

#[test]
fn silent_child_fails_with_both_missing_lines() {
    let out = StreamState::new().finish(clean_exit());
    assert!(!out.success);
    assert_eq!(
        out.error.as_deref(),
        Some(
            "Failed to get `SESSION_ID` from the gemini session.\nFailed to get `agent_messages` from the gemini session."
        )
    );
}

#[test]
fn failed_exit_reports_code_and_raw_lines() {
    let mut state = StreamState::new();
    state.on_stdout_line("not json");
    state.on_stdout_line("  still not json  ");
    let out = state.finish(ExitOutcome { success: false, code: Some(2) });
    assert!(!out.success);
    let error = out.error.unwrap();
    assert!(error.starts_with(
        "gemini command failed with exit code: Some(2)\nNon-JSON output: not json\nstill not json"
    ));
    assert!(error.contains("Failed to get `SESSION_ID`"));
}

#[test]
fn failed_exit_by_signal_and_stderr() {
    let mut state = StreamState::new();
    state.on_stderr_line("boom");
    state.on_stderr_line("again");
    let out = state.finish(ExitOutcome { success: false, code: None });
    assert_eq!(
        out.error.as_deref(),
        Some(
            "gemini command failed with exit code: None\nStderr: boom\nagain\nFailed to get `SESSION_ID` from the gemini session.\nFailed to get `agent_messages` from the gemini session."
        )
    );
}

#[test]
fn failed_exit_keeps_classifier_narrative() {
    let mut state = StreamState::new();
    state.on_stdout_line(r#"{"session_id":"S","type":"error","message":"quota"}"#);
    state.on_stdout_line(r#"{"type":"message","role":"assistant","content":"partial"}"#);
    let out = state.finish(ExitOutcome { success: false, code: Some(-1) });
    assert!(!out.success);
    assert_eq!(out.error.as_deref(), Some("gemini error: quota"));
}

#[test]
fn clean_exit_without_json_fails() {
    let mut state = StreamState::new();
    state.on_stdout_line("garbage");
    let out = state.finish(clean_exit());
    assert!(!out.success);
    let error = out.error.unwrap();
    assert!(error.starts_with("No valid JSON output received from gemini CLI.\nOutput: garbage"));
}

#[test]
fn blank_lines_are_skipped() {
    let mut state = StreamState::new();
    state.on_stdout_line("   \t ");
    state.on_stdout_line("");
    assert!(state.non_json_lines.is_empty());
    assert!(!state.valid_json_seen);
    assert!(state.result.all_messages.is_empty());
}

#[test]
fn raw_lines_are_trimmed_and_capped() {
    let mut state = StreamState::new();
    for i in 0..(MAX_NON_JSON_LINES + 5) {
        state.on_stdout_line(&format!("  raw {}  ", i));
    }
    assert_eq!(state.non_json_lines.len(), MAX_NON_JSON_LINES);
    assert_eq!(state.non_json_lines[0], "raw 0");
}

#[test]
fn record_sequence_is_capped() {
    let mut state = StreamState::new();
    for _ in 0..(MAX_MESSAGES_LIMIT + 3) {
        state.on_stdout_line(r#"{"session_id":"late"}"#);
    }
    assert_eq!(state.result.all_messages.len(), MAX_MESSAGES_LIMIT);
    assert_eq!(state.result.session_id, "late");
}

#[test]
fn stderr_capture_is_capped_with_marker() {
    let mut state = StreamState::new();
    let line = "e".repeat(1000);
    for _ in 0..150 {
        state.on_stderr_line(&line);
    }
    assert!(state.stderr_output.len() <= MAX_STDERR_BYTES);
    assert_eq!(state.stderr_output.len(), MAX_STDERR_BYTES);
    assert!(state.stderr_truncated);
    let capture = state.stderr_capture();
    assert!(capture.ends_with("\n... (stderr truncated)"));
    assert_eq!(capture.len(), MAX_STDERR_BYTES + "\n... (stderr truncated)".len());
}

#[test]
fn stderr_capture_cuts_on_char_boundary() {
    let mut state = StreamState::new();
    state.on_stderr_line(&"a".repeat(MAX_STDERR_BYTES - 1));
    state.on_stderr_line("é");
    assert!(state.stderr_truncated);
    assert_eq!(state.stderr_output.len(), MAX_STDERR_BYTES);
    assert!(state.stderr_output.ends_with('\n'));
}

#[test]
fn stderr_under_cap_is_kept_whole() {
    let mut state = StreamState::new();
    state.on_stderr_line("one");
    state.on_stderr_line("two");
    assert_eq!(state.stderr_capture(), "one\ntwo");
    assert!(!state.stderr_truncated);
}

#[test]
fn error_object_message_becomes_narrative() {
    let mut result = GeminiResult::new();
    let rec = decode_record(r#"{"type":"result","error":{"message":"bad key"},"message":"ignored"}"#)
        .unwrap();
    assert!(matches!(rec.error, ErrorField::Object(Some(_))));
    process_json_line(rec, &mut result);
    assert!(!result.success);
    assert_eq!(result.error.as_deref(), Some("gemini error: bad key"));
}

#[test]
fn error_object_without_message_uses_top_level_message() {
    let mut result = GeminiResult::new();
    let rec = decode_record(r#"{"error":{"code":5},"message":"top"}"#).unwrap();
    assert!(matches!(rec.error, ErrorField::Object(None)));
    process_json_line(rec, &mut result);
    assert!(!result.success);
    assert_eq!(result.error.as_deref(), Some("gemini error: top"));
}

#[test]
fn error_object_without_any_message_adds_no_narrative() {
    let mut result = GeminiResult::new();
    process_json_line(decode_record(r#"{"error":{"code":5}}"#).unwrap(), &mut result);
    assert!(!result.success);
    assert!(result.error.is_none());
}

#[test]
fn error_fallback_extends_existing_narrative() {
    let mut result = GeminiResult::new();
    process_json_line(decode_record(r#"{"type":"error","message":"one"}"#).unwrap(), &mut result);
    process_json_line(decode_record(r#"{"error":{},"message":"two"}"#).unwrap(), &mut result);
    assert_eq!(result.error.as_deref(), Some("gemini error: one\ngemini error: two"));
}

#[test]
fn decoded_members_are_read_from_the_line() {
    let rec = decode_record(
        r#"{"session_id":"s","type":"t","role":"r","content":"c","message":"m","error":[1]}"#,
    )
    .unwrap();
    assert_eq!(rec.session_id.as_deref(), Some("s"));
    assert_eq!(rec.kind.as_deref(), Some("t"));
    assert_eq!(rec.role.as_deref(), Some("r"));
    assert_eq!(rec.content.as_deref(), Some("c"));
    assert_eq!(rec.message.as_deref(), Some("m"));
    assert!(matches!(rec.error, ErrorField::Other));
    let rec = decode_record(r#"{"content":5,"error":{"message":"x"}}"#).unwrap();
    assert!(rec.content.is_none());
    assert!(rec.session_id.is_none());
    assert!(matches!(rec.error, ErrorField::Object(Some(ref m)) if m == "x"));
    let rec = decode_record("[1]").unwrap();
    assert!(matches!(rec.error, ErrorField::Absent));
}

#[test]
fn empty_first_stderr_line_is_joined() {
    let mut state = StreamState::new();
    state.on_stderr_line("");
    state.on_stderr_line("x");
    assert_eq!(state.stderr_capture(), "\nx");
}

#[test]
fn stderr_exactly_full_then_more_is_marked() {
    let mut state = StreamState::new();
    state.on_stderr_line(&"a".repeat(MAX_STDERR_BYTES));
    assert!(!state.stderr_truncated);
    state.on_stderr_line("b");
    assert!(state.stderr_truncated);
    let capture = state.stderr_capture();
    assert_eq!(capture.len(), MAX_STDERR_BYTES + "\n... (stderr truncated)".len());
    assert_eq!(capture.matches("(stderr truncated)").count(), 1);
}

#[test]
fn first_records_are_kept_in_order() {
    let mut state = StreamState::new();
    for i in 0..(MAX_MESSAGES_LIMIT + 2) {
        state.on_stdout_line(&format!("{{\"n\":{}}}", i));
    }
    assert_eq!(state.result.all_messages.len(), MAX_MESSAGES_LIMIT);
    assert_eq!(state.result.all_messages[0]["n"], 0);
    assert_eq!(state.result.all_messages[MAX_MESSAGES_LIMIT - 1]["n"], (MAX_MESSAGES_LIMIT - 1) as u64);
}

#[test]
fn non_object_error_uses_top_level_message() {
    let mut result = GeminiResult::new();
    let rec = decode_record(r#"{"error":"x","message":"top"}"#).unwrap();
    assert!(matches!(rec.error, ErrorField::Other));
    process_json_line(rec, &mut result);
    assert!(!result.success);
    assert_eq!(result.error.as_deref(), Some("gemini error: top"));
}

#[test]
fn uppercase_failure_type_signals_error() {
    let mut result = GeminiResult::new();
    let rec = decode_record(r#"{"type":"TOOL_FAILURE"}"#).unwrap();
    process_json_line(rec, &mut result);
    assert!(!result.success);
    assert!(result.error.is_none());
}

#[test]
fn error_narrative_extends() {
    let mut result = GeminiResult::new();
    process_json_line(decode_record(r#"{"type":"error","message":"one"}"#).unwrap(), &mut result);
    process_json_line(decode_record(r#"{"type":"error","message":"two"}"#).unwrap(), &mut result);
    assert_eq!(result.error.as_deref(), Some("gemini error: one\ngemini error: two"));
}

#[test]
fn success_never_returns() {
    let mut result = GeminiResult::new();
    process_json_line(decode_record(r#"{"type":"error"}"#).unwrap(), &mut result);
    process_json_line(
        decode_record(r#"{"type":"message","role":"assistant","content":"fine"}"#).unwrap(),
        &mut result,
    );
    assert!(!result.success);
}

#[test]
fn empty_session_id_does_not_clear() {
    let mut result = GeminiResult::new();
    process_json_line(decode_record(r#"{"session_id":"keep"}"#).unwrap(), &mut result);
    process_json_line(decode_record(r#"{"session_id":""}"#).unwrap(), &mut result);
    process_json_line(decode_record(r#"{"session_id":7}"#).unwrap(), &mut result);
    assert_eq!(result.session_id, "keep");
}

#[test]
fn decode_rejects_non_json() {
    assert!(decode_record("{not json").is_none());
    assert!(decode_record(r#"{"a":1}"#).is_some());
}

#[test]
fn type_signal_checks_lowered_text() {
    assert!(type_signals_error("tool_failed"));
    assert!(type_signals_error("error"));
    assert!(!type_signals_error("message"));
    assert!(!type_signals_error("ERROR"));
}

#[test]
fn extend_narrative_cases() {
    assert_eq!(extend_narrative(None, "b"), "b");
    assert_eq!(extend_narrative(Some(String::new()), "b"), "b");
    assert_eq!(extend_narrative(Some("a".to_string()), "b"), "a\nb");
}

#[test]
fn timeout_clamps() {
    assert_eq!(default_timeout_secs(None), 600);
    assert_eq!(default_timeout_secs(Some(0)), 600);
    assert_eq!(default_timeout_secs(Some(30)), 30);
    assert_eq!(default_timeout_secs(Some(3600)), 3600);
    assert_eq!(default_timeout_secs(Some(3601)), 3600);
}

#[test]
fn additional_args_are_cleaned() {
    let raw = vec![" --model ".to_string(), "   ".to_string(), "x".to_string(), String::new()];
    assert_eq!(default_additional_args(&raw), vec!["--model", "x"]);
}

#[test]
fn config_path_override_cases() {
    assert_eq!(config_path_override(None), None);
    assert_eq!(config_path_override(Some("  ".to_string())), None);
    assert_eq!(config_path_override(Some(" /a/b.json ".to_string())), Some("/a/b.json".to_string()));
}

#[test]
fn prompt_check_rejects_blank() {
    assert!(check_prompt("go").is_ok());
    assert!(matches!(check_prompt(" \n\t"), Err(FatalError::InvalidPrompt)));
    assert!(matches!(check_prompt(""), Err(FatalError::InvalidPrompt)));
}

#[test]
fn tool_args_become_options() {
    let args = GeminiArgs { prompt: "p".to_string(), session_id: Some(String::new()) };
    let opts = args.into_options(vec!["--x".to_string()]).ok().unwrap();
    assert_eq!(opts.session_id, None);
    assert_eq!(opts.additional_args, vec!["--x"]);

    let args = GeminiArgs { prompt: "p".to_string(), session_id: Some("s".to_string()) };
    assert_eq!(args.into_options(Vec::new()).ok().unwrap().session_id, Some("s".to_string()));

    let args = GeminiArgs { prompt: "  ".to_string(), session_id: None };
    assert!(matches!(args.into_options(Vec::new()), Err(FatalError::InvalidPrompt)));
}

#[test]
fn timeout_concludes_with_error() {
    let r = conclude(DrainOutcome::DeadlineExceeded, 42);
    assert!(matches!(r, Err(FatalError::TimedOut { secs: 42 })));
    let r = conclude(DrainOutcome::Drained(StreamState::new(), clean_exit()), 42);
    assert!(matches!(r, Ok(ref res) if !res.success));
}

#[test]
fn text_wrappers() {
    assert_eq!(config_path_override(Some("  a b \n".to_string())), Some("a b".to_string()));
    assert!(type_signals_error("xxerrorxx"));
    assert!(!type_signals_error("erro"));
    let mut s = String::from("n=");
    push_decimal(&mut s, -2147483648);
    assert_eq!(s, "n=-2147483648");
    let mut s = String::new();
    push_decimal(&mut s, 907);
    assert_eq!(s, "907");
    assert_eq!(join_strings(&vec!["a".to_string(), "b".to_string()]), "a\nb");
}
