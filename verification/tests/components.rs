use iocost_bot::event::{decode_payload, resolve_event, EventDecision};
use iocost_bot::filenames::result_filename;
use iocost_bot::links::{default_allowlist, extract_urls, is_url_whitelisted};
use iocost_bot::merge::{is_result_filename, merge_args, merged_path};
use iocost_bot::model::{check_tool_stderr, get_summary, info_args, model_name_from_info};
use iocost_bot::publish::{branch_name, commit_message, plan_publish, push_refspec};
use iocost_bot::run::{joined_path, model_directory_path, RunState};
use iocost_bot::PipelineError;

fn payload(
    event_name: &str,
    action: &str,
    locked: &str,
    state: &str,
    issue_body: Option<&str>,
    comment_body: Option<&str>,
) -> String {
    let issue_body = match issue_body {
        Some(b) => format!(",\"body\":\"{}\"", b),
        None => String::new(),
    };
    let comment = match comment_body {
        Some(b) => format!(",\"comment\":{{\"body\":\"{}\"}}", b),
        None => String::new(),
    };
    format!(
        "{{\"event_name\":\"{}\",\"event\":{{\"action\":\"{}\",\"issue\":{{\"id\":42,\"locked\":{},\"state\":\"{}\"{}}}{}}}}}",
        event_name, action, locked, state, issue_body, comment
    )
}

#[test]
fn decode_reads_issue_fields() {
    let raw = payload("issues", "opened", "false", "open", Some("hello"), None);
    let ctx = decode_payload(&raw).unwrap();
    assert_eq!(ctx.event_name.as_deref(), Some("issues"));
    assert_eq!(ctx.action.as_deref(), Some("opened"));
    assert_eq!(ctx.issue_locked, Some(false));
    assert_eq!(ctx.issue_state.as_deref(), Some("open"));
    assert_eq!(ctx.issue_body.as_deref(), Some("hello"));
    assert_eq!(ctx.comment_body, None);
    assert_eq!(ctx.issue_id, Some(42));
}

#[test]
fn decode_rejects_garbage() {
    assert!(matches!(
        decode_payload("not json at all {"),
        Err(PipelineError::MalformedPayload)
    ));
}

#[test]
fn resolve_opened_takes_issue_body() {
    let raw = payload("issues", "opened", "false", "open", Some("the text"), None);
    let ctx = decode_payload(&raw).unwrap();
    match resolve_event(&ctx).unwrap() {
        EventDecision::Proceed { body, issue_id } => {
            assert_eq!(body, "the text");
            assert_eq!(issue_id, 42);
        }
        _ => panic!("expected a proceeding run"),
    }
}

#[test]
fn resolve_created_takes_comment_body() {
    let raw = payload(
        "issue_comment",
        "created",
        "false",
        "open",
        Some("issue text"),
        Some("comment text"),
    );
    let ctx = decode_payload(&raw).unwrap();
    match resolve_event(&ctx).unwrap() {
        EventDecision::Proceed { body, .. } => assert_eq!(body, "comment text"),
        _ => panic!("expected a proceeding run"),
    }
}

#[test]
fn resolve_comment_edit_takes_comment_body() {
    let raw = payload(
        "issue_comment",
        "edited",
        "false",
        "open",
        Some("issue text"),
        Some("new comment text"),
    );
    let ctx = decode_payload(&raw).unwrap();
    match resolve_event(&ctx).unwrap() {
        EventDecision::Proceed { body, .. } => assert_eq!(body, "new comment text"),
        _ => panic!("expected a proceeding run"),
    }
}

#[test]
fn resolve_issue_edit_takes_issue_body() {
    let raw = payload(
        "issues",
        "edited",
        "false",
        "open",
        Some("new issue text"),
        Some("stale comment"),
    );
    let ctx = decode_payload(&raw).unwrap();
    match resolve_event(&ctx).unwrap() {
        EventDecision::Proceed { body, .. } => assert_eq!(body, "new issue text"),
        _ => panic!("expected a proceeding run"),
    }
}

#[test]
fn resolve_locked_issue_skips() {
    let raw = payload("issues", "opened", "true", "open", Some("hello"), None);
    let ctx = decode_payload(&raw).unwrap();
    assert!(matches!(resolve_event(&ctx), Ok(EventDecision::Skip)));
}

#[test]
fn resolve_closed_issue_skips() {
    let raw = payload("issues", "opened", "false", "closed", Some("hello"), None);
    let ctx = decode_payload(&raw).unwrap();
    assert!(matches!(resolve_event(&ctx), Ok(EventDecision::Skip)));
}

#[test]
fn resolve_unknown_action_is_fatal() {
    let raw = payload("issues", "deleted", "false", "open", Some("hello"), None);
    let ctx = decode_payload(&raw).unwrap();
    match resolve_event(&ctx) {
        Err(PipelineError::UnhandledEvent { event_name, action }) => {
            assert_eq!(event_name.as_deref(), Some("issues"));
            assert_eq!(action, "deleted");
        }
        _ => panic!("expected an unhandled-event error"),
    }
}

#[test]
fn resolve_missing_body_is_fatal() {
    let raw = payload("issues", "opened", "false", "open", None, None);
    let ctx = decode_payload(&raw).unwrap();
    assert!(matches!(
        resolve_event(&ctx),
        Err(PipelineError::MissingContent)
    ));
}

#[test]
fn resolve_missing_locked_is_fatal() {
    let raw = "{\"event_name\":\"issues\",\"event\":{\"action\":\"opened\",\"issue\":{\"id\":1,\"state\":\"open\",\"body\":\"x\"}}}";
    let ctx = decode_payload(raw).unwrap();
    assert!(matches!(
        resolve_event(&ctx),
        Err(PipelineError::MalformedPayload)
    ));
}

#[test]
fn whitelist_accepts_trusted_origins_only() {
    assert!(is_url_whitelisted(
        "https://github.com/kov/iocost-benchmarks/files/123/result.json.gz"
    ));
    assert!(is_url_whitelisted(
        "https://iocost-submit.s3.eu-west-1.amazonaws.com/abc/result.json.gz"
    ));
    assert!(!is_url_whitelisted("https://example.com/result.json.gz"));
    assert!(!is_url_whitelisted(
        "http://github.com/kov/iocost-benchmarks/files/123"
    ));
    assert!(!is_url_whitelisted(""));
}

#[test]
fn extract_keeps_trusted_links_in_order() {
    let text = "first https://github.com/kov/iocost-benchmarks/files/1/a.json.gz then\n\
                see https://evil.example.com/x and also\n\
                https://iocost-submit.s3.eu-west-1.amazonaws.com/b.json.gz at the end";
    let allow = default_allowlist();
    let r = extract_urls(text, &allow);
    assert_eq!(
        r.accepted,
        vec![
            "https://github.com/kov/iocost-benchmarks/files/1/a.json.gz".to_string(),
            "https://iocost-submit.s3.eu-west-1.amazonaws.com/b.json.gz".to_string(),
        ]
    );
    assert_eq!(r.rejected, vec!["https://evil.example.com/x".to_string()]);
}

#[test]
fn extract_keeps_duplicates() {
    let text = "https://iocost-submit.s3.eu-west-1.amazonaws.com/a \
                https://iocost-submit.s3.eu-west-1.amazonaws.com/a";
    let allow = default_allowlist();
    let r = extract_urls(text, &allow);
    assert_eq!(r.accepted.len(), 2);
    assert_eq!(r.accepted[0], r.accepted[1]);
}

#[test]
fn extract_finds_nothing_in_plain_prose() {
    let allow = default_allowlist();
    let r = extract_urls("no links here, only words", &allow);
    assert!(r.accepted.is_empty());
    assert!(r.rejected.is_empty());
}

#[test]
fn filename_is_digest_of_content() {
    let name = result_filename(&b"abc".to_vec());
    assert_eq!(name, "result-900150983cd24fb0d6963f7d28e17f72.json.gz");
}

#[test]
fn filename_of_empty_content() {
    let name = result_filename(&Vec::new());
    assert_eq!(name, "result-d41d8cd98f00b204e9800998ecf8427e.json.gz");
}

#[test]
fn filename_same_content_same_name() {
    let a = result_filename(&b"same bytes".to_vec());
    let b = result_filename(&b"same bytes".to_vec());
    assert_eq!(a, b);
    let c = result_filename(&b"other bytes".to_vec());
    assert_ne!(a, c);
}

#[test]
fn model_name_is_normalized() {
    let r = model_name_from_info("hdd: Seagate  Barracuda\t2TB \nmore\n", "");
    assert_eq!(r.unwrap(), "Seagate_Barracuda_2TB");
}

#[test]
fn model_name_stderr_is_fatal() {
    match model_name_from_info("hdd: Fine Model\n", "warning: something\n") {
        Err(PipelineError::ExternalToolError { stderr }) => {
            assert_eq!(stderr, "warning: something\n");
        }
        _ => panic!("expected the error stream to be fatal"),
    }
}

#[test]
fn model_name_needs_first_line() {
    assert!(matches!(
        model_name_from_info("no newline at all", ""),
        Err(PipelineError::ParseError)
    ));
    assert!(matches!(
        model_name_from_info("no separator here\nrest\n", ""),
        Err(PipelineError::ParseError)
    ));
}

#[test]
fn model_name_refuses_path_separator() {
    assert!(matches!(
        model_name_from_info("hdd: bad/name\n", ""),
        Err(PipelineError::InvalidModelName)
    ));
}

#[test]
fn tool_stderr_policy() {
    assert!(check_tool_stderr("").is_ok());
    assert!(matches!(
        check_tool_stderr("oops"),
        Err(PipelineError::ExternalToolError { .. })
    ));
}

#[test]
fn info_args_shape() {
    let args = info_args("result-aa.json.gz");
    assert_eq!(args, vec!["--result", "result-aa.json.gz", "info"]);
}

#[test]
fn summary_is_empty_for_now() {
    assert_eq!(get_summary("anything").unwrap(), "");
}

#[test]
fn result_filename_pattern() {
    assert!(is_result_filename("result-900150983c.json.gz"));
    assert!(is_result_filename("result-.json.gz"));
    assert!(!is_result_filename("merged-results.json.gz"));
    assert!(!is_result_filename("result-abc.json"));
    assert!(!is_result_filename("result-a/b.json.gz"));
    assert!(!is_result_filename(""));
}

#[test]
fn merge_args_lists_result_files_only() {
    let entries = vec![
        "result-aa.json.gz".to_string(),
        "merged-results.json.gz".to_string(),
        "result-bb.json.gz".to_string(),
        "notes.txt".to_string(),
    ];
    let args = merge_args("database/Model_X", &entries);
    assert_eq!(
        args,
        vec![
            "--result".to_string(),
            "database/Model_X/merged-results.json.gz".to_string(),
            "merge".to_string(),
            "database/Model_X/result-aa.json.gz".to_string(),
            "database/Model_X/result-bb.json.gz".to_string(),
        ]
    );
    assert_eq!(
        merged_path("database/Model_X"),
        "database/Model_X/merged-results.json.gz"
    );
}

#[test]
fn paths_are_joined_under_database() {
    assert_eq!(model_directory_path("Model_X"), "database/Model_X");
    assert_eq!(
        joined_path("database/Model_X", "result-aa.json.gz"),
        "database/Model_X/result-aa.json.gz"
    );
}

#[test]
fn run_state_stages_in_order_and_touches_once() {
    let mut state = RunState::new();
    state.stage("database/a/result-1.json.gz".to_string());
    state.stage("database/b/result-2.json.gz".to_string());
    state.touch("database/a".to_string());
    state.touch("database/b".to_string());
    state.touch("database/a".to_string());
    assert_eq!(
        state.staged,
        vec![
            "database/a/result-1.json.gz".to_string(),
            "database/b/result-2.json.gz".to_string(),
        ]
    );
    assert_eq!(
        state.touched,
        vec!["database/a".to_string(), "database/b".to_string()]
    );
}

#[test]
fn branch_and_refspec_follow_issue_id() {
    assert_eq!(branch_name(42), "iocost-bot/42");
    assert_eq!(branch_name(0), "iocost-bot/0");
    assert_eq!(branch_name(1234567890123), "iocost-bot/1234567890123");
    assert_eq!(
        push_refspec("iocost-bot/42"),
        "+HEAD:refs/heads/iocost-bot/42"
    );
}

#[test]
fn commit_message_joins_touched_directories() {
    assert_eq!(
        commit_message(&vec!["database/a".to_string(), "database/b".to_string()]),
        "Updated database/a, database/b"
    );
    assert_eq!(commit_message(&vec!["database/a".to_string()]), "Updated database/a");
    assert_eq!(commit_message(&Vec::new()), "Updated ");
}

#[test]
fn empty_change_set_means_no_publish() {
    let state = RunState::new();
    assert!(plan_publish(state, 42).is_none());
}

#[test]
fn publish_plan_carries_the_run() {
    let mut state = RunState::new();
    state.stage("database/a/result-1.json.gz".to_string());
    state.touch("database/a".to_string());
    let plan = plan_publish(state, 42).unwrap();
    assert_eq!(plan.paths, vec!["database/a/result-1.json.gz".to_string()]);
    assert_eq!(plan.message, "Updated database/a");
    assert_eq!(plan.branch, "iocost-bot/42");
    assert_eq!(plan.refspec, "+HEAD:refs/heads/iocost-bot/42");
}
