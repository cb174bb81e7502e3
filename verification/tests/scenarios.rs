//! Whole-run scenarios over the library: the caller's I/O is replaced by
//! fixed bytes and fixed tool output, and the run's decisions are checked
//! end to end.

use iocost_bot::event::{decode_payload, resolve_event, EventDecision};
use iocost_bot::filenames::result_filename;
use iocost_bot::links::{default_allowlist, extract_urls};
use iocost_bot::merge::merge_args;
use iocost_bot::model::model_name_from_info;
use iocost_bot::publish::plan_publish;
use iocost_bot::run::{joined_path, model_directory_path, RunState};
use iocost_bot::PipelineError;

fn opened_payload(body: &str) -> String {
    format!(
        "{{\"event_name\":\"issues\",\"event\":{{\"action\":\"opened\",\"issue\":{{\"id\":7,\"locked\":false,\"state\":\"open\",\"body\":\"{}\"}}}}}}",
        body
    )
}

#[test]
fn opened_issue_with_one_trusted_url_publishes_once() {
    let raw = opened_payload(
        "please merge https://iocost-submit.s3.eu-west-1.amazonaws.com/r.json.gz thanks",
    );
    let ctx = decode_payload(&raw).unwrap();
    let body = match resolve_event(&ctx).unwrap() {
        EventDecision::Proceed { body, issue_id } => {
            assert_eq!(issue_id, 7);
            body
        }
        _ => panic!("expected a proceeding run"),
    };
    let links = extract_urls(&body, &default_allowlist());
    assert_eq!(links.accepted.len(), 1);
    assert!(links.rejected.is_empty());

    // One download, one model, one placement.
    let mut state = RunState::new();
    let filename = result_filename(&b"result bytes".to_vec());
    let model = model_name_from_info("hdd: Test  Model\nrest\n", "").unwrap();
    assert_eq!(model, "Test_Model");
    let dir = model_directory_path(&model);
    state.stage(joined_path(&dir, &filename));
    state.touch(dir.clone());
    assert_eq!(state.touched, vec![dir.clone()]);

    // One merge over the directory's result files, then one commit plan.
    let entries = vec![filename.clone()];
    let args = merge_args(&dir, &entries);
    assert_eq!(args.len(), 4);
    assert_eq!(args[3], joined_path(&dir, &filename));

    let plan = plan_publish(state, 7).unwrap();
    assert_eq!(plan.paths, vec![joined_path(&dir, &filename)]);
    assert_eq!(plan.branch, "iocost-bot/7");
}

#[test]
fn locked_issue_ends_quietly_with_nothing_staged() {
    let raw = "{\"event_name\":\"issues\",\"event\":{\"action\":\"opened\",\"issue\":{\"id\":7,\"locked\":true,\"state\":\"open\",\"body\":\"https://iocost-submit.s3.eu-west-1.amazonaws.com/r.json.gz\"}}}";
    let ctx = decode_payload(raw).unwrap();
    assert!(matches!(resolve_event(&ctx), Ok(EventDecision::Skip)));
    // Nothing was staged, so nothing may be committed.
    let state = RunState::new();
    assert!(plan_publish(state, 7).is_none());
}

#[test]
fn untrusted_url_is_rejected_and_only_trusted_downloaded() {
    let raw = opened_payload(
        "https://iocost-submit.s3.eu-west-1.amazonaws.com/good.json.gz and https://evil.example.com/bad.json.gz",
    );
    let ctx = decode_payload(&raw).unwrap();
    let body = match resolve_event(&ctx).unwrap() {
        EventDecision::Proceed { body, .. } => body,
        _ => panic!("expected a proceeding run"),
    };
    let links = extract_urls(&body, &default_allowlist());
    assert_eq!(
        links.accepted,
        vec!["https://iocost-submit.s3.eu-west-1.amazonaws.com/good.json.gz".to_string()]
    );
    assert_eq!(
        links.rejected,
        vec!["https://evil.example.com/bad.json.gz".to_string()]
    );
}

#[test]
fn two_urls_one_model_share_a_directory_and_one_merge() {
    let mut state = RunState::new();
    let report = "hdd: Shared Model\n";
    let mut entries: Vec<String> = Vec::new();
    for bytes in [b"first result".to_vec(), b"second result".to_vec()] {
        let filename = result_filename(&bytes);
        let model = model_name_from_info(report, "").unwrap();
        let dir = model_directory_path(&model);
        assert_eq!(dir, "database/Shared_Model");
        state.stage(joined_path(&dir, &filename));
        state.touch(dir);
        entries.push(filename);
    }
    // The directory is recorded once, so it is merged once.
    assert_eq!(state.touched, vec!["database/Shared_Model".to_string()]);
    let args = merge_args("database/Shared_Model", &entries);
    assert_eq!(
        &args[3..],
        &[
            joined_path("database/Shared_Model", &entries[0]),
            joined_path("database/Shared_Model", &entries[1]),
        ]
    );
    let plan = plan_publish(state, 7).unwrap();
    assert_eq!(plan.message, "Updated database/Shared_Model");
}

#[test]
fn tool_stderr_aborts_before_any_staging() {
    let state = RunState::new();
    let r = model_name_from_info("hdd: Fine Model\n", "something went wrong\n");
    assert!(matches!(r, Err(PipelineError::ExternalToolError { .. })));
    // The failure comes before anything reaches the stage list.
    assert!(state.staged.is_empty());
    assert!(plan_publish(state, 7).is_none());
}
