use post_build_postgres::engine::{
    finish_build, plan_cursor_step, step_entry, BuildRecord, CorrelationState, CursorDirective,
    CursorStatus, LogEntry, PendingBuild, StepOutcome,
};
use post_build_postgres::errors::EngineError;
use post_build_postgres::host::{is_cloud_host, parse_instance_identity, resolve_host_identity, InstanceIdentity};
use post_build_postgres::marker::{parse_completion_payload, parse_session_start};
use post_build_postgres::paths::{derive_name, get_log_path};
use post_build_postgres::timing::get_build_time;

fn completion_entry(payload: &str, ts: u64) -> LogEntry {
    LogEntry {
        tag: "post-build-hook".to_string(),
        payload: Some(payload.to_string()),
        timestamp_usec: ts,
    }
}

fn session_entry(payload: &str, ts: u64) -> LogEntry {
    LogEntry {
        tag: "nixpkgs-review-start".to_string(),
        payload: Some(payload.to_string()),
        timestamp_usec: ts,
    }
}

fn host_identity(ty: &str, id: &str) -> InstanceIdentity {
    InstanceIdentity { instance_type: ty.to_string(), instance_id: id.to_string() }
}

fn expect_pending(outcome: StepOutcome) -> PendingBuild {
    match outcome {
        StepOutcome::NeedTiming(p) => p,
        _ => panic!("expected a pending build"),
    }
}

fn expect_emitted_error(outcome: StepOutcome) -> EngineError {
    match outcome {
        StepOutcome::Emit(Err(e)) => e,
        _ => panic!("expected an emitted error"),
    }
}

#[test]
fn completion_payload_keeps_token_count_and_order() {
    let payload = "{\"DRV_PATH\":\"/nix/store/abc123-hello.drv\",\"OUT_PATHS\":\"/nix/store/o1 /nix/store/o2 /nix/store/o3\"}";
    let m = parse_completion_payload(payload).unwrap();
    assert_eq!(m.drv_path, "/nix/store/abc123-hello.drv");
    assert_eq!(m.out_paths, vec!["/nix/store/o1", "/nix/store/o2", "/nix/store/o3"]);
}

#[test]
fn completion_payload_single_token() {
    let payload = "{\"DRV_PATH\":\"/nix/store/abc123-hello.drv\",\"OUT_PATHS\":\"/nix/store/only\"}";
    let m = parse_completion_payload(payload).unwrap();
    assert_eq!(m.out_paths, vec!["/nix/store/only"]);
}

#[test]
fn completion_payload_missing_field_fails() {
    let payload = "{\"DRV_PATH\":\"/nix/store/abc123-hello.drv\"}";
    assert_eq!(parse_completion_payload(payload).unwrap_err(), EngineError::PayloadParseError);
}

#[test]
fn completion_payload_wrong_type_fails() {
    let payload = "{\"DRV_PATH\":7,\"OUT_PATHS\":\"/nix/store/o1\"}";
    assert_eq!(parse_completion_payload(payload).unwrap_err(), EngineError::PayloadParseError);
}

#[test]
fn completion_payload_not_json_fails() {
    assert_eq!(
        parse_completion_payload("not structured text").unwrap_err(),
        EngineError::PayloadParseError
    );
}

#[test]
fn session_payload_parses_integer() {
    assert_eq!(parse_session_start("{\"pr\": 42}").unwrap(), 42);
}

#[test]
fn session_payload_rejects_non_integer() {
    assert_eq!(
        parse_session_start("{\"pr\": \"forty-two\"}").unwrap_err(),
        EngineError::PayloadParseError
    );
    assert_eq!(parse_session_start("{}").unwrap_err(), EngineError::PayloadParseError);
    assert_eq!(parse_session_start("garbage").unwrap_err(), EngineError::PayloadParseError);
}

#[test]
fn name_derivation_strips_hash_and_extension() {
    assert_eq!(derive_name("/nix/store/abcdef01-foo.drv").unwrap(), "foo");
}

#[test]
fn name_derivation_keeps_inner_dots() {
    assert_eq!(derive_name("/p/h-foo.tar.gz").unwrap(), "foo.tar");
}

#[test]
fn name_derivation_without_slash_fails() {
    assert_eq!(derive_name("abcdef01-foo.drv").unwrap_err(), EngineError::MalformedPath);
}

#[test]
fn name_derivation_without_dash_fails() {
    assert_eq!(derive_name("/nix/store/nodash.drv").unwrap_err(), EngineError::MalformedPath);
}

#[test]
fn name_derivation_without_extension_fails() {
    assert_eq!(derive_name("/nix/store/hash-noext").unwrap_err(), EngineError::MalformedPath);
}

#[test]
fn log_path_shards_on_first_two_characters() {
    assert_eq!(
        get_log_path("/nix/store/abcdef01-foo.drv").unwrap(),
        "/nix/var/log/nix/drvs/ab/cdef01-foo.drv.bz2"
    );
}

#[test]
fn log_path_of_short_component_fails() {
    assert_eq!(get_log_path("/x/a").unwrap_err(), EngineError::MalformedPath);
}

#[test]
fn build_time_is_modification_minus_creation() {
    let created = 1_700_000_000_000_000u64;
    let modified = created + 90_000_000;
    assert_eq!(get_build_time(Some(created), Some(modified)).unwrap(), 90_000_000);
}

#[test]
fn build_time_missing_file_fails() {
    assert_eq!(get_build_time(None, None).unwrap_err(), EngineError::TimingUnavailable);
    assert_eq!(
        get_build_time(Some(5), None).unwrap_err(),
        EngineError::TimingUnavailable
    );
    assert_eq!(
        get_build_time(None, Some(5)).unwrap_err(),
        EngineError::TimingUnavailable
    );
}

#[test]
fn build_time_backwards_clock_fails() {
    assert_eq!(
        get_build_time(Some(10), Some(9)).unwrap_err(),
        EngineError::TimingUnavailable
    );
}

#[test]
fn cloud_marker_detection() {
    assert!(!is_cloud_host(&None));
    assert!(!is_cloud_host(&Some("qemu".to_string())));
    assert!(!is_cloud_host(&Some("ec".to_string())));
    assert!(is_cloud_host(&Some("ec2abc-uuid".to_string())));
}

#[test]
fn non_cloud_host_yields_empty_identity() {
    let body = Some("{\"instanceType\":\"t3.large\",\"instanceId\":\"i-0abc\"}".to_string());
    let id = resolve_host_identity(&None, &body);
    assert_eq!(id.instance_type, "");
    assert_eq!(id.instance_id, "");
    let id = resolve_host_identity(&Some("qemu".to_string()), &body);
    assert_eq!(id.instance_type, "");
    assert_eq!(id.instance_id, "");
}

#[test]
fn cloud_host_identity_parses_metadata() {
    let body = "{\"instanceType\":\"t3.large\",\"instanceId\":\"i-0abc\"}";
    let id = parse_instance_identity(body).unwrap();
    assert_eq!(id.instance_type, "t3.large");
    assert_eq!(id.instance_id, "i-0abc");
    let resolved =
        resolve_host_identity(&Some("ec2-uuid".to_string()), &Some(body.to_string()));
    assert_eq!(resolved.instance_type, "t3.large");
    assert_eq!(resolved.instance_id, "i-0abc");
}

#[test]
fn cloud_host_malformed_metadata_degrades_to_empty() {
    let resolved = resolve_host_identity(
        &Some("ec2-uuid".to_string()),
        &Some("no json here".to_string()),
    );
    assert_eq!(resolved.instance_type, "");
    assert_eq!(resolved.instance_id, "");
    let resolved = resolve_host_identity(&Some("ec2-uuid".to_string()), &None);
    assert_eq!(resolved.instance_type, "");
    assert_eq!(resolved.instance_id, "");
}

fn complete_one(state: &CorrelationState, entry: &LogEntry) -> Result<BuildRecord, EngineError> {
    let mut scratch = CorrelationState { current_session_id: state.current_session_id };
    let pending = expect_pending(step_entry(&mut scratch, entry));
    assert_eq!(pending.log_path, "/nix/var/log/nix/drvs/ab/cdef01-foo.drv.bz2");
    let created = 1_700_000_000_000_000u64;
    finish_build(
        state,
        pending,
        Some(created),
        Some(created + 90_000_000),
        &host_identity("t3.large", "i-0abc"),
    )
}

const COMPLETION: &str =
    "{\"DRV_PATH\":\"/nix/store/abcdef01-foo.drv\",\"OUT_PATHS\":\"/nix/store/o1 /nix/store/o2\"}";

#[test]
fn completion_after_session_start_carries_session_id() {
    let mut state = CorrelationState::new();
    match step_entry(&mut state, &session_entry("{\"pr\": 42}", 10)) {
        StepOutcome::Advance => {}
        _ => panic!("session start should advance silently"),
    }
    assert_eq!(state.current_session_id, Some(42));
    let record = complete_one(&state, &completion_entry(COMPLETION, 20)).unwrap();
    assert_eq!(record.pull_request_number, 42);
    assert_eq!(record.name, "foo");
    assert_eq!(record.drv_path, "/nix/store/abcdef01-foo.drv");
    assert_eq!(record.out_paths, vec!["/nix/store/o1", "/nix/store/o2"]);
    assert_eq!(record.timestamp_usec, 20);
    assert_eq!(record.build_elapsed_usec, 90_000_000);
    assert_eq!(record.instance_type, "t3.large");
    assert_eq!(record.instance_id, "i-0abc");
}

#[test]
fn completion_before_any_session_start_is_missing_context() {
    let state = CorrelationState::new();
    assert_eq!(
        complete_one(&state, &completion_entry(COMPLETION, 20)).unwrap_err(),
        EngineError::MissingSessionContext
    );
}

#[test]
fn later_session_start_overwrites_earlier_one() {
    let mut state = CorrelationState::new();
    step_entry(&mut state, &session_entry("{\"pr\": 7}", 1));
    step_entry(&mut state, &session_entry("{\"pr\": 9}", 2));
    assert_eq!(state.current_session_id, Some(9));
    let record = complete_one(&state, &completion_entry(COMPLETION, 3)).unwrap();
    assert_eq!(record.pull_request_number, 9);
}

#[test]
fn malformed_payload_keeps_state_and_next_step_proceeds() {
    let mut state = CorrelationState::new();
    step_entry(&mut state, &session_entry("{\"pr\": 5}", 1));
    let e = expect_emitted_error(step_entry(&mut state, &completion_entry("not json", 2)));
    assert_eq!(e, EngineError::PayloadParseError);
    assert_eq!(state.current_session_id, Some(5));
    let record = complete_one(&state, &completion_entry(COMPLETION, 3)).unwrap();
    assert_eq!(record.pull_request_number, 5);
}

#[test]
fn malformed_session_payload_does_not_update_state() {
    let mut state = CorrelationState::new();
    step_entry(&mut state, &session_entry("{\"pr\": 11}", 1));
    let e = expect_emitted_error(step_entry(&mut state, &session_entry("{\"pr\": \"x\"}", 2)));
    assert_eq!(e, EngineError::PayloadParseError);
    assert_eq!(state.current_session_id, Some(11));
}

#[test]
fn missing_payload_is_a_parse_error() {
    let mut state = CorrelationState::new();
    let entry = LogEntry {
        tag: "post-build-hook".to_string(),
        payload: None,
        timestamp_usec: 1,
    };
    let e = expect_emitted_error(step_entry(&mut state, &entry));
    assert_eq!(e, EngineError::PayloadParseError);
}

#[test]
fn unrecognized_tag_is_reported_and_state_kept() {
    let mut state = CorrelationState::new();
    step_entry(&mut state, &session_entry("{\"pr\": 3}", 1));
    let entry = LogEntry {
        tag: "some-other-service".to_string(),
        payload: Some("whatever".to_string()),
        timestamp_usec: 2,
    };
    let e = expect_emitted_error(step_entry(&mut state, &entry));
    assert_eq!(e, EngineError::UnrecognizedEntry);
    assert_eq!(state.current_session_id, Some(3));
}

#[test]
fn completion_with_malformed_derivation_path_is_reported() {
    let mut state = CorrelationState::new();
    let payload = "{\"DRV_PATH\":\"nodash\",\"OUT_PATHS\":\"/nix/store/o1\"}";
    let e = expect_emitted_error(step_entry(&mut state, &completion_entry(payload, 1)));
    assert_eq!(e, EngineError::MalformedPath);
}

#[test]
fn record_timestamp_comes_from_the_entry() {
    let mut state = CorrelationState::new();
    step_entry(&mut state, &session_entry("{\"pr\": 1}", 100));
    let record = complete_one(&state, &completion_entry(COMPLETION, 12_345_678)).unwrap();
    assert_eq!(record.timestamp_usec, 12_345_678);
}

#[test]
fn transient_empty_log_waits_and_never_stops() {
    assert_eq!(plan_cursor_step(&CursorStatus::NothingNew), CursorDirective::WaitForMore);
    assert_eq!(plan_cursor_step(&CursorStatus::EntryReady), CursorDirective::ProcessEntry);
    assert_eq!(plan_cursor_step(&CursorStatus::Fault), CursorDirective::StopWithFault);
}

#[test]
fn error_messages_name_each_condition() {
    assert_eq!(
        EngineError::MissingSessionContext.message(),
        "completion seen before any session start"
    );
    assert_eq!(EngineError::CursorFault.message(), "event log cursor failed irrecoverably");
}
