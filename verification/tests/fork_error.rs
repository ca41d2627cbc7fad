use agent_client_protocol::ErrorCode;
use codex_acp::fork_error::{
    anchor_not_found_error, fork_failed_error, source_busy_error, ANCHOR_NOT_FOUND_CODE,
    FORK_FAILED_CODE, SOURCE_BUSY_CODE,
};

#[test]
fn fork_failed_error_is_distinct_from_source_busy_and_not_retryable_coded() {
    let fork_failed = fork_failed_error("spawn_thread failed: disk full");
    assert_eq!(fork_failed.code, FORK_FAILED_CODE.into());
    assert!(fork_failed.message.contains("fork_failed"));

    let busy = source_busy_error("rollout busy");
    assert_eq!(busy.code, SOURCE_BUSY_CODE.into());
    assert_ne!(fork_failed.code, busy.code);
}

#[test]
fn anchor_not_found_error_has_its_code_and_message() {
    let error = anchor_not_found_error();
    assert_eq!(error.code, ErrorCode::Other(-32011));
    assert_eq!(error.code, ANCHOR_NOT_FOUND_CODE.into());
    assert_eq!(
        error.message,
        "anchor_not_found: no user message in the source session's rollout matched the fork \
         anchor (it may have been folded into a context-compaction summary)"
    );
    assert_eq!(error.data, None);
}

#[test]
fn details_stand_in_brackets() {
    let busy = source_busy_error("SQLITE_BUSY");
    assert_eq!(i32::from(busy.code), -32012);
    assert_eq!(
        busy.message,
        "source_busy: the source session's rollout/state is temporarily unavailable, \
         retry shortly (SQLITE_BUSY)"
    );
    assert_eq!(busy.data, None);
    let failed = fork_failed_error(&28);
    assert_eq!(i32::from(failed.code), -32014);
    assert_eq!(failed.message, "fork_failed: the fork operation itself failed (28)");
    assert_eq!(failed.data, None);
}
