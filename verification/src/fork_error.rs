//! The JSON-RPC errors that a fork request can be answered with.

use crate::text::{concatenation_contains_middle, contains_text};
use agent_client_protocol::{Error, ErrorCode};
use vstd::prelude::*;
use vstd::string::to_string_from_display_ensures;

verus! {

/// The anchor matches no user message of the source session, for example
/// because the message went into a compaction summary. Not worth a retry.
pub const ANCHOR_NOT_FOUND_CODE: i32 = -32011;

/// The source session's state or rollout could not be read for now. Worth a
/// retry.
pub const SOURCE_BUSY_CODE: i32 = -32012;

/// The fork itself failed, after the source was read and the anchor was found.
/// The same request will hardly succeed later: not worth a retry.
pub const FORK_FAILED_CODE: i32 = -32014;

/// `serde_json::Value`, of which nothing is known here.
#[verifier::external_type_specification]
#[verifier::external_body]
pub struct ExJsonValue(serde_json::Value);

/// `agent_client_protocol::ErrorCode`, with its variants as they are declared.
#[verifier::external_type_specification]
pub struct ExErrorCode(ErrorCode);

/// `agent_client_protocol::Error`, with its public fields as they are declared.
#[verifier::external_type_specification]
pub struct ExError(Error);

/// The protocol's name for an error code: the codes that JSON-RPC and the
/// protocol define have names of their own.
pub open spec fn protocol_code(code: i32) -> ErrorCode {
    if code == -32700 {
        ErrorCode::ParseError
    } else if code == -32600 {
        ErrorCode::InvalidRequest
    } else if code == -32601 {
        ErrorCode::MethodNotFound
    } else if code == -32602 {
        ErrorCode::InvalidParams
    } else if code == -32603 {
        ErrorCode::InternalError
    } else if code == -32800 {
        ErrorCode::RequestCancelled
    } else if code == -32000 {
        ErrorCode::AuthRequired
    } else if code == -32002 {
        ErrorCode::ResourceNotFound
    } else {
        ErrorCode::Other(code)
    }
}

/// `error` has this code and this message, and no data.
pub open spec fn is_error(error: Error, code: i32, message: Seq<char>) -> bool {
    error.code == protocol_code(code) && error.message@ == message && error.data is None
}

/// Calls `agent_client_protocol::Error::new`: an error with the protocol's name
/// for `code`, with this message and without data.
#[verifier::external_body]
fn new_error(code: i32, message: String) -> (error: Error)
    ensures
        is_error(error, code, message@),
{
    Error::new(code, message)
}

/// The answer where the anchor matches no user message. The message always
/// holds the word `anchor_not_found`.
pub fn anchor_not_found_error() -> (error: Error)
    ensures
        is_error(
            error,
            ANCHOR_NOT_FOUND_CODE,
            "anchor_not_found: no user message in the source session's rollout matched the fork anchor (it may have been folded into a context-compaction summary)"@,
        ),
        error.code == ErrorCode::Other(ANCHOR_NOT_FOUND_CODE),
        contains_text(error.message@, "anchor_not_found"@),
{
    proof {
        let whole =
            "anchor_not_found: no user message in the source session's rollout matched the fork anchor (it may have been folded into a context-compaction summary)"@;
        let word = "anchor_not_found"@;
        reveal_strlit("anchor_not_found");
        reveal_strlit(
            "anchor_not_found: no user message in the source session's rollout matched the fork anchor (it may have been folded into a context-compaction summary)",
        );
        let rest = whole.skip(word.len() as int);
        assert(whole =~= Seq::<char>::empty() + word + rest);
        concatenation_contains_middle(Seq::empty(), word, rest);
    }
    new_error(
        ANCHOR_NOT_FOUND_CODE,
        "anchor_not_found: no user message in the source session's rollout matched the fork anchor (it may have been folded into a context-compaction summary)".to_owned(),
    )
}

/// `before`, `detail` and a closing bracket, one after the other.
fn with_detail<D: core::fmt::Display + ?Sized>(before: &str, detail: &D) -> (message: String)
    ensures
        exists|shown: String|
            to_string_from_display_ensures::<D>(detail, shown) && message@ == before@
                + #[trigger] shown@ + ")"@,
{
    let mut message = before.to_owned();
    let shown = detail.to_string();
    message.append(shown.as_str());
    message.append(")");
    message
}

/// The answer where the source could not be read for now. The message always
/// holds the word `source_busy`, and `detail` as it displays itself.
pub fn source_busy_error<D: core::fmt::Display + ?Sized>(detail: &D) -> (error: Error)
    ensures
        exists|shown: String|
            to_string_from_display_ensures::<D>(detail, shown) && is_error(
                error,
                SOURCE_BUSY_CODE,
                "source_busy: the source session's rollout/state is temporarily unavailable, retry shortly ("@
                    + #[trigger] shown@ + ")"@,
            ),
        error.code == ErrorCode::Other(SOURCE_BUSY_CODE),
        contains_text(error.message@, "source_busy"@),
        exists|shown: String|
            to_string_from_display_ensures::<D>(detail, shown) && contains_text(
                error.message@,
                #[trigger] shown@,
            ),
{
    let message = with_detail(
        "source_busy: the source session's rollout/state is temporarily unavailable, retry shortly (",
        detail,
    );
    proof {
        let before =
            "source_busy: the source session's rollout/state is temporarily unavailable, retry shortly ("@;
        let word = "source_busy"@;
        reveal_strlit("source_busy");
        reveal_strlit(
            "source_busy: the source session's rollout/state is temporarily unavailable, retry shortly (",
        );
        let rest = message@.skip(word.len() as int);
        assert(word =~= before.take(word.len() as int));
        assert(message@ =~= Seq::<char>::empty() + word + rest);
        concatenation_contains_middle(Seq::empty(), word, rest);
        let shown = choose|shown: String|
            to_string_from_display_ensures::<D>(detail, shown) && message@ == before
                + #[trigger] shown@ + ")"@;
        concatenation_contains_middle(before, shown@, ")"@);
    }
    new_error(SOURCE_BUSY_CODE, message)
}

/// The answer where the fork itself failed. The message always holds the word
/// `fork_failed`, and `detail` as it displays itself.
pub fn fork_failed_error<D: core::fmt::Display + ?Sized>(detail: &D) -> (error: Error)
    ensures
        exists|shown: String|
            to_string_from_display_ensures::<D>(detail, shown) && is_error(
                error,
                FORK_FAILED_CODE,
                "fork_failed: the fork operation itself failed ("@ + #[trigger] shown@ + ")"@,
            ),
        error.code == ErrorCode::Other(FORK_FAILED_CODE),
        contains_text(error.message@, "fork_failed"@),
        exists|shown: String|
            to_string_from_display_ensures::<D>(detail, shown) && contains_text(
                error.message@,
                #[trigger] shown@,
            ),
{
    let message = with_detail("fork_failed: the fork operation itself failed (", detail);
    proof {
        let before = "fork_failed: the fork operation itself failed ("@;
        let word = "fork_failed"@;
        reveal_strlit("fork_failed");
        reveal_strlit("fork_failed: the fork operation itself failed (");
        let rest = message@.skip(word.len() as int);
        assert(word =~= before.take(word.len() as int));
        assert(message@ =~= Seq::<char>::empty() + word + rest);
        concatenation_contains_middle(Seq::empty(), word, rest);
        let shown = choose|shown: String|
            to_string_from_display_ensures::<D>(detail, shown) && message@ == before
                + #[trigger] shown@ + ")"@;
        concatenation_contains_middle(before, shown@, ")"@);
    }
    new_error(FORK_FAILED_CODE, message)
}

/// The three answers never share a code, so that a caller can tell a failure
/// that is worth a retry from one that is not.
pub proof fn fork_error_codes_differ(not_found: Error, busy: Error, failed: Error)
    requires
        not_found.code == protocol_code(ANCHOR_NOT_FOUND_CODE),
        busy.code == protocol_code(SOURCE_BUSY_CODE),
        failed.code == protocol_code(FORK_FAILED_CODE),
    ensures
        not_found.code != busy.code,
        busy.code != failed.code,
        failed.code != not_found.code,
{
}

/// The codes that callers go by: none of them is one that JSON-RPC or the protocol
/// names, so each reaches the caller as the number that it is.
pub proof fn fork_errors_have_their_own_codes()
    ensures
        protocol_code(ANCHOR_NOT_FOUND_CODE) == ErrorCode::Other((-32011) as i32),
        protocol_code(SOURCE_BUSY_CODE) == ErrorCode::Other((-32012) as i32),
        protocol_code(FORK_FAILED_CODE) == ErrorCode::Other((-32014) as i32),
{
}

/// Different codes never get the same name, so the name tells the code.
pub proof fn code_is_told_by_its_name(left: i32, right: i32)
    requires
        protocol_code(left) == protocol_code(right),
    ensures
        left == right,
{
}

/// An answer is told by its code and its message: two that have the same of both
/// are alike, and one answer has only one of each.
pub proof fn answer_is_its_code_and_message(
    error: Error,
    code: i32,
    message: Seq<char>,
    other_code: i32,
    other_message: Seq<char>,
)
    requires
        is_error(error, code, message),
    ensures
        error.data is None,
        error.message@ == message,
        is_error(error, other_code, other_message) <==> other_code == code && other_message
            == message,
{
    if is_error(error, other_code, other_message) {
        code_is_told_by_its_name(code, other_code);
    }
}

} // verus!
