use codex_acp::contextual::{
    classify_user_message, is_contextual_user_message, is_contextual_user_text,
    is_legacy_apply_patch_warning,
};
use codex_acp::rollout::{ContentItem, EventMsg, ResponseItem, RolloutItem};
use codex_acp::text::matches_marked_text;

fn input_text(text: &str) -> ContentItem {
    ContentItem::InputText { text: text.to_string(), hook_prompt: false }
}

const PAIRS: [(&str, &str); 17] = [
    (
        codex_protocol::protocol::ENVIRONMENT_CONTEXT_OPEN_TAG,
        codex_protocol::protocol::ENVIRONMENT_CONTEXT_CLOSE_TAG,
    ),
    ("<skills_instructions>", "</skills_instructions>"),
    ("<apps_instructions>", "</apps_instructions>"),
    ("<plugins_instructions>", "</plugins_instructions>"),
    ("<collaboration_mode>", "</collaboration_mode>"),
    ("<multi_agent_mode>", "</multi_agent_mode>"),
    ("<realtime_conversation>", "</realtime_conversation>"),
    ("<context_window>", "</context_window>"),
    ("<context_window_guidance>", "</context_window_guidance>"),
    ("<external_docs>", "</external_docs>"),
    ("<external_>", "</external_>"),
    ("<user_shell_command>", "</user_shell_command>"),
    ("<turn_aborted>", "</turn_aborted>"),
    ("<subagent_notification>", "</subagent_notification>"),
    ("<recommended_plugins>", "</recommended_plugins>"),
    ("<codex_internal_context source=\"x\">", "</codex_internal_context>"),
    ("<goal_context>", "</goal_context>"),
];

#[test]
fn text_between_markers_is_contextual() {
    for (open, close) in PAIRS {
        let fragment = format!("{open}\nbody\n{close}");
        assert!(is_contextual_user_text(&fragment, false), "{open}");
        assert!(is_contextual_user_text(&format!("{open}{close}"), false), "{open}");
        let spaced = format!(" \n\t\u{3000}{fragment}\u{a0} \n");
        assert!(is_contextual_user_text(&spaced, false), "{open}");
        assert!(is_contextual_user_text(&fragment.to_ascii_uppercase(), false), "{open}");
        let mixed = format!("{}body{close}", open.to_ascii_uppercase());
        assert!(is_contextual_user_text(&mixed, false), "{open}");
    }
}

#[test]
fn text_without_both_markers_is_the_users_own() {
    for (open, close) in PAIRS {
        assert!(!is_contextual_user_text(open, false), "{open}");
        assert!(!is_contextual_user_text(close, false), "{open}");
        assert!(!is_contextual_user_text(&format!("{open} and more"), false), "{open}");
        assert!(!is_contextual_user_text(&format!("{open}x{close} and more"), false), "{open}");
        assert!(!is_contextual_user_text(&format!("see {open}x{close}"), false), "{open}");
        assert!(!is_contextual_user_text(&format!("{open}x</other>"), false), "{open}");
    }
}

#[test]
fn additional_context_is_closed_by_its_own_key() {
    assert!(is_contextual_user_text("<external_a>x</external_a>", false));
    assert!(!is_contextual_user_text("<external_a>x</external_b>", false));
    assert!(is_contextual_user_text("<external_a>x</external_b></EXTERNAL_A>", false));
    assert!(!is_contextual_user_text("<external_a</external_a>", false));
    assert!(!is_contextual_user_text("<external_a", false));
}

#[test]
fn instructions_are_known_by_their_beginning() {
    assert!(is_contextual_user_text("# AGENTS.md instructions for /repo\n\nbody", false));
    assert!(is_contextual_user_text("\n# AGENTS.md instructions", false));
    assert!(!is_contextual_user_text("# agents.md instructions are unclear to me", false));
    assert!(!is_contextual_user_text("# AGENTS.md", false));
    assert!(!is_contextual_user_text("read # AGENTS.md instructions", false));
}

#[test]
fn warnings_are_known_by_their_beginning() {
    for warning in [
        "Warning: The maximum number of unified exec processes you can keep open is",
        "Warning: Your account was flagged for potentially high-risk cyber activity",
    ] {
        assert!(is_contextual_user_text(&format!(" {warning} 60."), false));
        assert!(!is_contextual_user_text(&format!("see {warning}"), false));
    }
}

#[test]
fn marked_text_needs_both_markers() {
    assert!(matches_marked_text(" <A>x</a> ", "<a>", "</A>"));
    assert!(!matches_marked_text("<a>x", "<a>", "</a>"));
    assert!(!matches_marked_text("x</a>", "<a>", "</a>"));
    assert!(!matches_marked_text("<\u{e4}>x</\u{c4}>", "<\u{e4}>", "</\u{e4}>"));
}

#[test]
fn ordinary_text_is_not_contextual() {
    assert!(!is_contextual_user_text("", false));
    assert!(!is_contextual_user_text("   ", false));
    assert!(!is_contextual_user_text("hello there", false));
    assert!(!is_contextual_user_text("<external", false));
    assert!(!is_contextual_user_text("Warning: careful", false));
    assert!(!is_contextual_user_text("\u{200b}<turn_aborted></turn_aborted>", false));
}

#[test]
fn hook_prompt_is_contextual_whatever_its_text() {
    assert!(is_contextual_user_text("hello there", true));
    assert!(is_contextual_user_message(&[ContentItem::InputText {
        text: "hello there".to_string(),
        hook_prompt: true,
    }]));
}

#[test]
fn patch_warning_needs_its_beginning_and_its_end() {
    let begin = "Warning: apply_patch was requested via ";
    let end = "Use the apply_patch tool instead of exec_command.";
    let whole = format!("{begin}shell. {end}");
    assert!(is_legacy_apply_patch_warning(&whole));
    assert!(!is_legacy_apply_patch_warning(begin));
    assert!(!is_legacy_apply_patch_warning(end));
    assert!(!is_legacy_apply_patch_warning(&format!("{whole} ")));
    assert!(is_contextual_user_text(&format!("\n{whole}"), false));
    assert!(!is_contextual_user_text(&format!("{begin}shell."), false));
}

#[test]
fn only_input_text_can_make_a_message_contextual() {
    let quoted = ContentItem::OutputText { text: "<turn_aborted></turn_aborted>".to_string() };
    assert!(!is_contextual_user_message(&[quoted, input_text("hello")]));
    assert!(is_contextual_user_message(&[input_text("hello"), input_text("<turn_aborted></turn_aborted>")]));
    assert!(!is_contextual_user_message(&[]));
}

#[test]
fn classification_needs_the_role_user() {
    let content = vec![input_text("hello"), input_text("there")];
    let user = RolloutItem::ResponseItem(ResponseItem::Message {
        role: "user".to_string(),
        content: content.clone(),
        host_verdict: None,
    });
    assert_eq!(classify_user_message(&user), Some("hello\nthere".to_string()));
    for role in ["assistant", "User", ""] {
        let other = RolloutItem::ResponseItem(ResponseItem::Message {
            role: role.to_string(),
            content: content.clone(),
            host_verdict: None,
        });
        assert_eq!(classify_user_message(&other), None);
    }
    assert_eq!(classify_user_message(&RolloutItem::Other), None);
    assert_eq!(classify_user_message(&RolloutItem::EventMsg(EventMsg::Other)), None);
    assert_eq!(classify_user_message(&RolloutItem::ResponseItem(ResponseItem::Other)), None);
}

fn user_message(text: &str, host_verdict: Option<bool>) -> RolloutItem {
    RolloutItem::ResponseItem(ResponseItem::Message {
        role: "user".to_string(),
        content: vec![input_text(text)],
        host_verdict,
    })
}

#[test]
fn unclosed_marker_is_counted_and_closed_fragment_is_not() {
    let unclosed = "<environment_context> is a tag I want explained";
    assert_eq!(classify_user_message(&user_message(unclosed, None)), Some(unclosed.to_string()));
    let closed = "<ENVIRONMENT_CONTEXT>\ncwd: /repo\n</ENVIRONMENT_CONTEXT>";
    assert_eq!(classify_user_message(&user_message(closed, None)), None);
}

#[test]
fn verdict_of_the_host_overrides_the_markers() {
    for text in ["hello", "<turn_aborted>x</turn_aborted>", "# AGENTS.md instructions"] {
        assert_eq!(
            classify_user_message(&user_message(text, Some(true))),
            Some(text.to_string())
        );
        assert_eq!(classify_user_message(&user_message(text, Some(false))), None);
    }
}
