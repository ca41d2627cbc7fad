use codex_acp::fork::{
    find_fork_anchor, nth_hint_mismatches, select_anchor, user_message_positions_in_rollout,
    warn_on_nth_hint_mismatch, AnchorNotFound, ForkAnchor, NthHintWarning,
};
use codex_acp::rollout::{
    ContentItem, EventMsg, ResponseItem, RolloutItem, ThreadRolledBackEvent,
};

fn input_text(text: &str) -> ContentItem {
    ContentItem::InputText { text: text.to_string(), hook_prompt: false }
}

fn message(role: &str, content: Vec<ContentItem>) -> RolloutItem {
    RolloutItem::ResponseItem(ResponseItem::Message {
        role: role.to_string(),
        content,
        host_verdict: None,
    })
}

fn judged_message(role: &str, text: &str, counted: bool) -> RolloutItem {
    RolloutItem::ResponseItem(ResponseItem::Message {
        role: role.to_string(),
        content: vec![input_text(text)],
        host_verdict: Some(counted),
    })
}

fn user_message(text: &str) -> RolloutItem {
    message("user", vec![input_text(text)])
}

fn agent_message(text: &str) -> RolloutItem {
    message("assistant", vec![ContentItem::OutputText { text: text.to_string() }])
}

fn contextual_user_message(tag_body: &str) -> RolloutItem {
    user_message(tag_body)
}

fn rollback(num_turns: u32) -> RolloutItem {
    RolloutItem::EventMsg(EventMsg::ThreadRolledBack(ThreadRolledBackEvent { num_turns }))
}

fn three_turn_rollout() -> Vec<RolloutItem> {
    vec![
        user_message("hello there"),
        agent_message("hi, how can I help?"),
        user_message("please write a poem"),
        agent_message("here's a poem..."),
        user_message("thanks, one more please"),
        agent_message("sure, here's another..."),
    ]
}

#[test]
fn fork_anchor_second_user_message_yields_k_one() {
    let items = three_turn_rollout();
    let k = find_fork_anchor(&items, "please write a poem", 1).expect("anchor should match");
    assert_eq!(k, 1);
}

#[test]
fn fork_anchor_repeated_text_occurrence_selects_second_match() {
    let items = vec![
        user_message("continue"),
        agent_message("ok"),
        user_message("continue"),
        agent_message("ok again"),
        user_message("continue"),
    ];
    let k_first = find_fork_anchor(&items, "continue", 1).expect("first occurrence matches");
    let k_second = find_fork_anchor(&items, "continue", 2).expect("second occurrence matches");
    let k_third = find_fork_anchor(&items, "continue", 3).expect("third occurrence matches");
    assert_eq!(k_first, 0);
    assert_eq!(k_second, 1);
    assert_eq!(k_third, 2);
}

#[test]
fn fork_anchor_ignores_contextual_fragments() {
    let items = vec![
        contextual_user_message("<environment_context>\ncwd: /repo\n</environment_context>"),
        user_message("hello there"),
        agent_message("hi"),
        contextual_user_message("<external_docs>some injected reference doc</external_docs>"),
        user_message("please write a poem"),
        agent_message("a poem"),
    ];
    let k = find_fork_anchor(&items, "please write a poem", 1).expect("should match");
    assert_eq!(k, 1);

    let k0 = find_fork_anchor(&items, "hello there", 1).expect("should match");
    assert_eq!(k0, 0);
}

#[test]
fn fork_anchor_not_found_when_text_absent() {
    let items = three_turn_rollout();
    let result = find_fork_anchor(&items, "this text was never said", 1);
    assert_eq!(result, Err(AnchorNotFound));
}

#[test]
fn fork_anchor_not_found_when_occurrence_out_of_range() {
    let items = three_turn_rollout();
    let result = find_fork_anchor(&items, "please write a poem", 2);
    assert_eq!(result, Err(AnchorNotFound));
}

#[test]
fn fork_anchor_not_found_when_occurrence_is_zero() {
    let items = three_turn_rollout();
    let result = find_fork_anchor(&items, "please write a poem", 0);
    assert_eq!(result, Err(AnchorNotFound));
}

#[test]
fn fork_anchor_falls_back_to_containment_match() {
    let items = vec![
        user_message("[from web] please write a poem about the sea"),
        agent_message("a poem about the sea..."),
    ];
    let k = find_fork_anchor(&items, "please write a poem about the sea", 1)
        .expect("containment match should succeed");
    assert_eq!(k, 0);
}

#[test]
fn fork_anchor_prefers_exact_match_over_containment() {
    let items = vec![
        user_message("please write a poem about the sea, extended remix"),
        agent_message("ok"),
        user_message("please write a poem about the sea"),
    ];
    let k = find_fork_anchor(&items, "please write a poem about the sea", 1)
        .expect("exact match should be found");
    assert_eq!(k, 1);
}

#[test]
fn thread_rolled_back_drops_trailing_user_message_boundaries() {
    let mut items = three_turn_rollout();
    items.push(RolloutItem::EventMsg(EventMsg::ThreadRolledBack(ThreadRolledBackEvent {
        num_turns: 1,
    })));

    let result = find_fork_anchor(&items, "thanks, one more please", 1);
    assert_eq!(result, Err(AnchorNotFound));

    let k = find_fork_anchor(&items, "please write a poem", 1).expect("still present");
    assert_eq!(k, 1);
}

#[test]
fn multimodal_message_counts_as_one_user_message() {
    let items = vec![
        message(
            "user",
            vec![
                input_text("look at this"),
                ContentItem::InputImage { image_url: "data:image/png;base64,AAAA".to_string() },
            ],
        ),
        agent_message("nice image"),
        user_message("ok next"),
    ];
    let k = find_fork_anchor(&items, "ok next", 1).expect("should match");
    assert_eq!(k, 1);
}

#[test]
fn nth_hint_mismatch_does_not_panic() {
    warn_on_nth_hint_mismatch(None, "session-a", 0);
    warn_on_nth_hint_mismatch(Some(1), "session-a", 0);
    warn_on_nth_hint_mismatch(Some(2), "session-a", 0);
}

#[test]
fn matching_hint_is_silent() {
    assert!(!nth_hint_mismatches(Some(1), 0));
    assert!(!nth_hint_mismatches(Some(2), 1));
    assert!(!nth_hint_mismatches(Some(5), 4));
    assert!(!nth_hint_mismatches(None, 0));
    assert!(!nth_hint_mismatches(None, 7));
}

#[test]
fn mismatching_hint_is_flagged() {
    assert!(nth_hint_mismatches(Some(1), 1));
    assert!(nth_hint_mismatches(Some(2), 0));
    assert!(nth_hint_mismatches(Some(0), 0));
    assert!(nth_hint_mismatches(Some(3), 9));
}

#[test]
fn hint_at_the_end_of_the_range_is_compared_without_overflow() {
    assert!(nth_hint_mismatches(Some(0), usize::MAX));
    assert!(nth_hint_mismatches(Some(usize::MAX), usize::MAX));
    assert!(!nth_hint_mismatches(Some(usize::MAX), usize::MAX - 1));
}

#[test]
fn warning_carries_the_session_the_hint_and_the_match() {
    assert_eq!(warn_on_nth_hint_mismatch(None, "session-a", 3), None);
    assert_eq!(warn_on_nth_hint_mismatch(Some(4), "session-a", 3), None);
    assert_eq!(
        warn_on_nth_hint_mismatch(Some(2), "session-a", 3),
        Some(NthHintWarning {
            source_session_id: "session-a".to_string(),
            nth_hint: 2,
            matched_k: 3,
        })
    );
}

#[test]
fn positions_carry_the_line_and_the_text() {
    let positions = user_message_positions_in_rollout(&three_turn_rollout());
    assert_eq!(
        positions,
        vec![
            (0, "hello there".to_string()),
            (2, "please write a poem".to_string()),
            (4, "thanks, one more please".to_string()),
        ]
    );
}

#[test]
fn cutting_at_a_position_leaves_the_messages_before_it() {
    let mut items = three_turn_rollout();
    items.push(rollback(2));
    items.push(user_message("start over"));
    items.push(user_message("and again"));
    let positions = user_message_positions_in_rollout(&items);
    let k = find_fork_anchor(&items, "and again", 1).unwrap();
    assert_eq!(k, 2);
    let cut = user_message_positions_in_rollout(&items[..positions[k].0]);
    assert_eq!(cut, positions[..k].to_vec());
}

#[test]
fn rollbacks_add_up_and_stop_at_nothing() {
    let mut twice = three_turn_rollout();
    twice.push(rollback(1));
    twice.push(rollback(1));
    let mut once = three_turn_rollout();
    once.push(rollback(2));
    assert_eq!(
        user_message_positions_in_rollout(&twice),
        user_message_positions_in_rollout(&once)
    );
    let mut none = three_turn_rollout();
    none.push(rollback(0));
    assert_eq!(
        user_message_positions_in_rollout(&none),
        user_message_positions_in_rollout(&three_turn_rollout())
    );
    once.push(rollback(u32::MAX));
    assert!(user_message_positions_in_rollout(&once).is_empty());
}

#[test]
fn rollback_undoes_a_message_and_its_answer() {
    let mut items = three_turn_rollout();
    items.push(user_message("never mind"));
    items.push(agent_message("ok"));
    items.push(rollback(1));
    assert_eq!(
        user_message_positions_in_rollout(&items),
        user_message_positions_in_rollout(&three_turn_rollout())
    );
}

#[test]
fn every_message_can_be_named_by_its_own_text() {
    let items = vec![
        user_message("continue"),
        user_message("go on"),
        user_message("continue"),
        user_message("go on"),
        user_message("please continue"),
    ];
    let anchors = [("continue", 1), ("go on", 1), ("continue", 2), ("go on", 2)];
    for (k, (text, occurrence)) in anchors.iter().enumerate() {
        assert_eq!(find_fork_anchor(&items, text, *occurrence), Ok(k));
    }
    assert_eq!(find_fork_anchor(&items, "please continue", 1), Ok(4));
    assert_eq!(find_fork_anchor(&items, "continue", 3), Err(AnchorNotFound));
}

#[test]
fn occurrence_counts_containing_messages_where_none_is_equal() {
    let items = vec![
        user_message("a poem, please"),
        user_message("thanks"),
        user_message("another poem"),
    ];
    assert_eq!(find_fork_anchor(&items, "poem", 1), Ok(0));
    assert_eq!(find_fork_anchor(&items, "poem", 2), Ok(2));
    assert_eq!(find_fork_anchor(&items, "poem", 3), Err(AnchorNotFound));
    assert_eq!(find_fork_anchor(&items, "", 3), Ok(2));
}

#[test]
fn text_parts_are_joined_by_newlines() {
    let items = vec![message(
        "user",
        vec![
            input_text("first"),
            ContentItem::InputAudio { audio_url: "data:audio/wav;base64,AAAA".to_string() },
            input_text("second"),
        ],
    )];
    assert_eq!(find_fork_anchor(&items, "first\nsecond", 1), Ok(0));
}

#[test]
fn message_of_media_alone_counts() {
    let items = vec![
        message(
            "user",
            vec![ContentItem::InputAudio { audio_url: "data:audio/wav;base64,AAAA".to_string() }],
        ),
        user_message("what was that?"),
    ];
    assert_eq!(find_fork_anchor(&items, "what was that?", 1), Ok(1));
}

#[test]
fn one_contextual_part_hides_the_whole_message() {
    let items = vec![
        message(
            "user",
            vec![input_text("typed by hand"), input_text("<turn_aborted>x</turn_aborted>")],
        ),
        user_message("typed by hand"),
    ];
    assert_eq!(find_fork_anchor(&items, "typed by hand", 1), Ok(0));
    assert_eq!(user_message_positions_in_rollout(&items)[0].0, 1);
}

#[test]
fn unclosed_tag_is_a_message_of_the_users() {
    let items = vec![
        user_message("<environment_context> is a strange tag, is it not?"),
        agent_message("it is"),
        user_message("go on"),
    ];
    assert_eq!(find_fork_anchor(&items, "go on", 1), Ok(1));
    assert_eq!(
        find_fork_anchor(&items, "<environment_context> is a strange tag, is it not?", 1),
        Ok(0)
    );
}

#[test]
fn closed_fragment_is_skipped_in_any_letter_case() {
    let items = vec![
        user_message("<ENVIRONMENT_CONTEXT>\ncwd: /repo\n</Environment_Context>"),
        user_message("<External_Docs>x</external_docs>"),
        user_message("go on"),
    ];
    assert_eq!(find_fork_anchor(&items, "go on", 1), Ok(0));
    assert_eq!(user_message_positions_in_rollout(&items), vec![(2, "go on".to_string())]);
}

#[test]
fn verdict_of_the_host_decides_what_counts() {
    let items = vec![
        judged_message("user", "<turn_aborted>x</turn_aborted>", true),
        judged_message("user", "# AGENTS.md instructions, what are they?", true),
        judged_message("user", "looks ordinary", false),
        judged_message("assistant", "ok", false),
        judged_message("user", "go on", true),
    ];
    assert_eq!(
        user_message_positions_in_rollout(&items),
        vec![
            (0, "<turn_aborted>x</turn_aborted>".to_string()),
            (1, "# AGENTS.md instructions, what are they?".to_string()),
            (4, "go on".to_string()),
        ]
    );
    assert_eq!(find_fork_anchor(&items, "go on", 1), Ok(2));
    assert_eq!(find_fork_anchor(&items, "looks ordinary", 1), Err(AnchorNotFound));
}

#[test]
fn cutting_by_the_verdicts_leaves_the_messages_before_it() {
    let items = vec![
        judged_message("user", "one", true),
        judged_message("user", "injected", false),
        judged_message("user", "two", true),
        rollback(1),
        judged_message("user", "three", true),
    ];
    let positions = user_message_positions_in_rollout(&items);
    let k = find_fork_anchor(&items, "three", 1).unwrap();
    assert_eq!(k, 1);
    assert_eq!(positions[k].0, 4);
    assert_eq!(user_message_positions_in_rollout(&items[..4]), positions[..k].to_vec());
}

#[test]
fn lines_of_other_kinds_do_not_count() {
    let mut items = three_turn_rollout();
    items.push(contextual_user_message("<goal_context>x</goal_context>"));
    items.push(RolloutItem::Other);
    items.push(RolloutItem::ResponseItem(ResponseItem::Other));
    items.push(RolloutItem::EventMsg(EventMsg::Other));
    assert_eq!(
        user_message_positions_in_rollout(&items),
        user_message_positions_in_rollout(&three_turn_rollout())
    );
}

#[test]
fn selection_among_positions_counts_from_one() {
    let anchor = ForkAnchor { text: "b".to_string(), occurrence: 2 };
    let positions = vec![
        (3, "b".to_string()),
        (5, "a".to_string()),
        (8, "b".to_string()),
    ];
    assert_eq!(select_anchor(&positions, &anchor.text, anchor.occurrence), Ok(2));
    assert_eq!(select_anchor(&positions, "c", 1), Err(AnchorNotFound));
    assert_eq!(select_anchor(&positions, "b", 0), Err(AnchorNotFound));
}
