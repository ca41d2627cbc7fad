//! What holds of single messages: what their text is, and who wrote them.

use crate::contextual::{
    contextual_item, contextual_message, contextual_text, external_close, external_fragment,
    external_open, legacy_apply_patch_warning, literal_prefixes, marked_fragment, marker_pairs,
    user_text,
};
use crate::rollout::{input_texts, rendered_text, ContentItem, EventMsg, ResponseItem, RolloutItem};
use crate::text::{
    ascii_lowered, joined_lines, marked_text, starts_with_any, trimmed_end, trimmed_start,
};
use vstd::prelude::*;

verus! {

/// Some part of the message is input text.
pub open spec fn has_text(content: Seq<ContentItem>) -> bool {
    exists|i: int| 0 <= i < content.len() && #[trigger] content[i] is InputText
}

/// The input texts of two messages, one after the other, are those of both.
proof fn input_texts_of_both(first: Seq<ContentItem>, second: Seq<ContentItem>)
    ensures
        input_texts(first + second) == input_texts(first) + input_texts(second),
    decreases second.len(),
{
    if second.len() == 0 {
        assert(first + second =~= first);
        assert(input_texts(first) + input_texts(second) =~= input_texts(first));
    } else {
        input_texts_of_both(first, second.drop_last());
        assert((first + second).drop_last() =~= first + second.drop_last());
        assert((first + second).last() == second.last());
        assert(input_texts(first + second) =~= input_texts(first) + input_texts(second));
    }
}

/// There are input texts where some part is one.
proof fn texts_where_some_part_is_text(content: Seq<ContentItem>)
    ensures
        has_text(content) == (input_texts(content).len() > 0),
    decreases content.len(),
{
    if content.len() > 0 {
        texts_where_some_part_is_text(content.drop_last());
        if has_text(content) && !(content.last() is InputText) {
            let i = choose|i: int| 0 <= i < content.len() && #[trigger] content[i] is InputText;
            assert(content.drop_last()[i] is InputText);
        }
        if has_text(content.drop_last()) {
            let i = choose|i: int|
                0 <= i < content.drop_last().len() && #[trigger] content.drop_last()[i] is InputText;
            assert(content[i] is InputText);
        }
        if content.last() is InputText {
            assert(content[content.len() - 1] is InputText);
        }
    }
}

/// Lines joined in two runs are the two runs with a newline between.
proof fn joined_lines_of_both(first: Seq<Seq<char>>, second: Seq<Seq<char>>)
    requires
        first.len() > 0,
        second.len() > 0,
    ensures
        joined_lines(first + second) == joined_lines(first) + seq!['\n'] + joined_lines(second),
    decreases second.len(),
{
    let all = first + second;
    assert(all.last() == second.last());
    assert(all.drop_last() =~= first + second.drop_last());
    if second.len() == 1 {
        assert(all.drop_last() =~= first);
    } else {
        joined_lines_of_both(first, second.drop_last());
        assert(joined_lines(all) =~= joined_lines(first) + seq!['\n'] + joined_lines(second));
    }
}

/// A message without parts has no text.
pub proof fn empty_message_has_no_text()
    ensures
        rendered_text(Seq::empty()) == Seq::<char>::empty(),
{
}

/// A message of one input text has just that text.
pub proof fn single_text_is_the_message(text: String, hook_prompt: bool)
    ensures
        rendered_text(seq![ContentItem::InputText { text, hook_prompt }]) == text@,
{
    let content = seq![ContentItem::InputText { text, hook_prompt }];
    assert(content.drop_last() =~= Seq::empty());
    assert(input_texts(content.drop_last()) =~= Seq::empty());
    assert(input_texts(content) =~= seq![text@]);
}

/// A message in two runs of parts has the texts of both, with one newline
/// between them, where both have any; where only one of them has, just its text.
pub proof fn text_of_two_runs(first: Seq<ContentItem>, second: Seq<ContentItem>)
    ensures
        has_text(first) && has_text(second) ==> rendered_text(first + second) == rendered_text(
            first,
        ) + seq!['\n'] + rendered_text(second),
        !has_text(first) ==> rendered_text(first + second) == rendered_text(second),
        !has_text(second) ==> rendered_text(first + second) == rendered_text(first),
{
    input_texts_of_both(first, second);
    texts_where_some_part_is_text(first);
    texts_where_some_part_is_text(second);
    if has_text(first) && has_text(second) {
        joined_lines_of_both(input_texts(first), input_texts(second));
    } else if !has_text(first) {
        assert(input_texts(first) + input_texts(second) =~= input_texts(second));
    }
    if !has_text(second) {
        assert(input_texts(first) + input_texts(second) =~= input_texts(first));
    }
}

/// Images, audio and output texts leave no trace in a message's text, wherever
/// they stand.
pub proof fn other_parts_leave_no_trace(
    before: Seq<ContentItem>,
    part: ContentItem,
    after: Seq<ContentItem>,
)
    requires
        !(part is InputText),
    ensures
        rendered_text(before.push(part) + after) == rendered_text(before + after),
{
    let alone = seq![part];
    assert(before.push(part) + after =~= before + alone + after);
    assert(!has_text(alone));
    input_texts_of_both(before, alone);
    texts_where_some_part_is_text(alone);
    input_texts_of_both(before + alone, after);
    input_texts_of_both(before, after);
    assert(input_texts(before) + input_texts(alone) =~= input_texts(before));
}

/// Each further input text stands on a line of its own.
pub proof fn further_text_is_a_further_line(
    content: Seq<ContentItem>,
    text: String,
    hook_prompt: bool,
)
    ensures
        rendered_text(content.push(ContentItem::InputText { text, hook_prompt })) == if has_text(
            content,
        ) {
            rendered_text(content) + seq!['\n'] + text@
        } else {
            text@
        },
{
    let alone = seq![ContentItem::InputText { text, hook_prompt }];
    assert(alone[0] is InputText);
    single_text_is_the_message(text, hook_prompt);
    text_of_two_runs(content, alone);
    assert(content.push(ContentItem::InputText { text, hook_prompt }) =~= content + alone);
}

/// A message is contextual where one of its input texts is, and only then: parts
/// of other kinds and input texts that are not contextual make no difference.
pub proof fn contextual_parts_decide(
    before: Seq<ContentItem>,
    part: ContentItem,
    after: Seq<ContentItem>,
)
    ensures
        !contextual_message(Seq::empty()),
        part matches ContentItem::InputText { text, hook_prompt } && contextual_text(
            text@,
            hook_prompt,
        ) ==> contextual_message(before.push(part) + after),
        (part matches ContentItem::InputText { text, hook_prompt } ==> !contextual_text(
            text@,
            hook_prompt,
        )) ==> contextual_message(before.push(part) + after) == contextual_message(before + after),
{
    let with = before.push(part) + after;
    let without = before + after;
    let at = before.len() as int;
    assert(with[at] == part);
    assert forall|i: int| 0 <= i < without.len() implies without[i] == with[if i < at {
        i
    } else {
        i + 1
    }] by {}
    if contextual_message(without) {
        let i = choose|i: int|
            0 <= i < without.len() && contextual_item(#[trigger] without[i]);
        let j = if i < at {
            i
        } else {
            i + 1
        };
        assert(contextual_item(with[j]));
    }
    if contextual_message(with) {
        let j = choose|j: int|
            0 <= j < with.len() && contextual_item(#[trigger] with[j]);
        if j != at {
            let i = if j < at {
                j
            } else {
                j - 1
            };
            assert(contextual_item(without[i]));
        }
    }
}

/// Who wrote a message. Where the host was asked, its verdict decides, whatever
/// the role and the parts. Where it was not, no message of another role than
/// `user` is the user's, and one of that role is exactly where it is not
/// contextual. A message of the user's has its parts' text.
pub proof fn author_of_a_message(role: String, content: Vec<ContentItem>)
    ensures
        user_text(
            RolloutItem::ResponseItem(
                ResponseItem::Message { role, content, host_verdict: Some(true) },
            ),
        ) == Some(rendered_text(content@)),
        user_text(
            RolloutItem::ResponseItem(
                ResponseItem::Message { role, content, host_verdict: Some(false) },
            ),
        ) is None,
        role@ != "user"@ || contextual_message(content@) ==> user_text(
            RolloutItem::ResponseItem(ResponseItem::Message { role, content, host_verdict: None }),
        ) is None,
        role@ == "user"@ && !contextual_message(content@) ==> user_text(
            RolloutItem::ResponseItem(ResponseItem::Message { role, content, host_verdict: None }),
        ) == Some(rendered_text(content@)),
{
}

/// Lines that are no messages are nobody's.
pub proof fn other_lines_have_no_author(event: EventMsg)
    ensures
        user_text(RolloutItem::EventMsg(event)) is None,
        user_text(RolloutItem::ResponseItem(ResponseItem::Other)) is None,
        user_text(RolloutItem::Other) is None,
{
}

/// The names of the tags around injected fragments.
pub open spec fn is_fragment_name(name: Seq<char>) -> bool {
    ||| name == "environment_context"@
    ||| name == "skills_instructions"@
    ||| name == "apps_instructions"@
    ||| name == "plugins_instructions"@
    ||| name == "collaboration_mode"@
    ||| name == "multi_agent_mode"@
    ||| name == "realtime_conversation"@
    ||| name == "context_window"@
    ||| name == "context_window_guidance"@
    ||| name == "user_shell_command"@
    ||| name == "turn_aborted"@
    ||| name == "subagent_notification"@
    ||| name == "recommended_plugins"@
    ||| name == "goal_context"@
}

/// `<name>`, without the closing bracket where attributes may follow.
pub open spec fn tag_start(name: Seq<char>) -> Seq<char> {
    seq!['<'] + name
}

/// `</name>`.
pub open spec fn end_tag(name: Seq<char>) -> Seq<char> {
    seq!['<', '/'] + name + seq!['>']
}

/// `text` is `open`, then anything, and it is anything, then `close`.
pub open spec fn begins_and_ends(text: Seq<char>, open: Seq<char>, close: Seq<char>) -> bool {
    &&& exists|rest: Seq<char>| text == #[trigger] (open + rest)
    &&& exists|rest: Seq<char>| text == #[trigger] (rest + close)
}

/// A text stands between two markers exactly where, trimmed and in small
/// letters, it begins with the one and ends with the other.
pub proof fn marked_text_begins_and_ends(text: Seq<char>, open: Seq<char>, close: Seq<char>)
    ensures
        marked_text(text, open, close) == begins_and_ends(
            ascii_lowered(trimmed_end(trimmed_start(text))),
            ascii_lowered(open),
            ascii_lowered(close),
        ),
{
    let low = ascii_lowered(trimmed_end(trimmed_start(text)));
    let o = ascii_lowered(open);
    let c = ascii_lowered(close);
    if o.is_prefix_of(low) {
        assert(low =~= o + low.skip(o.len() as int));
    }
    if c.is_suffix_of(low) {
        assert(low =~= low.take(low.len() - c.len()) + c);
    }
    if exists|rest: Seq<char>| low == #[trigger] (o + rest) {
        let rest = choose|rest: Seq<char>| low == #[trigger] (o + rest);
        assert(o =~= low.subrange(0, o.len() as int));
    }
    if exists|rest: Seq<char>| low == #[trigger] (rest + c) {
        let rest = choose|rest: Seq<char>| low == #[trigger] (rest + c);
        assert(c =~= low.subrange(low.len() - c.len(), low.len() as int));
    }
}

/// The markers of some fragments are the tags of their names.
proof fn markers_are_tags_1()
    ensures
        marker_pairs()[0] == (tag_start("environment_context"@) + seq!['>'], end_tag("environment_context"@)),
        marker_pairs()[1] == (tag_start("skills_instructions"@) + seq!['>'], end_tag("skills_instructions"@)),
        marker_pairs()[2] == (tag_start("apps_instructions"@) + seq!['>'], end_tag("apps_instructions"@)),
        marker_pairs()[3] == (tag_start("plugins_instructions"@) + seq!['>'], end_tag("plugins_instructions"@)),
        marker_pairs()[4] == (tag_start("collaboration_mode"@) + seq!['>'], end_tag("collaboration_mode"@)),
{
    assert(marker_pairs()[0] == (tag_start("environment_context"@) + seq!['>'], end_tag("environment_context"@))) by {
        reveal_strlit("environment_context");
        reveal_strlit("<environment_context>");
        reveal_strlit("</environment_context>");
        assert("<environment_context>"@ =~= tag_start("environment_context"@) + seq!['>']);
        assert("</environment_context>"@ =~= end_tag("environment_context"@));
    }
    assert(marker_pairs()[1] == (tag_start("skills_instructions"@) + seq!['>'], end_tag("skills_instructions"@))) by {
        reveal_strlit("skills_instructions");
        reveal_strlit("<skills_instructions>");
        reveal_strlit("</skills_instructions>");
        assert("<skills_instructions>"@ =~= tag_start("skills_instructions"@) + seq!['>']);
        assert("</skills_instructions>"@ =~= end_tag("skills_instructions"@));
    }
    assert(marker_pairs()[2] == (tag_start("apps_instructions"@) + seq!['>'], end_tag("apps_instructions"@))) by {
        reveal_strlit("apps_instructions");
        reveal_strlit("<apps_instructions>");
        reveal_strlit("</apps_instructions>");
        assert("<apps_instructions>"@ =~= tag_start("apps_instructions"@) + seq!['>']);
        assert("</apps_instructions>"@ =~= end_tag("apps_instructions"@));
    }
    assert(marker_pairs()[3] == (tag_start("plugins_instructions"@) + seq!['>'], end_tag("plugins_instructions"@))) by {
        reveal_strlit("plugins_instructions");
        reveal_strlit("<plugins_instructions>");
        reveal_strlit("</plugins_instructions>");
        assert("<plugins_instructions>"@ =~= tag_start("plugins_instructions"@) + seq!['>']);
        assert("</plugins_instructions>"@ =~= end_tag("plugins_instructions"@));
    }
    assert(marker_pairs()[4] == (tag_start("collaboration_mode"@) + seq!['>'], end_tag("collaboration_mode"@))) by {
        reveal_strlit("collaboration_mode");
        reveal_strlit("<collaboration_mode>");
        reveal_strlit("</collaboration_mode>");
        assert("<collaboration_mode>"@ =~= tag_start("collaboration_mode"@) + seq!['>']);
        assert("</collaboration_mode>"@ =~= end_tag("collaboration_mode"@));
    }
}

/// The markers of some fragments are the tags of their names.
proof fn markers_are_tags_2()
    ensures
        marker_pairs()[5] == (tag_start("multi_agent_mode"@) + seq!['>'], end_tag("multi_agent_mode"@)),
        marker_pairs()[6] == (tag_start("realtime_conversation"@) + seq!['>'], end_tag("realtime_conversation"@)),
        marker_pairs()[7] == (tag_start("context_window"@) + seq!['>'], end_tag("context_window"@)),
        marker_pairs()[8] == (tag_start("context_window_guidance"@) + seq!['>'], end_tag("context_window_guidance"@)),
{
    assert(marker_pairs()[5] == (tag_start("multi_agent_mode"@) + seq!['>'], end_tag("multi_agent_mode"@))) by {
        reveal_strlit("multi_agent_mode");
        reveal_strlit("<multi_agent_mode>");
        reveal_strlit("</multi_agent_mode>");
        assert("<multi_agent_mode>"@ =~= tag_start("multi_agent_mode"@) + seq!['>']);
        assert("</multi_agent_mode>"@ =~= end_tag("multi_agent_mode"@));
    }
    assert(marker_pairs()[6] == (tag_start("realtime_conversation"@) + seq!['>'], end_tag("realtime_conversation"@))) by {
        reveal_strlit("realtime_conversation");
        reveal_strlit("<realtime_conversation>");
        reveal_strlit("</realtime_conversation>");
        assert("<realtime_conversation>"@ =~= tag_start("realtime_conversation"@) + seq!['>']);
        assert("</realtime_conversation>"@ =~= end_tag("realtime_conversation"@));
    }
    assert(marker_pairs()[7] == (tag_start("context_window"@) + seq!['>'], end_tag("context_window"@))) by {
        reveal_strlit("context_window");
        reveal_strlit("<context_window>");
        reveal_strlit("</context_window>");
        assert("<context_window>"@ =~= tag_start("context_window"@) + seq!['>']);
        assert("</context_window>"@ =~= end_tag("context_window"@));
    }
    assert(marker_pairs()[8] == (tag_start("context_window_guidance"@) + seq!['>'], end_tag("context_window_guidance"@))) by {
        reveal_strlit("context_window_guidance");
        reveal_strlit("<context_window_guidance>");
        reveal_strlit("</context_window_guidance>");
        assert("<context_window_guidance>"@ =~= tag_start("context_window_guidance"@) + seq!['>']);
        assert("</context_window_guidance>"@ =~= end_tag("context_window_guidance"@));
    }
}

/// The markers of some fragments are the tags of their names.
proof fn markers_are_tags_3()
    ensures
        marker_pairs()[9] == (tag_start("user_shell_command"@) + seq!['>'], end_tag("user_shell_command"@)),
        marker_pairs()[10] == (tag_start("turn_aborted"@) + seq!['>'], end_tag("turn_aborted"@)),
        marker_pairs()[11] == (tag_start("subagent_notification"@) + seq!['>'], end_tag("subagent_notification"@)),
        marker_pairs()[12] == (tag_start("recommended_plugins"@) + seq!['>'], end_tag("recommended_plugins"@)),
{
    assert(marker_pairs()[9] == (tag_start("user_shell_command"@) + seq!['>'], end_tag("user_shell_command"@))) by {
        reveal_strlit("user_shell_command");
        reveal_strlit("<user_shell_command>");
        reveal_strlit("</user_shell_command>");
        assert("<user_shell_command>"@ =~= tag_start("user_shell_command"@) + seq!['>']);
        assert("</user_shell_command>"@ =~= end_tag("user_shell_command"@));
    }
    assert(marker_pairs()[10] == (tag_start("turn_aborted"@) + seq!['>'], end_tag("turn_aborted"@))) by {
        reveal_strlit("turn_aborted");
        reveal_strlit("<turn_aborted>");
        reveal_strlit("</turn_aborted>");
        assert("<turn_aborted>"@ =~= tag_start("turn_aborted"@) + seq!['>']);
        assert("</turn_aborted>"@ =~= end_tag("turn_aborted"@));
    }
    assert(marker_pairs()[11] == (tag_start("subagent_notification"@) + seq!['>'], end_tag("subagent_notification"@))) by {
        reveal_strlit("subagent_notification");
        reveal_strlit("<subagent_notification>");
        reveal_strlit("</subagent_notification>");
        assert("<subagent_notification>"@ =~= tag_start("subagent_notification"@) + seq!['>']);
        assert("</subagent_notification>"@ =~= end_tag("subagent_notification"@));
    }
    assert(marker_pairs()[12] == (tag_start("recommended_plugins"@) + seq!['>'], end_tag("recommended_plugins"@))) by {
        reveal_strlit("recommended_plugins");
        reveal_strlit("<recommended_plugins>");
        reveal_strlit("</recommended_plugins>");
        assert("<recommended_plugins>"@ =~= tag_start("recommended_plugins"@) + seq!['>']);
        assert("</recommended_plugins>"@ =~= end_tag("recommended_plugins"@));
    }
}

/// The markers of some fragments are the tags of their names.
proof fn markers_are_tags_4()
    ensures
        marker_pairs()[13] == (tag_start("codex_internal_context"@), end_tag("codex_internal_context"@)),
        marker_pairs()[14] == (tag_start("goal_context"@) + seq!['>'], end_tag("goal_context"@)),
{
    assert(marker_pairs()[13] == (tag_start("codex_internal_context"@), end_tag("codex_internal_context"@))) by {
        reveal_strlit("codex_internal_context");
        reveal_strlit("<codex_internal_context");
        reveal_strlit("</codex_internal_context>");
        assert("<codex_internal_context"@ =~= tag_start("codex_internal_context"@));
        assert("</codex_internal_context>"@ =~= end_tag("codex_internal_context"@));
    }
    assert(marker_pairs()[14] == (tag_start("goal_context"@) + seq!['>'], end_tag("goal_context"@))) by {
        reveal_strlit("goal_context");
        reveal_strlit("<goal_context>");
        reveal_strlit("</goal_context>");
        assert("<goal_context>"@ =~= tag_start("goal_context"@) + seq!['>']);
        assert("</goal_context>"@ =~= end_tag("goal_context"@));
    }
}

/// Between which markers a trimmed and lowered text stands.
pub open spec fn in_known_fragment(low: Seq<char>) -> bool {
    ||| exists|name: Seq<char>|
        #[trigger] is_fragment_name(name) && begins_and_ends(
            low,
            ascii_lowered(tag_start(name) + seq!['>']),
            ascii_lowered(end_tag(name)),
        )
    ||| begins_and_ends(
        low,
        ascii_lowered(tag_start("codex_internal_context"@)),
        ascii_lowered(end_tag("codex_internal_context"@)),
    )
    ||| exists|key: Seq<char>|
        !key.contains('>') && begins_and_ends(
            low,
            ascii_lowered(#[trigger] tag_start("external_"@ + key) + seq!['>']),
            ascii_lowered(end_tag("external_"@ + key)),
        )
}

/// A text stands between the markers of a fragment exactly where it stands
/// between the tags of a known name.
proof fn marked_fragments_have_known_names(text: Seq<char>)
    ensures
        ({
            let low = ascii_lowered(trimmed_end(trimmed_start(text)));
            marked_fragment(text) == ((exists|name: Seq<char>|
                #[trigger] is_fragment_name(name) && begins_and_ends(
                    low,
                    ascii_lowered(tag_start(name) + seq!['>']),
                    ascii_lowered(end_tag(name)),
                )) || begins_and_ends(
                low,
                ascii_lowered(tag_start("codex_internal_context"@)),
                ascii_lowered(end_tag("codex_internal_context"@)),
            ))
        }),
{
    let low = ascii_lowered(trimmed_end(trimmed_start(text)));
    let pairs = marker_pairs();
    markers_are_tags_1();
    markers_are_tags_2();
    markers_are_tags_3();
    markers_are_tags_4();
    assert forall|i: int| 0 <= i < pairs.len() implies marked_text(
        text,
        (#[trigger] pairs[i]).0,
        pairs[i].1,
    ) == begins_and_ends(low, ascii_lowered(pairs[i].0), ascii_lowered(pairs[i].1)) by {
        marked_text_begins_and_ends(text, pairs[i].0, pairs[i].1);
    }
    assert forall|i: int| 0 <= i < pairs.len() && i != 13 implies exists|name: Seq<char>| #[trigger]
        is_fragment_name(name) && (#[trigger] pairs[i]) == (
            tag_start(name) + seq!['>'],
            end_tag(name),
        ) by {
        if i == 0 {
            assert(is_fragment_name("environment_context"@));
        }
        if i == 1 {
            assert(is_fragment_name("skills_instructions"@));
        }
        if i == 2 {
            assert(is_fragment_name("apps_instructions"@));
        }
        if i == 3 {
            assert(is_fragment_name("plugins_instructions"@));
        }
        if i == 4 {
            assert(is_fragment_name("collaboration_mode"@));
        }
        if i == 5 {
            assert(is_fragment_name("multi_agent_mode"@));
        }
        if i == 6 {
            assert(is_fragment_name("realtime_conversation"@));
        }
        if i == 7 {
            assert(is_fragment_name("context_window"@));
        }
        if i == 8 {
            assert(is_fragment_name("context_window_guidance"@));
        }
        if i == 9 {
            assert(is_fragment_name("user_shell_command"@));
        }
        if i == 10 {
            assert(is_fragment_name("turn_aborted"@));
        }
        if i == 11 {
            assert(is_fragment_name("subagent_notification"@));
        }
        if i == 12 {
            assert(is_fragment_name("recommended_plugins"@));
        }
        if i == 14 {
            assert(is_fragment_name("goal_context"@));
        }
    }
    if marked_fragment(text) {
        let i = choose|i: int|
            0 <= i < pairs.len() && marked_text(text, (#[trigger] pairs[i]).0, pairs[i].1);
        if i != 13 {
            let name = choose|name: Seq<char>| #[trigger]
                is_fragment_name(name) && pairs[i] == (tag_start(name) + seq!['>'], end_tag(name));
            assert(is_fragment_name(name));
        }
    }
    if exists|name: Seq<char>| #[trigger] is_fragment_name(name) && begins_and_ends(
        low,
        ascii_lowered(tag_start(name) + seq!['>']),
        ascii_lowered(end_tag(name)),
    ) {
        let name = choose|name: Seq<char>| #[trigger] is_fragment_name(name) && begins_and_ends(
            low,
            ascii_lowered(tag_start(name) + seq!['>']),
            ascii_lowered(end_tag(name)),
        );
        let i: int = if name == "environment_context"@ {
            0
        } else if name == "skills_instructions"@ {
            1
        } else if name == "apps_instructions"@ {
            2
        } else if name == "plugins_instructions"@ {
            3
        } else if name == "collaboration_mode"@ {
            4
        } else if name == "multi_agent_mode"@ {
            5
        } else if name == "realtime_conversation"@ {
            6
        } else if name == "context_window"@ {
            7
        } else if name == "context_window_guidance"@ {
            8
        } else if name == "user_shell_command"@ {
            9
        } else if name == "turn_aborted"@ {
            10
        } else if name == "subagent_notification"@ {
            11
        } else if name == "recommended_plugins"@ {
            12
        } else {
            14
        };
        assert(pairs[i] == (tag_start(name) + seq!['>'], end_tag(name)));
        assert(marked_text(text, pairs[i].0, pairs[i].1));
    }
    if begins_and_ends(
        low,
        ascii_lowered(tag_start("codex_internal_context"@)),
        ascii_lowered(end_tag("codex_internal_context"@)),
    ) {
        assert(marked_text(text, pairs[13].0, pairs[13].1));
    }
}

/// The tags of additional context are those of its key behind `external_`.
proof fn external_tags_are_tags(key: Seq<char>)
    ensures
        external_open(key) == tag_start("external_"@ + key) + seq!['>'],
        external_close(key) == end_tag("external_"@ + key),
{
    reveal_strlit("external_");
    reveal_strlit("<external_");
    reveal_strlit("</external_");
    reveal_strlit(">");
    assert(external_open(key) =~= tag_start("external_"@ + key) + seq!['>']);
    assert(external_close(key) =~= end_tag("external_"@ + key));
}

/// What injected context is. A hook's prompt always is. Otherwise a text is
/// exactly where, trimmed and in small letters, it begins with the tag of a known
/// name and ends with that name's closing tag, or where it begins as the user's
/// instructions, as one of two warnings, or begins and ends as the third.
pub proof fn injected_context_is_known_by_its_markers(text: Seq<char>)
    ensures
        contextual_text(text, true),
        contextual_text(text, false) == ({
            let start = trimmed_start(text);
            ||| in_known_fragment(ascii_lowered(trimmed_end(start)))
            ||| exists|rest: Seq<char>| start == #[trigger] ("# AGENTS.md instructions"@ + rest)
            ||| exists|rest: Seq<char>|
                start == #[trigger] (
                "Warning: The maximum number of unified exec processes you can keep open is"@
                    + rest)
            ||| exists|rest: Seq<char>|
                start == #[trigger] (
                "Warning: Your account was flagged for potentially high-risk cyber activity"@
                    + rest)
            ||| begins_and_ends(
                start,
                "Warning: apply_patch was requested via "@,
                "Use the apply_patch tool instead of exec_command."@,
            )
        }),
{
    let start = trimmed_start(text);
    let low = ascii_lowered(trimmed_end(start));
    marked_fragments_have_known_names(text);
    assert forall|key: Seq<char>| #![trigger external_open(key)] #![trigger tag_start("external_"@ + key)]
        marked_text(text, external_open(key), external_close(key)) == begins_and_ends(
            low,
            ascii_lowered(tag_start("external_"@ + key) + seq!['>']),
            ascii_lowered(end_tag("external_"@ + key)),
        ) by {
        external_tags_are_tags(key);
        marked_text_begins_and_ends(text, external_open(key), external_close(key));
    }
    if external_fragment(text) {
        let key = choose|key: Seq<char>|
            !key.contains('>') && marked_text(
                text,
                #[trigger] external_open(key),
                external_close(key),
            );
        assert(begins_and_ends(
            low,
            ascii_lowered(tag_start("external_"@ + key) + seq!['>']),
            ascii_lowered(end_tag("external_"@ + key)),
        ));
    }
    if exists|key: Seq<char>|
        !key.contains('>') && begins_and_ends(
            low,
            ascii_lowered(#[trigger] tag_start("external_"@ + key) + seq!['>']),
            ascii_lowered(end_tag("external_"@ + key)),
        ) {
        let key = choose|key: Seq<char>|
            !key.contains('>') && begins_and_ends(
                low,
                ascii_lowered(#[trigger] tag_start("external_"@ + key) + seq!['>']),
                ascii_lowered(end_tag("external_"@ + key)),
            );
        assert(marked_text(text, external_open(key), external_close(key)));
    }
    prefix_is_beginning(start, "# AGENTS.md instructions"@);
    prefix_is_beginning(
        start,
        "Warning: The maximum number of unified exec processes you can keep open is"@,
    );
    prefix_is_beginning(
        start,
        "Warning: Your account was flagged for potentially high-risk cyber activity"@,
    );
    prefix_is_beginning(start, "Warning: apply_patch was requested via "@);
    suffix_is_end(start, "Use the apply_patch tool instead of exec_command."@);
    assert(literal_prefixes()[0]
        == "Warning: The maximum number of unified exec processes you can keep open is"@);
    assert(literal_prefixes()[1]
        == "Warning: Your account was flagged for potentially high-risk cyber activity"@);
    assert(starts_with_any(start, literal_prefixes()) == (literal_prefixes()[0].is_prefix_of(start)
        || literal_prefixes()[1].is_prefix_of(start)));
    assert(legacy_apply_patch_warning(start) == begins_and_ends(
        start,
        "Warning: apply_patch was requested via "@,
        "Use the apply_patch tool instead of exec_command."@,
    ));
}

/// A prefix is what a text begins with.
proof fn prefix_is_beginning(text: Seq<char>, prefix: Seq<char>)
    ensures
        prefix.is_prefix_of(text) == exists|rest: Seq<char>| text == #[trigger] (prefix + rest),
{
    if prefix.is_prefix_of(text) {
        assert(text =~= prefix + text.skip(prefix.len() as int));
    }
    if exists|rest: Seq<char>| text == #[trigger] (prefix + rest) {
        let rest = choose|rest: Seq<char>| text == #[trigger] (prefix + rest);
        assert(prefix =~= text.subrange(0, prefix.len() as int));
    }
}

/// A suffix is what a text ends with.
proof fn suffix_is_end(text: Seq<char>, suffix: Seq<char>)
    ensures
        suffix.is_suffix_of(text) == exists|rest: Seq<char>| text == #[trigger] (rest + suffix),
{
    if suffix.is_suffix_of(text) {
        assert(text =~= text.take(text.len() - suffix.len()) + suffix);
    }
    if exists|rest: Seq<char>| text == #[trigger] (rest + suffix) {
        let rest = choose|rest: Seq<char>| text == #[trigger] (rest + suffix);
        assert(suffix =~= text.subrange(text.len() - suffix.len(), text.len() as int));
    }
}

} // verus!
