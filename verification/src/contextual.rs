//! Which `role: "user"` texts are injected context rather than something the
//! user typed.
//!
//! What counts is the host's own rule, by which it truncates. A message that
//! carries the host's verdict is classified by it. For a message without one,
//! the rule is written out here, with the markers that the host's fragments
//! render: a fragment begins with its opening marker and ends with its closing
//! one, in capital or small letters. A text that merely begins with such a
//! marker is the user's own. Instructions from a file, whose closing marker is
//! not known here, and the legacy warnings are known by how they begin.

use crate::rollout::{message_text, rendered_text, ContentItem, ResponseItem, RolloutItem};
use crate::text::{
    ascii_lower, ascii_lowered, ends_with, marked_text, matches_marked_text, split_once,
    starts_with, starts_with_any, strip_prefix, to_ascii_lowercase, trim_end, trim_start,
    trimmed_end, trimmed_start,
};
use vstd::prelude::*;

verus! {

// The protocol crate exports the tags of the environment context alone; the
// other fragments' tags are spelled out here.

pub const SKILLS_INSTRUCTIONS_OPEN_TAG: &'static str = "<skills_instructions>";

pub const APPS_INSTRUCTIONS_OPEN_TAG: &'static str = "<apps_instructions>";

pub const PLUGINS_INSTRUCTIONS_OPEN_TAG: &'static str = "<plugins_instructions>";

pub const COLLABORATION_MODE_OPEN_TAG: &'static str = "<collaboration_mode>";

pub const MULTI_AGENT_MODE_OPEN_TAG: &'static str = "<multi_agent_mode>";

pub const REALTIME_CONVERSATION_OPEN_TAG: &'static str = "<realtime_conversation>";

pub const CONTEXT_WINDOW_OPEN_TAG: &'static str = "<context_window>";

pub const CONTEXT_WINDOW_GUIDANCE_OPEN_TAG: &'static str = "<context_window_guidance>";

/// The markers that open and close an injected fragment.
pub open spec fn marker_pairs() -> Seq<(Seq<char>, Seq<char>)> {
    seq![
        ("<environment_context>"@, "</environment_context>"@),
        (SKILLS_INSTRUCTIONS_OPEN_TAG@, "</skills_instructions>"@),
        (APPS_INSTRUCTIONS_OPEN_TAG@, "</apps_instructions>"@),
        (PLUGINS_INSTRUCTIONS_OPEN_TAG@, "</plugins_instructions>"@),
        (COLLABORATION_MODE_OPEN_TAG@, "</collaboration_mode>"@),
        (MULTI_AGENT_MODE_OPEN_TAG@, "</multi_agent_mode>"@),
        (REALTIME_CONVERSATION_OPEN_TAG@, "</realtime_conversation>"@),
        (CONTEXT_WINDOW_OPEN_TAG@, "</context_window>"@),
        (CONTEXT_WINDOW_GUIDANCE_OPEN_TAG@, "</context_window_guidance>"@),
        ("<user_shell_command>"@, "</user_shell_command>"@),
        ("<turn_aborted>"@, "</turn_aborted>"@),
        ("<subagent_notification>"@, "</subagent_notification>"@),
        ("<recommended_plugins>"@, "</recommended_plugins>"@),
        // Attributes may follow the name of this tag.
        ("<codex_internal_context"@, "</codex_internal_context>"@),
        ("<goal_context>"@, "</goal_context>"@),
    ]
}

/// A text stands between the markers of a fragment.
pub open spec fn marked_fragment(text: Seq<char>) -> bool {
    exists|i: int|
        0 <= i < marker_pairs().len() && marked_text(
            text,
            (#[trigger] marker_pairs()[i]).0,
            marker_pairs()[i].1,
        )
}

/// The tag that opens the additional context of `key`.
pub open spec fn external_open(key: Seq<char>) -> Seq<char> {
    "<external_"@ + key + ">"@
}

/// The tag that closes the additional context of `key`.
pub open spec fn external_close(key: Seq<char>) -> Seq<char> {
    "</external_"@ + key + ">"@
}

/// A text stands between the tags of some additional context, with the same key
/// in both.
pub open spec fn external_fragment(text: Seq<char>) -> bool {
    exists|key: Seq<char>|
        !key.contains('>') && marked_text(text, #[trigger] external_open(key), external_close(key))
}

/// A text begins as the user's instructions from a file do, leading whitespace
/// aside. Their closing marker is not known here, so the opening one alone
/// decides, letter for letter; only the host's verdict can tell a message of the
/// user's that begins in this way.
pub open spec fn instructions_fragment(text: Seq<char>) -> bool {
    "# AGENTS.md instructions"@.is_prefix_of(trimmed_start(text))
}

/// The beginnings of the legacy warnings that carry no tags.
pub open spec fn literal_prefixes() -> Seq<Seq<char>> {
    seq![
        "Warning: The maximum number of unified exec processes you can keep open is"@,
        "Warning: Your account was flagged for potentially high-risk cyber activity"@,
    ]
}

/// The legacy warning about patches, known by its beginning and its end.
pub open spec fn legacy_apply_patch_warning(trimmed: Seq<char>) -> bool {
    &&& "Warning: apply_patch was requested via "@.is_prefix_of(trimmed)
    &&& "Use the apply_patch tool instead of exec_command."@.is_suffix_of(trimmed)
}

/// A text is injected context where it is a hook's prompt, where it is a
/// fragment between its markers, or where, leading whitespace aside, it begins as
/// the user's instructions do or is a legacy warning.
pub open spec fn contextual_text(text: Seq<char>, hook_prompt: bool) -> bool {
    let trimmed = trimmed_start(text);
    ||| hook_prompt
    ||| marked_fragment(text)
    ||| external_fragment(text)
    ||| instructions_fragment(text)
    ||| starts_with_any(trimmed, literal_prefixes())
    ||| legacy_apply_patch_warning(trimmed)
}

/// A part of a message is injected context where it is such an input text.
pub open spec fn contextual_item(item: ContentItem) -> bool {
    match item {
        ContentItem::InputText { text, hook_prompt } => contextual_text(text@, hook_prompt),
        _ => false,
    }
}

/// One contextual part makes the whole message contextual.
pub open spec fn contextual_message(content: Seq<ContentItem>) -> bool {
    exists|i: int| 0 <= i < content.len() && contextual_item(#[trigger] content[i])
}

/// Whether a message is one that the user wrote: as the host says, where it was
/// asked; otherwise a message with the user's role and without a contextual
/// part.
pub open spec fn written_by_user(
    role: Seq<char>,
    content: Seq<ContentItem>,
    host_verdict: Option<bool>,
) -> bool {
    match host_verdict {
        Some(counted) => counted,
        None => role == "user"@ && !contextual_message(content),
    }
}

/// The text of `item` where it is a message that the user wrote.
pub open spec fn user_text(item: RolloutItem) -> Option<Seq<char>> {
    match item {
        RolloutItem::ResponseItem(
            ResponseItem::Message { role, content, host_verdict },
        ) => if written_by_user(role@, content@, host_verdict) {
            Some(rendered_text(content@))
        } else {
            None
        },
        _ => None,
    }
}

/// Reads `codex_protocol::protocol::ENVIRONMENT_CONTEXT_OPEN_TAG`: the tag that
/// opens an environment context.
#[verifier::external_body]
fn environment_context_open_tag() -> (tag: &'static str)
    ensures
        tag@ == "<environment_context>"@,
{
    codex_protocol::protocol::ENVIRONMENT_CONTEXT_OPEN_TAG
}

/// Reads `codex_protocol::protocol::ENVIRONMENT_CONTEXT_CLOSE_TAG`: the tag that
/// closes an environment context.
#[verifier::external_body]
fn environment_context_close_tag() -> (tag: &'static str)
    ensures
        tag@ == "</environment_context>"@,
{
    codex_protocol::protocol::ENVIRONMENT_CONTEXT_CLOSE_TAG
}

/// Whether one of `prefixes` begins `text`.
fn begins_with_any(text: &str, prefixes: &[&'static str]) -> (found: bool)
    ensures
        found == starts_with_any(text@, prefixes@.map_values(|prefix: &'static str| prefix@)),
{
    let ghost views = prefixes@.map_values(|prefix: &'static str| prefix@);
    let mut i: usize = 0;
    while i < prefixes.len()
        invariant
            i <= prefixes.len(),
            views == prefixes@.map_values(|prefix: &'static str| prefix@),
            forall|j: int| 0 <= j < i ==> !(#[trigger] views[j]).is_prefix_of(text@),
        decreases prefixes.len() - i,
    {
        if starts_with(text, prefixes[i]) {
            assert(views[i as int].is_prefix_of(text@));
            return true;
        }
        i += 1;
    }
    false
}

/// Whether `trimmed` is the legacy warning about patches.
pub fn is_legacy_apply_patch_warning(trimmed: &str) -> (is_warning: bool)
    ensures
        is_warning == legacy_apply_patch_warning(trimmed@),
{
    starts_with(trimmed, "Warning: apply_patch was requested via ") && ends_with(
        trimmed,
        "Use the apply_patch tool instead of exec_command.",
    )
}

/// Whether `text` stands between the markers of a fragment.
fn is_marked_fragment(text: &str) -> (marked: bool)
    ensures
        marked == marked_fragment(text@),
{
    let pairs: [(&'static str, &'static str); 15] = [
        (environment_context_open_tag(), environment_context_close_tag()),
        (SKILLS_INSTRUCTIONS_OPEN_TAG, "</skills_instructions>"),
        (APPS_INSTRUCTIONS_OPEN_TAG, "</apps_instructions>"),
        (PLUGINS_INSTRUCTIONS_OPEN_TAG, "</plugins_instructions>"),
        (COLLABORATION_MODE_OPEN_TAG, "</collaboration_mode>"),
        (MULTI_AGENT_MODE_OPEN_TAG, "</multi_agent_mode>"),
        (REALTIME_CONVERSATION_OPEN_TAG, "</realtime_conversation>"),
        (CONTEXT_WINDOW_OPEN_TAG, "</context_window>"),
        (CONTEXT_WINDOW_GUIDANCE_OPEN_TAG, "</context_window_guidance>"),
        ("<user_shell_command>", "</user_shell_command>"),
        ("<turn_aborted>", "</turn_aborted>"),
        ("<subagent_notification>", "</subagent_notification>"),
        ("<recommended_plugins>", "</recommended_plugins>"),
        ("<codex_internal_context", "</codex_internal_context>"),
        ("<goal_context>", "</goal_context>"),
    ];
    assert(pairs@.map_values(|pair: (&'static str, &'static str)| (pair.0@, pair.1@))
        =~= marker_pairs());
    let mut i: usize = 0;
    while i < pairs.len()
        invariant
            i <= pairs@.len(),
            pairs@.map_values(|pair: (&'static str, &'static str)| (pair.0@, pair.1@))
                == marker_pairs(),
            forall|j: int|
                0 <= j < i ==> !marked_text(
                    text@,
                    (#[trigger] marker_pairs()[j]).0,
                    marker_pairs()[j].1,
                ),
        decreases pairs@.len() - i,
    {
        assert(marker_pairs()[i as int] == (pairs@[i as int].0@, pairs@[i as int].1@));
        if matches_marked_text(text, pairs[i].0, pairs[i].1) {
            return true;
        }
        i += 1;
    }
    false
}

/// What is between `<external_` and the next `>` at the beginning of a lowered
/// text is the only key that its opening tag can have.
proof fn external_key_is_unique(
    trimmed: Seq<char>,
    found: Seq<char>,
    rest: Seq<char>,
    key: Seq<char>,
)
    requires
        ascii_lowered(trimmed) == "<external_"@ + (found + seq!['>'] + rest),
        !found.contains('>'),
        !key.contains('>'),
        ascii_lowered(external_open(key)).is_prefix_of(ascii_lowered(trimmed)),
    ensures
        ascii_lowered(key) == found,
{
    let lowered = ascii_lowered(trimmed);
    let open = ascii_lowered(external_open(key));
    reveal_strlit("<external_");
    reveal_strlit(">");
    assert forall|i: int| 0 <= i < open.len() implies #[trigger] open[i] == lowered[i] by {
        assert(lowered.subrange(0, open.len() as int)[i] == lowered[i]);
    }
    assert forall|i: int| 0 <= i < key.len() implies ascii_lower(key[i]) == lowered[10 + i] by {
        assert(external_open(key)[10 + i] == key[i]);
        assert(open[10 + i] == lowered[10 + i]);
    }
    assert(external_open(key)[10 + key.len() as int] == '>');
    assert(open[10 + key.len() as int] == '>');
    assert(lowered[10 + key.len() as int] == '>');
    assert(lowered[10 + found.len() as int] == '>');
    if key.len() < found.len() {
        assert(found[key.len() as int] == lowered[10 + key.len() as int]);
    } else if found.len() < key.len() {
        assert(ascii_lower(key[found.len() as int]) == '>');
        assert(key[found.len() as int] == '>');
    }
    assert forall|i: int| 0 <= i < found.len() implies #[trigger] found[i] == ascii_lower(
        key[i],
    ) by {
        assert(found[i] == lowered[10 + i]);
    }
    assert(ascii_lowered(key) =~= found);
}

/// The tags of a lowered key, and those of the key that it was lowered from.
proof fn external_tags_lowered(key: Seq<char>)
    ensures
        ascii_lowered(external_open(key)) == external_open(ascii_lowered(key)),
        ascii_lowered(external_close(key)) == external_close(ascii_lowered(key)),
{
    reveal_strlit("<external_");
    reveal_strlit("</external_");
    reveal_strlit(">");
    assert(ascii_lowered(external_open(key)) =~= external_open(ascii_lowered(key)));
    assert(ascii_lowered(external_close(key)) =~= external_close(ascii_lowered(key)));
}

/// Whether `text` stands between the tags of some additional context.
fn is_external_fragment(text: &str) -> (external: bool)
    ensures
        external == external_fragment(text@),
{
    let lowered = to_ascii_lowercase(trim_end(trim_start(text)));
    let ghost trimmed = trimmed_end(trimmed_start(text@));
    let rest = match strip_prefix(lowered.as_str(), "<external_") {
        Some(rest) => rest,
        None => {
            proof {
                no_external_without_tag(text@);
            }
            return false;
        },
    };
    let (key, body) = match split_once(rest, '>') {
        Some(parts) => parts,
        None => {
            proof {
                no_external_without_bracket(text@, rest@);
            }
            return false;
        },
    };
    let mut close = "</external_".to_owned();
    close.append(key);
    close.append(">");
    let external = ends_with(lowered.as_str(), close.as_str());
    proof {
        assert(close@ == external_close(key@));
        assert(key@ + seq!['>'] + body@ =~= key@ + (seq!['>'] + body@));
        lowered_part_is_lowered(trimmed, "<external_"@, key@, seq!['>'] + body@);
        external_tags_lowered(key@);
        assert(external_open(key@).is_prefix_of(lowered@)) by {
            reveal_strlit(">");
            assert(">"@ =~= seq!['>']);
            assert(lowered@.subrange(0, external_open(key@).len() as int) =~= external_open(key@));
        }
        if external {
            assert(marked_text(text@, external_open(key@), external_close(key@)));
        } else if external_fragment(text@) {
            let other = choose|other: Seq<char>|
                !other.contains('>') && marked_text(
                    text@,
                    #[trigger] external_open(other),
                    external_close(other),
                );
            external_key_is_unique(trimmed, key@, body@, other);
            external_tags_lowered(other);
        }
    }
    external
}

/// A part of a lowered text is lowered itself.
proof fn lowered_part_is_lowered(
    text: Seq<char>,
    before: Seq<char>,
    part: Seq<char>,
    after: Seq<char>,
)
    requires
        ascii_lowered(text) == before + (part + after),
    ensures
        ascii_lowered(part) == part,
{
    assert forall|i: int| 0 <= i < part.len() implies ascii_lower(part[i])
        == #[trigger] part[i] by {
        let at = before.len() + i;
        assert(ascii_lowered(text).len() == text.len());
        assert((before + (part + after))[at] == part[i]);
        assert(ascii_lowered(text)[at] == ascii_lower(text[at]));
    }
    assert(ascii_lowered(part) =~= part);
}

/// Additional context begins with its tag.
proof fn no_external_without_tag(text: Seq<char>)
    requires
        !"<external_"@.is_prefix_of(ascii_lowered(trimmed_end(trimmed_start(text)))),
    ensures
        !external_fragment(text),
{
    let lowered = ascii_lowered(trimmed_end(trimmed_start(text)));
    assert forall|key: Seq<char>| !key.contains('>') implies !marked_text(
        text,
        #[trigger] external_open(key),
        external_close(key),
    ) by {
        external_tags_lowered(key);
        let open = external_open(ascii_lowered(key));
        if open.is_prefix_of(lowered) {
            assert(open =~= lowered.subrange(0, open.len() as int));
            assert("<external_"@ =~= lowered.subrange(0, "<external_"@.len() as int)) by {
                assert forall|i: int| 0 <= i < "<external_"@.len() implies "<external_"@[i]
                    == #[trigger] lowered[i] by {
                    assert(open[i] == "<external_"@[i]);
                }
            }
        }
    }
}

/// The tag of additional context has an end.
proof fn no_external_without_bracket(text: Seq<char>, rest: Seq<char>)
    requires
        ascii_lowered(trimmed_end(trimmed_start(text))) == "<external_"@ + rest,
        !rest.contains('>'),
    ensures
        !external_fragment(text),
{
    let lowered = ascii_lowered(trimmed_end(trimmed_start(text)));
    reveal_strlit(">");
    assert forall|key: Seq<char>| !key.contains('>') implies !marked_text(
        text,
        #[trigger] external_open(key),
        external_close(key),
    ) by {
        external_tags_lowered(key);
        let open = external_open(ascii_lowered(key));
        if open.is_prefix_of(lowered) {
            let at = "<external_"@.len() + key.len();
            assert(open =~= lowered.subrange(0, open.len() as int));
            assert(open[at as int] == '>');
            assert(lowered[at as int] == '>');
            assert(rest[key.len() as int] == '>');
        }
    }
}

/// Whether one input text of a `role: "user"` message is injected context.
/// `hook_prompt` says whether the protocol's parser took the text for the
/// prompt of a hook.
pub fn is_contextual_user_text(text: &str, hook_prompt: bool) -> (contextual: bool)
    ensures
        contextual == contextual_text(text@, hook_prompt),
{
    if hook_prompt || is_marked_fragment(text) || is_external_fragment(text) {
        return true;
    }
    let trimmed = trim_start(text);
    if starts_with(trimmed, "# AGENTS.md instructions") {
        return true;
    }
    let literals: [&'static str; 2] = [
        "Warning: The maximum number of unified exec processes you can keep open is",
        "Warning: Your account was flagged for potentially high-risk cyber activity",
    ];
    assert(literals@.map_values(|prefix: &'static str| prefix@) =~= literal_prefixes());
    if begins_with_any(trimmed, literals.as_slice()) {
        return true;
    }
    is_legacy_apply_patch_warning(trimmed)
}

/// Whether any part of a message is injected context.
pub fn is_contextual_user_message(content: &[ContentItem]) -> (contextual: bool)
    ensures
        contextual == contextual_message(content@),
{
    let mut i: usize = 0;
    while i < content.len()
        invariant
            i <= content.len(),
            forall|j: int| 0 <= j < i ==> !contextual_item(#[trigger] content@[j]),
        decreases content.len() - i,
    {
        match &content[i] {
            ContentItem::InputText { text, hook_prompt } => {
                if is_contextual_user_text(text.as_str(), *hook_prompt) {
                    assert(contextual_item(content@[i as int]));
                    return true;
                }
            },
            _ => {},
        }
        i += 1;
    }
    false
}

/// The text of `item` where it is a message that the user wrote. A message of
/// several parts is one message, whose images and audio leave no text. Where the
/// message carries the host's verdict, the verdict decides.
pub fn classify_user_message(item: &RolloutItem) -> (written: Option<String>)
    ensures
        written is Some == user_text(*item) is Some,
        written matches Some(text) ==> user_text(*item) == Some(text@),
        *item matches RolloutItem::ResponseItem(
            ResponseItem::Message { host_verdict: Some(counted), .. },
        ) ==> written is Some == counted,
{
    match item {
        RolloutItem::ResponseItem(ResponseItem::Message { role, content, host_verdict }) => {
            let counted = match *host_verdict {
                Some(counted) => counted,
                None => {
                    let user = "user".to_owned();
                    *role == user && !is_contextual_user_message(content.as_slice())
                },
            };
            if counted {
                Some(message_text(content.as_slice()))
            } else {
                None
            }
        },
        _ => None,
    }
}

} // verus!
