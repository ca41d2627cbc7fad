//! What holds of forking as a whole.

use crate::contextual::{
    contextual_text, external_close, external_fragment, external_open, literal_prefixes,
    marked_fragment, marker_pairs, user_text, written_by_user,
};
use crate::fork::{
    anchor_index, boundaries, boundary_texts, candidate_indices, mark_of, mark_with, marks_of,
    matching_indices, remaining, text_matches, Mark,
};
use crate::rollout::{rendered_text, ContentItem, ResponseItem, RolloutItem};
use crate::text::{
    ascii_lower, ascii_lowered, contains_text, is_white_space, marked_text, text_contains_itself,
    trimmed_end, trimmed_start,
};
use vstd::prelude::*;

verus! {

/// Every boundary is a user message of the rollout, with that message's text,
/// and the boundaries stand in the order of the rollout.
pub proof fn boundaries_are_messages_in_order(marks: Seq<Mark>)
    ensures
        forall|k: int|
            0 <= k < boundaries(marks).len() ==> {
                let (line, text) = #[trigger] boundaries(marks)[k];
                0 <= line < marks.len() && marks[line] == Mark::Message(text)
            },
        forall|j: int, k: int|
            0 <= j < k < boundaries(marks).len() ==> (#[trigger] boundaries(marks)[j]).0 < (
            #[trigger] boundaries(marks)[k]).0,
    decreases marks.len(),
{
    if marks.len() > 0 {
        boundaries_are_messages_in_order(marks.drop_last());
    }
}

/// Cutting a rollout right before its `k`-th user message leaves exactly the
/// first `k` user messages of the session.
pub proof fn cutting_before_a_boundary_keeps_those_before_it(marks: Seq<Mark>, k: int)
    requires
        0 <= k < boundaries(marks).len(),
    ensures
        boundaries(marks.take(boundaries(marks)[k].0)) == boundaries(marks).take(k),
    decreases marks.len(),
{
    boundaries_are_messages_in_order(marks);
    if marks.len() > 0 {
        let before = boundaries(marks.drop_last());
        let line = boundaries(marks)[k].0;
        if k < before.len() {
            cutting_before_a_boundary_keeps_those_before_it(marks.drop_last(), k);
            boundaries_are_messages_in_order(marks.drop_last());
            assert(boundaries(marks)[k] == before[k]);
            assert(marks.take(line) =~= marks.drop_last().take(line));
            assert(boundaries(marks).take(k) =~= before.take(k));
        } else {
            assert(marks.take(line) =~= marks.drop_last());
            assert(boundaries(marks).take(k) =~= before);
        }
    }
}

/// A line that neither is a user message nor takes any back can stand anywhere
/// in the rollout, or be missing, and the user messages are the same.
pub proof fn skipped_lines_do_not_count(before: Seq<Mark>, after: Seq<Mark>)
    ensures
        boundary_texts(before.push(Mark::Skip) + after) == boundary_texts(before + after),
    decreases after.len(),
{
    let with = before.push(Mark::Skip) + after;
    let without = before + after;
    if after.len() == 0 {
        assert(with =~= before.push(Mark::Skip));
        assert(without =~= before);
        assert(with.drop_last() =~= before);
    } else {
        skipped_lines_do_not_count(before, after.drop_last());
        assert(with.drop_last() =~= before.push(Mark::Skip) + after.drop_last());
        assert(without.drop_last() =~= before + after.drop_last());
        let texts = boundary_texts(with.drop_last());
        assert(texts.len() == boundaries(with.drop_last()).len());
        assert(texts.len() == boundaries(without.drop_last()).len()) by {
            assert(boundary_texts(without.drop_last()).len() == boundaries(
                without.drop_last(),
            ).len());
        }
        assert forall|k: int| 0 <= k < texts.len() implies boundaries(with.drop_last())[k].1
            == boundaries(without.drop_last())[k].1 by {
            assert(boundary_texts(with.drop_last())[k] == boundaries(with.drop_last())[k].1);
            assert(boundary_texts(without.drop_last())[k] == boundaries(without.drop_last())[k].1);
        }
        assert(boundary_texts(with) =~= boundary_texts(without));
    }
}

/// A rollback takes back the latest user messages, as many as it says or as
/// many as there are, and leaves the earlier ones.
pub proof fn rollback_drops_the_latest(marks: Seq<Mark>, turns: nat)
    ensures
        boundaries(marks.push(Mark::Rollback(turns))) == boundaries(marks).take(
            remaining(boundaries(marks).len(), turns) as int,
        ),
{
    assert(marks.push(Mark::Rollback(turns)).drop_last() =~= marks);
}

/// Taking back no turn changes nothing.
pub proof fn empty_rollback_changes_nothing(marks: Seq<Mark>)
    ensures
        boundaries(marks.push(Mark::Rollback(0))) == boundaries(marks),
{
    rollback_drops_the_latest(marks, 0);
    assert(boundaries(marks).take(boundaries(marks).len() as int) =~= boundaries(marks));
}

/// Two rollbacks in a row take back as much as one of both together.
pub proof fn rollbacks_add_up(marks: Seq<Mark>, first: nat, second: nat)
    ensures
        boundaries(marks.push(Mark::Rollback(first)).push(Mark::Rollback(second))) == boundaries(
            marks.push(Mark::Rollback(first + second)),
        ),
{
    rollback_drops_the_latest(marks, first);
    rollback_drops_the_latest(marks.push(Mark::Rollback(first)), second);
    rollback_drops_the_latest(marks, first + second);
    assert(boundaries(marks.push(Mark::Rollback(first)).push(Mark::Rollback(second)))
        =~= boundaries(marks.push(Mark::Rollback(first + second))));
}

/// Taking back one turn undoes the latest user message, whatever lines that do
/// not count came in between.
pub proof fn rollback_undoes_a_message(marks: Seq<Mark>, text: Seq<char>, answer: Seq<Mark>)
    requires
        forall|i: int| 0 <= i < answer.len() ==> #[trigger] answer[i] == Mark::Skip,
    ensures
        boundaries((marks.push(Mark::Message(text)) + answer).push(Mark::Rollback(1)))
            == boundaries(marks),
{
    let said = marks.push(Mark::Message(text));
    skips_leave_boundaries(said, answer);
    rollback_drops_the_latest(said + answer, 1);
    assert(said.drop_last() =~= marks);
    assert(boundaries(said).take(boundaries(said).len() - 1) =~= boundaries(marks));
}

/// Lines at the end that do not count leave the boundaries as they are.
pub proof fn skips_leave_boundaries(marks: Seq<Mark>, skips: Seq<Mark>)
    requires
        forall|i: int| 0 <= i < skips.len() ==> #[trigger] skips[i] == Mark::Skip,
    ensures
        boundaries(marks + skips) == boundaries(marks),
    decreases skips.len(),
{
    if skips.len() == 0 {
        assert(marks + skips =~= marks);
    } else {
        skips_leave_boundaries(marks, skips.drop_last());
        assert((marks + skips).drop_last() =~= marks + skips.drop_last());
        assert((marks + skips).last() == skips.last());
    }
}

/// The matching indices are those of the matching texts, each once, ascending.
pub proof fn matching_indices_are_the_matches(
    texts: Seq<Seq<char>>,
    anchor: Seq<char>,
    exact: bool,
)
    ensures
        forall|n: int|
            0 <= n < matching_indices(texts, anchor, exact).len() ==> {
                let k = #[trigger] matching_indices(texts, anchor, exact)[n];
                0 <= k < texts.len() && text_matches(texts[k], anchor, exact)
            },
        forall|m: int, n: int|
            0 <= m < n < matching_indices(texts, anchor, exact).len() ==> (
            #[trigger] matching_indices(texts, anchor, exact)[m]) < (#[trigger] matching_indices(
                texts,
                anchor,
                exact,
            )[n]),
        forall|k: int|
            0 <= k < texts.len() && text_matches(#[trigger] texts[k], anchor, exact)
                ==> matching_indices(texts, anchor, exact).contains(k),
    decreases texts.len(),
{
    if texts.len() > 0 {
        let shorter = texts.drop_last();
        let before = matching_indices(shorter, anchor, exact);
        let all = matching_indices(texts, anchor, exact);
        matching_indices_are_the_matches(shorter, anchor, exact);
        assert forall|k: int|
            0 <= k < texts.len() && text_matches(
                #[trigger] texts[k],
                anchor,
                exact,
            ) implies all.contains(k) by {
            if k < shorter.len() {
                assert(shorter[k] == texts[k]);
                let n = choose|n: int| 0 <= n < before.len() && before[n] == k;
                assert(all[n] == k);
            } else {
                assert(all.last() == k);
            }
        }
        assert forall|n: int| 0 <= n < all.len() implies {
            let k = #[trigger] all[n];
            0 <= k < texts.len() && text_matches(texts[k], anchor, exact)
        } by {
            if n < before.len() {
                assert(all[n] == before[n]);
                assert(shorter[before[n]] == texts[before[n]]);
            }
        }
    }
}

/// An anchor that is found names a user message of the session, and its text
/// matches: it equals the anchor's text where any message's does, and contains
/// it otherwise.
pub proof fn found_anchor_matches(texts: Seq<Seq<char>>, anchor: Seq<char>, occurrence: nat)
    requires
        anchor_index(texts, anchor, occurrence) is Some,
    ensures
        0 <= anchor_index(texts, anchor, occurrence)->0 < texts.len(),
        contains_text(texts[anchor_index(texts, anchor, occurrence)->0], anchor),
        texts.contains(anchor) ==> texts[anchor_index(texts, anchor, occurrence)->0] == anchor,
{
    matching_indices_are_the_matches(texts, anchor, true);
    matching_indices_are_the_matches(texts, anchor, false);
    text_contains_itself(anchor);
    let candidates = candidate_indices(texts, anchor);
    let k = candidates[occurrence - 1];
    if texts.contains(anchor) {
        let j = choose|j: int| 0 <= j < texts.len() && texts[j] == anchor;
        assert(text_matches(texts[j], anchor, true));
        assert(matching_indices(texts, anchor, true).contains(j));
    }
    assert(text_matches(texts[k], anchor, true) || text_matches(texts[k], anchor, false));
}

/// No anchor is found where the occurrence is zero, where there are fewer
/// matches than the occurrence asks for, or where no text even contains the
/// anchor's.
pub proof fn missing_anchor_is_not_found(texts: Seq<Seq<char>>, anchor: Seq<char>, occurrence: nat)
    ensures
        occurrence == 0 ==> anchor_index(texts, anchor, occurrence) is None,
        occurrence > candidate_indices(texts, anchor).len() ==> anchor_index(
            texts,
            anchor,
            occurrence,
        ) is None,
        (forall|k: int| 0 <= k < texts.len() ==> !contains_text(#[trigger] texts[k], anchor))
            ==> anchor_index(texts, anchor, occurrence) is None,
{
    if forall|k: int| 0 <= k < texts.len() ==> !contains_text(#[trigger] texts[k], anchor) {
        if anchor_index(texts, anchor, occurrence) is Some {
            found_anchor_matches(texts, anchor, occurrence);
        }
    }
}

/// Of two occurrences of one anchor, the later names the later message.
pub proof fn later_occurrence_is_later_message(
    texts: Seq<Seq<char>>,
    anchor: Seq<char>,
    first: nat,
    second: nat,
)
    requires
        first < second,
        anchor_index(texts, anchor, first) is Some,
        anchor_index(texts, anchor, second) is Some,
    ensures
        anchor_index(texts, anchor, first)->0 < anchor_index(texts, anchor, second)->0,
{
    matching_indices_are_the_matches(texts, anchor, true);
    matching_indices_are_the_matches(texts, anchor, false);
}

/// Where some occurrence of an anchor is found, so is every earlier one.
pub proof fn earlier_occurrence_is_found(
    texts: Seq<Seq<char>>,
    anchor: Seq<char>,
    first: nat,
    second: nat,
)
    requires
        1 <= first <= second,
        anchor_index(texts, anchor, second) is Some,
    ensures
        anchor_index(texts, anchor, first) is Some,
{
}

/// How many of `texts` equal `anchor`.
pub open spec fn repetitions(texts: Seq<Seq<char>>, anchor: Seq<char>) -> nat
    decreases texts.len(),
{
    if texts.len() == 0 {
        0
    } else {
        repetitions(texts.drop_last(), anchor) + if texts.last() == anchor {
            1nat
        } else {
            0nat
        }
    }
}

/// Every user message of the session can be forked at: its own text, with the
/// number of its repetitions up to and including itself, names it.
pub proof fn every_message_can_be_named(texts: Seq<Seq<char>>, k: int)
    requires
        0 <= k < texts.len(),
    ensures
        anchor_index(texts, texts[k], repetitions(texts.take(k + 1), texts[k])) == Some(k),
{
    let anchor = texts[k];
    let upto = texts.take(k + 1);
    matches_of_a_prefix(texts, anchor, k + 1);
    repetitions_count_matches(upto, anchor);
    assert(upto.last() == anchor);
    let early = matching_indices(upto, anchor, true);
    assert(early.last() == k);
    let all = matching_indices(texts, anchor, true);
    assert(all[early.len() - 1] == early[early.len() - 1]);
}

/// The matches of a prefix are a prefix of the matches.
proof fn matches_of_a_prefix(texts: Seq<Seq<char>>, anchor: Seq<char>, len: int)
    requires
        0 <= len <= texts.len(),
    ensures
        matching_indices(texts.take(len), anchor, true).is_prefix_of(
            matching_indices(texts, anchor, true),
        ),
    decreases texts.len(),
{
    if len == texts.len() {
        assert(texts.take(len) =~= texts);
    } else {
        matches_of_a_prefix(texts.drop_last(), anchor, len);
        assert(texts.drop_last().take(len) =~= texts.take(len));
        let early = matching_indices(texts.take(len), anchor, true);
        let before = matching_indices(texts.drop_last(), anchor, true);
        let all = matching_indices(texts, anchor, true);
        assert(before =~= all.subrange(0, before.len() as int));
        assert(early =~= all.subrange(0, early.len() as int));
    }
}

/// There are as many exact matches as repetitions.
proof fn repetitions_count_matches(texts: Seq<Seq<char>>, anchor: Seq<char>)
    ensures
        repetitions(texts, anchor) == matching_indices(texts, anchor, true).len(),
    decreases texts.len(),
{
    if texts.len() > 0 {
        repetitions_count_matches(texts.drop_last(), anchor);
    }
}

/// The forked session. Where an anchor is found at `k`, the rollout holds that
/// message at some line; its text matches the anchor, and the rollout cut
/// right before that line holds exactly the first `k` user messages.
pub proof fn fork_keeps_the_messages_before_the_anchor(
    items: Seq<RolloutItem>,
    anchor: Seq<char>,
    occurrence: nat,
)
    requires
        anchor_index(boundary_texts(marks_of(items)), anchor, occurrence) is Some,
    ensures
        ({
            let k = anchor_index(boundary_texts(marks_of(items)), anchor, occurrence)->0;
            let kept = boundaries(marks_of(items));
            let line = kept[k].0;
            &&& 0 <= k < kept.len()
            &&& 0 <= line < items.len()
            &&& user_text(items[line]) == Some(kept[k].1)
            &&& contains_text(kept[k].1, anchor)
            &&& boundaries(marks_of(items.take(line))) == kept.take(k)
            &&& boundary_texts(marks_of(items.take(line))).len() == k
        }),
{
    let marks = marks_of(items);
    let texts = boundary_texts(marks);
    found_anchor_matches(texts, anchor, occurrence);
    let k = anchor_index(texts, anchor, occurrence)->0;
    boundaries_are_messages_in_order(marks);
    cutting_before_a_boundary_keeps_those_before_it(marks, k);
    let line = boundaries(marks)[k].0;
    assert(marks_of(items.take(line)) =~= marks.take(line));
    assert(texts[k] == boundaries(marks)[k].1);
    assert(marks[line] == mark_of(items[line]));
}

/// Lines that are no user messages and no rollbacks (injected context, answers,
/// other events) do not move any anchor.
pub proof fn other_lines_do_not_move_anchors(
    before: Seq<RolloutItem>,
    item: RolloutItem,
    after: Seq<RolloutItem>,
    anchor: Seq<char>,
    occurrence: nat,
)
    requires
        mark_of(item) == Mark::Skip,
    ensures
        anchor_index(boundary_texts(marks_of(before.push(item) + after)), anchor, occurrence)
            == anchor_index(boundary_texts(marks_of(before + after)), anchor, occurrence),
{
    assert(marks_of(before.push(item) + after) =~= marks_of(before).push(Mark::Skip) + marks_of(
        after,
    ));
    assert(marks_of(before + after) =~= marks_of(before) + marks_of(after));
    skipped_lines_do_not_count(marks_of(before), marks_of(after));
}

/// A message that the host does not count and, where the host was not asked, one
/// with a contextual part or of another role count as lines that are no user
/// messages.
pub proof fn injected_and_foreign_messages_are_skipped(
    role: String,
    content: Vec<ContentItem>,
    host_verdict: Option<bool>,
)
    requires
        !written_by_user(role@, content@, host_verdict),
    ensures
        mark_of(
            RolloutItem::ResponseItem(ResponseItem::Message { role, content, host_verdict }),
        ) == Mark::Skip,
{
}

/// A message that the user wrote counts as one user message, however many parts
/// it has and of whatever kind.
pub proof fn user_message_counts_once(
    marks: Seq<Mark>,
    role: String,
    content: Vec<ContentItem>,
    host_verdict: Option<bool>,
)
    requires
        written_by_user(role@, content@, host_verdict),
    ensures
        boundaries(
            marks.push(
                mark_of(
                    RolloutItem::ResponseItem(
                        ResponseItem::Message { role, content, host_verdict },
                    ),
                ),
            ),
        ).len() == boundaries(marks).len() + 1,
{
    let mark = mark_of(
        RolloutItem::ResponseItem(ResponseItem::Message { role, content, host_verdict }),
    );
    assert(marks.push(mark).drop_last() =~= marks);
}

/// The lines as the host itself marks them: a message that `counted` says is the
/// user's, a rollback, or a line that does not count.
pub open spec fn host_marks(items: Seq<RolloutItem>, counted: Seq<bool>) -> Seq<Mark> {
    Seq::new(
        items.len(),
        |i: int|
            mark_with(
                items[i],
                match items[i] {
                    RolloutItem::ResponseItem(ResponseItem::Message { content, .. }) => if counted[i] {
                        Some(rendered_text(content@))
                    } else {
                        None
                    },
                    _ => None,
                },
            ),
    )
}

/// Counting and cutting cannot disagree. Where every message carries the host's
/// verdict, the marks are the host's own; so are the user messages, and so is the
/// index of every anchor.
pub proof fn count_agrees_with_the_host(items: Seq<RolloutItem>, counted: Seq<bool>)
    requires
        counted.len() == items.len(),
        forall|i: int|
            0 <= i < items.len() ==> (#[trigger] items[i] matches RolloutItem::ResponseItem(
                ResponseItem::Message { host_verdict, .. },
            ) ==> host_verdict == Some(counted[i])),
    ensures
        marks_of(items) == host_marks(items, counted),
        boundaries(marks_of(items)) == boundaries(host_marks(items, counted)),
        forall|anchor: Seq<char>, occurrence: nat|
            #[trigger] anchor_index(boundary_texts(marks_of(items)), anchor, occurrence)
                == anchor_index(boundary_texts(host_marks(items, counted)), anchor, occurrence),
{
    assert forall|i: int| 0 <= i < items.len() implies #[trigger] marks_of(items)[i] == host_marks(
        items,
        counted,
    )[i] by {
        assert(marks_of(items)[i] == mark_of(items[i]));
    }
    assert(marks_of(items) =~= host_marks(items, counted));
}

/// A text between the markers of a fragment is contextual, whatever whitespace
/// stands around it, whatever is between them, and in whatever letter case the
/// markers are written.
pub proof fn closed_fragment_is_contextual(
    space: Seq<char>,
    open: Seq<char>,
    body: Seq<char>,
    close: Seq<char>,
    tail: Seq<char>,
    pair: (Seq<char>, Seq<char>),
    hook_prompt: bool,
)
    requires
        marker_pairs().contains(pair),
        ascii_lowered(open) == ascii_lowered(pair.0),
        ascii_lowered(close) == ascii_lowered(pair.1),
        forall|i: int| 0 <= i < space.len() ==> is_white_space(#[trigger] space[i]),
        forall|i: int| 0 <= i < tail.len() ==> is_white_space(#[trigger] tail[i]),
    ensures
        contextual_text(space + (open + body + close) + tail, hook_prompt),
{
    markers_are_visible();
    let i = choose|i: int| 0 <= i < marker_pairs().len() && marker_pairs()[i] == pair;
    assert(marker_pairs()[i] == pair);
    surrounded_text_is_marked(space, open, body, close, tail, pair);
    assert(marked_fragment(space + (open + body + close) + tail));
}

/// So is additional context between the tags of its key, which may be any that
/// holds no bracket.
pub proof fn closed_additional_context_is_contextual(
    space: Seq<char>,
    open: Seq<char>,
    body: Seq<char>,
    close: Seq<char>,
    tail: Seq<char>,
    key: Seq<char>,
    hook_prompt: bool,
)
    requires
        !key.contains('>'),
        ascii_lowered(open) == ascii_lowered(external_open(key)),
        ascii_lowered(close) == ascii_lowered(external_close(key)),
        forall|i: int| 0 <= i < space.len() ==> is_white_space(#[trigger] space[i]),
        forall|i: int| 0 <= i < tail.len() ==> is_white_space(#[trigger] tail[i]),
    ensures
        contextual_text(space + (open + body + close) + tail, hook_prompt),
{
    reveal_strlit("<external_");
    reveal_strlit(">");
    surrounded_text_is_marked(
        space,
        open,
        body,
        close,
        tail,
        (external_open(key), external_close(key)),
    );
    assert(external_fragment(space + (open + body + close) + tail));
}

/// A text between two markers, with whitespace around, is marked by them.
proof fn surrounded_text_is_marked(
    space: Seq<char>,
    open: Seq<char>,
    body: Seq<char>,
    close: Seq<char>,
    tail: Seq<char>,
    pair: (Seq<char>, Seq<char>),
)
    requires
        pair.0.len() > 0 && pair.0[0] == '<',
        pair.1.len() > 0 && pair.1.last() == '>',
        ascii_lowered(open) == ascii_lowered(pair.0),
        ascii_lowered(close) == ascii_lowered(pair.1),
        forall|i: int| 0 <= i < space.len() ==> is_white_space(#[trigger] space[i]),
        forall|i: int| 0 <= i < tail.len() ==> is_white_space(#[trigger] tail[i]),
    ensures
        marked_text(space + (open + body + close) + tail, pair.0, pair.1),
{
    let inner = open + body + close;
    assert(ascii_lowered(open).len() == open.len() && ascii_lowered(pair.0).len() == pair.0.len());
    assert(ascii_lowered(close).len() == close.len() && ascii_lowered(pair.1).len()
        == pair.1.len());
    assert(ascii_lowered(open)[0] == ascii_lower(open[0]));
    assert(ascii_lowered(pair.0)[0] == ascii_lower(pair.0[0]));
    assert(ascii_lowered(close).last() == ascii_lower(close.last()));
    assert(ascii_lowered(pair.1).last() == ascii_lower(pair.1.last()));
    assert(space + inner + tail =~= space + (inner + tail));
    leading_space_is_trimmed(space, inner + tail);
    trailing_space_is_trimmed(inner, tail);
    assert(ascii_lowered(inner).subrange(0, open.len() as int) =~= ascii_lowered(open));
    assert(ascii_lowered(inner).subrange(inner.len() - close.len(), inner.len() as int)
        =~= ascii_lowered(close));
}

/// A text that begins with a bracket, and is no hook's prompt, is contextual only
/// where a closing marker closes its opening one. One that begins with an
/// opening marker and never closes it is the user's own; so is, above all, every
/// one that does not even end with a bracket.
pub proof fn unclosed_tag_is_the_users_own(text: Seq<char>)
    requires
        trimmed_end(trimmed_start(text)).len() > 0,
        trimmed_end(trimmed_start(text))[0] == '<',
    ensures
        contextual_text(text, false) == (marked_fragment(text) || external_fragment(text)),
        trimmed_end(trimmed_start(text)).last() != '>' ==> !contextual_text(text, false),
{
    let start = trimmed_start(text);
    let trimmed = trimmed_end(start);
    if trimmed.last() != '>' {
        only_brackets_close(text);
    }
    trimming_the_end_keeps_the_beginning(start);
    assert(start[0] == '<');
    reveal_strlit("# AGENTS.md instructions");
    let agents = "# AGENTS.md instructions"@;
    if agents.is_prefix_of(start) {
        assert(start.subrange(0, agents.len() as int)[0] == start[0]);
        assert(agents[0] == '#');
    }
    reveal_strlit("Warning: The maximum number of unified exec processes you can keep open is");
    reveal_strlit("Warning: Your account was flagged for potentially high-risk cyber activity");
    reveal_strlit("Warning: apply_patch was requested via ");
    assert forall|prefix: Seq<char>|
        prefix.len() > 0 && prefix[0] == 'W' implies !#[trigger] prefix.is_prefix_of(start) by {
        if prefix.is_prefix_of(start) {
            assert(start.subrange(0, prefix.len() as int)[0] == start[0]);
        }
    }
    assert forall|i: int| 0 <= i < literal_prefixes().len() implies !(
    #[trigger] literal_prefixes()[i]).is_prefix_of(start) by {
        assert(literal_prefixes()[i][0] == 'W');
    }
    assert("Warning: apply_patch was requested via "@[0] == 'W');
}

/// No fragment is closed without a bracket at the end.
proof fn only_brackets_close(text: Seq<char>)
    requires
        trimmed_end(trimmed_start(text)).len() > 0,
        trimmed_end(trimmed_start(text)).last() != '>',
    ensures
        !marked_fragment(text),
        !external_fragment(text),
{
    let trimmed = trimmed_end(trimmed_start(text));
    let lowered = ascii_lowered(trimmed);
    markers_are_visible();
    assert(lowered.last() == ascii_lower(trimmed.last()));
    assert forall|close: Seq<char>|
        close.len() > 0 && close.last() == '>' implies !(#[trigger] ascii_lowered(
        close,
    )).is_suffix_of(lowered) by {
        let low = ascii_lowered(close);
        assert(low.last() == '>');
        if low.is_suffix_of(lowered) {
            assert(lowered.subrange(lowered.len() - low.len(), lowered.len() as int).last()
                == lowered.last());
        }
    }
    assert forall|i: int| 0 <= i < marker_pairs().len() implies !marked_text(
        text,
        (#[trigger] marker_pairs()[i]).0,
        marker_pairs()[i].1,
    ) by {
        assert(!ascii_lowered(marker_pairs()[i].1).is_suffix_of(lowered));
    }
    assert forall|key: Seq<char>| !marked_text(
        text,
        #[trigger] external_open(key),
        external_close(key),
    ) by {
        reveal_strlit(">");
        assert(external_close(key).last() == '>');
        assert(!ascii_lowered(external_close(key)).is_suffix_of(lowered));
    }
}

/// Every opening marker begins, and every closing one ends, with a character
/// that is no whitespace, and closing ones with a bracket.
proof fn markers_are_visible()
    ensures
        forall|i: int|
            0 <= i < marker_pairs().len() ==> {
                &&& (#[trigger] marker_pairs()[i]).0.len() > 0
                &&& marker_pairs()[i].0[0] == '<'
                &&& marker_pairs()[i].1.len() > 0
                &&& marker_pairs()[i].1.last() == '>'
            },
{
    reveal_strlit("<environment_context>");
    reveal_strlit("</environment_context>");
    reveal_strlit("<skills_instructions>");
    reveal_strlit("</skills_instructions>");
    reveal_strlit("<apps_instructions>");
    reveal_strlit("</apps_instructions>");
    reveal_strlit("<plugins_instructions>");
    reveal_strlit("</plugins_instructions>");
    reveal_strlit("<collaboration_mode>");
    reveal_strlit("</collaboration_mode>");
    reveal_strlit("<multi_agent_mode>");
    reveal_strlit("</multi_agent_mode>");
    reveal_strlit("<realtime_conversation>");
    reveal_strlit("</realtime_conversation>");
    reveal_strlit("<context_window>");
    reveal_strlit("</context_window>");
    reveal_strlit("<context_window_guidance>");
    reveal_strlit("</context_window_guidance>");
    reveal_strlit("<user_shell_command>");
    reveal_strlit("</user_shell_command>");
    reveal_strlit("<turn_aborted>");
    reveal_strlit("</turn_aborted>");
    reveal_strlit("<subagent_notification>");
    reveal_strlit("</subagent_notification>");
    reveal_strlit("<recommended_plugins>");
    reveal_strlit("</recommended_plugins>");
    reveal_strlit("<codex_internal_context");
    reveal_strlit("</codex_internal_context>");
    reveal_strlit("<goal_context>");
    reveal_strlit("</goal_context>");
}

/// Trimming removes exactly the whitespace before the first other character.
proof fn leading_space_is_trimmed(space: Seq<char>, text: Seq<char>)
    requires
        forall|i: int| 0 <= i < space.len() ==> is_white_space(#[trigger] space[i]),
        text.len() > 0 && !is_white_space(text[0]),
    ensures
        trimmed_start(space + text) == text,
    decreases space.len(),
{
    if space.len() == 0 {
        assert(space + text =~= text);
    } else {
        leading_space_is_trimmed(space.drop_first(), text);
        assert((space + text).drop_first() =~= space.drop_first() + text);
        assert((space + text)[0] == space[0]);
    }
}

/// Trimming removes exactly the whitespace after the last other character.
proof fn trailing_space_is_trimmed(text: Seq<char>, space: Seq<char>)
    requires
        forall|i: int| 0 <= i < space.len() ==> is_white_space(#[trigger] space[i]),
        text.len() > 0 && !is_white_space(text.last()),
    ensures
        trimmed_end(text + space) == text,
    decreases space.len(),
{
    if space.len() == 0 {
        assert(text + space =~= text);
    } else {
        trailing_space_is_trimmed(text, space.drop_last());
        assert((text + space).drop_last() =~= text + space.drop_last());
        assert((text + space).last() == space.last());
    }
}

/// Trimming the end leaves the beginning.
proof fn trimming_the_end_keeps_the_beginning(text: Seq<char>)
    ensures
        trimmed_end(text).is_prefix_of(text),
        trimmed_end(text).len() > 0 ==> trimmed_end(text)[0] == text[0],
    decreases text.len(),
{
    if text.len() > 0 && is_white_space(text.last()) {
        trimming_the_end_keeps_the_beginning(text.drop_last());
        let rest = trimmed_end(text);
        assert(rest =~= text.subrange(0, rest.len() as int)) by {
            assert(rest =~= text.drop_last().subrange(0, rest.len() as int));
        }
        if rest.len() > 0 {
            assert(text.subrange(0, rest.len() as int)[0] == text[0]);
        }
    } else {
        assert(text =~= text.subrange(0, text.len() as int));
    }
}

} // verus!
