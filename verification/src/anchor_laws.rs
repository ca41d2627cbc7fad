//! What holds of finding the message that an anchor means, over rollouts and
//! over texts.

use crate::contextual::user_text;
use crate::fork::{
    anchor_index, boundaries, boundary_texts, hint_disagrees, is_answer, mark_of, marks_of,
    matching_indices, position_texts, positions_view, text_matches, AnchorNotFound, Mark,
};
use crate::fork_laws::matching_indices_are_the_matches;
use crate::rollout::{EventMsg, RolloutItem, ThreadRolledBackEvent};
use crate::text::{concatenation_contains_middle, contains_text, occurs_at};
use vstd::prelude::*;

verus! {

/// The user messages of a rollout that are still part of the session: for each
/// one its line and its text.
pub open spec fn session(items: Seq<RolloutItem>) -> Seq<(int, Seq<char>)> {
    boundaries(marks_of(items))
}

/// One more line at the end of a rollout is one more mark.
proof fn one_more_mark(items: Seq<RolloutItem>, item: RolloutItem)
    ensures
        marks_of(items.push(item)) == marks_of(items).push(mark_of(item)),
        marks_of(items.push(item)).drop_last() == marks_of(items),
        marks_of(items.push(item)).last() == mark_of(item),
        marks_of(items).len() == items.len(),
{
    assert(marks_of(items.push(item)) =~= marks_of(items).push(mark_of(item)));
    assert(marks_of(items.push(item)).drop_last() =~= marks_of(items));
}

/// A session without lines has no user messages.
pub proof fn empty_session()
    ensures
        session(Seq::empty()) == Seq::<(int, Seq<char>)>::empty(),
{
    assert(marks_of(Seq::empty()) =~= Seq::empty());
}

/// A rollback that says `n` turns takes back the latest `n` user messages, or all
/// of them where there are no more, and leaves the others as they were.
pub proof fn rollback_takes_back_what_it_says(items: Seq<RolloutItem>, num_turns: u32)
    ensures
        ({
            let line = RolloutItem::EventMsg(
                EventMsg::ThreadRolledBack(ThreadRolledBackEvent { num_turns }),
            );
            &&& mark_of(line) == Mark::Rollback(num_turns as nat)
            &&& num_turns <= session(items).len() ==> session(items.push(line)) == session(
                items,
            ).take(session(items).len() - num_turns)
            &&& num_turns > session(items).len() ==> session(items.push(line)).len() == 0
        }),
{
    let line = RolloutItem::EventMsg(
        EventMsg::ThreadRolledBack(ThreadRolledBackEvent { num_turns }),
    );
    one_more_mark(items, line);
}

/// A message that the user wrote is one more user message, at its own line and
/// with its own text; any other line but a rollback changes nothing.
pub proof fn message_of_the_users_is_one_more(items: Seq<RolloutItem>, item: RolloutItem)
    requires
        !(item matches RolloutItem::EventMsg(EventMsg::ThreadRolledBack(_))),
    ensures
        user_text(item) matches Some(text) ==> session(items.push(item)) == session(items).push(
            (items.len() as int, text),
        ),
        user_text(item) is None ==> session(items.push(item)) == session(items),
{
    one_more_mark(items, item);
}

/// The texts of a session are those of its user messages, in their order.
pub proof fn texts_of_a_session(items: Seq<RolloutItem>, k: int)
    ensures
        boundary_texts(marks_of(items)).len() == session(items).len(),
        0 <= k < session(items).len() ==> boundary_texts(marks_of(items))[k] == session(
            items,
        )[k].1,
{
}

/// A list of positions holds the line and the text of each, one for one.
pub proof fn positions_hold_line_and_text(positions: Seq<(usize, String)>, k: int)
    ensures
        positions_view(positions).len() == positions.len(),
        position_texts(positions).len() == positions.len(),
        0 <= k < positions.len() ==> positions_view(positions)[k] == (
            positions[k].0 as int,
            positions[k].1@,
        ) && position_texts(positions)[k] == positions[k].1@,
{
}

/// An answer is the index itself, or that there is none.
pub proof fn answer_is_the_index(k: usize, expected: Option<int>)
    ensures
        is_answer(Ok(k), expected) == (expected == Some(k as int)),
        is_answer(Err(AnchorNotFound), expected) == (expected is None),
{
}

/// A text contains another exactly where it is some text, then the other, then
/// some text.
pub proof fn containing_is_surrounding(text: Seq<char>, part: Seq<char>)
    ensures
        contains_text(text, part) == exists|before: Seq<char>, after: Seq<char>|
            text == #[trigger] (before + part + after),
{
    if contains_text(text, part) {
        let at = choose|at: int| #[trigger] occurs_at(text, part, at);
        let before = text.take(at);
        let after = text.skip(at + part.len());
        assert(text =~= before + part + after) by {
            assert(text.subrange(at, at + part.len()) == part);
            assert forall|i: int| 0 <= i < text.len() implies text[i] == (before + part + after)[i] by {
                if at <= i < at + part.len() {
                    assert(text.subrange(at, at + part.len())[i - at] == text[i]);
                }
            }
        }
    }
    if exists|before: Seq<char>, after: Seq<char>| text == #[trigger] (before + part + after) {
        let (before, after) = choose|before: Seq<char>, after: Seq<char>|
            text == #[trigger] (before + part + after);
        concatenation_contains_middle(before, part, after);
    }
}

/// To be the same text as `anchor`.
pub open spec fn equal_to(anchor: Seq<char>) -> spec_fn(Seq<char>) -> bool {
    |text: Seq<char>| text == anchor
}

/// To contain `anchor`.
pub open spec fn containing(anchor: Seq<char>) -> spec_fn(Seq<char>) -> bool {
    |text: Seq<char>| contains_text(text, anchor)
}

/// The condition that a match fulfils.
spec fn condition(anchor: Seq<char>, exact: bool) -> spec_fn(Seq<char>) -> bool {
    if exact {
        equal_to(anchor)
    } else {
        containing(anchor)
    }
}

/// There are as many matches as texts that fulfil the condition.
proof fn matches_are_counted(texts: Seq<Seq<char>>, anchor: Seq<char>, exact: bool)
    ensures
        matching_indices(texts, anchor, exact).len() == texts.filter(
            condition(anchor, exact),
        ).len(),
    decreases texts.len(),
{
    reveal(Seq::filter);
    if texts.len() > 0 {
        matches_are_counted(texts.drop_last(), anchor, exact);
    }
}

/// The matches among the first texts are the first matches.
proof fn first_matches(texts: Seq<Seq<char>>, anchor: Seq<char>, exact: bool, len: int)
    requires
        0 <= len <= texts.len(),
    ensures
        matching_indices(texts.take(len), anchor, exact).len() <= matching_indices(
            texts,
            anchor,
            exact,
        ).len(),
        forall|n: int|
            0 <= n < matching_indices(texts.take(len), anchor, exact).len() ==> #[trigger] (
            matching_indices(texts.take(len), anchor, exact)[n]) == matching_indices(
                texts,
                anchor,
                exact,
            )[n],
    decreases texts.len(),
{
    if len == texts.len() {
        assert(texts.take(len) =~= texts);
    } else {
        first_matches(texts.drop_last(), anchor, exact, len);
        assert(texts.drop_last().take(len) =~= texts.take(len));
    }
}

/// The matches are numbered by how many there are up to them.
proof fn match_numbers(
    texts: Seq<Seq<char>>,
    anchor: Seq<char>,
    exact: bool,
    occurrence: nat,
    k: int,
)
    ensures
        ({
            let all = matching_indices(texts, anchor, exact);
            (1 <= occurrence <= all.len() && all[occurrence - 1] == k) <==> (0 <= k < texts.len()
                && condition(anchor, exact)(texts[k]) && texts.take(k + 1).filter(
                condition(anchor, exact),
            ).len() == occurrence)
        }),
{
    let all = matching_indices(texts, anchor, exact);
    matching_indices_are_the_matches(texts, anchor, exact);
    if 0 <= k < texts.len() && condition(anchor, exact)(texts[k]) {
        let upto = texts.take(k + 1);
        let early = matching_indices(upto, anchor, exact);
        first_matches(texts, anchor, exact, k + 1);
        matches_are_counted(upto, anchor, exact);
        assert(upto.last() == texts[k]);
        assert(early.last() == k);
        assert(early[early.len() - 1] == all[early.len() - 1]);
        if 1 <= occurrence <= all.len() && all[occurrence - 1] == k {
            let n = occurrence - 1;
            let m = early.len() - 1;
            if n < m {
                assert(all[n] < all[m]);
            } else if m < n {
                assert(all[m] < all[n]);
            }
        }
    }
}

/// Which message an anchor means. Where some message's text is the anchor's, it
/// is the message with that text up to and including which there are as many
/// with it as the occurrence says. Where none is, it is the message that contains
/// the anchor's text up to and including which there are as many that do.
pub proof fn anchor_means_the_nth_match(
    texts: Seq<Seq<char>>,
    anchor: Seq<char>,
    occurrence: nat,
    k: int,
)
    ensures
        texts.contains(anchor) ==> ((anchor_index(texts, anchor, occurrence) == Some(k)) <==> (0
            <= k < texts.len() && texts[k] == anchor && texts.take(k + 1).filter(
            equal_to(anchor),
        ).len() == occurrence)),
        !texts.contains(anchor) ==> ((anchor_index(texts, anchor, occurrence) == Some(k)) <==> (0
            <= k < texts.len() && contains_text(texts[k], anchor) && texts.take(k + 1).filter(
            containing(anchor),
        ).len() == occurrence)),
{
    matching_indices_are_the_matches(texts, anchor, true);
    match_numbers(texts, anchor, true, occurrence, k);
    match_numbers(texts, anchor, false, occurrence, k);
    let exact = matching_indices(texts, anchor, true);
    if texts.contains(anchor) {
        let j = choose|j: int| 0 <= j < texts.len() && texts[j] == anchor;
        assert(text_matches(texts[j], anchor, true));
        assert(exact.contains(j));
        assert(exact.len() > 0);
    } else if exact.len() > 0 {
        let j = exact[0];
        assert(text_matches(texts[j], anchor, true));
        assert(texts[j] == anchor);
    }
}

/// When no message is meant: exactly where the occurrence is zero or more than
/// there are matches.
pub proof fn no_anchor_beyond_the_matches(
    texts: Seq<Seq<char>>,
    anchor: Seq<char>,
    occurrence: nat,
)
    ensures
        texts.contains(anchor) ==> (anchor_index(texts, anchor, occurrence) is None <==> (occurrence
            == 0 || occurrence > texts.filter(equal_to(anchor)).len())),
        !texts.contains(anchor) ==> (anchor_index(texts, anchor, occurrence) is None <==> (
        occurrence == 0 || occurrence > texts.filter(containing(anchor)).len())),
{
    matches_are_counted(texts, anchor, true);
    matches_are_counted(texts, anchor, false);
    matching_indices_are_the_matches(texts, anchor, true);
    let exact = matching_indices(texts, anchor, true);
    if texts.contains(anchor) {
        let j = choose|j: int| 0 <= j < texts.len() && texts[j] == anchor;
        assert(text_matches(texts[j], anchor, true));
        assert(exact.contains(j));
    } else if exact.len() > 0 {
        let j = exact[0];
        assert(text_matches(texts[j], anchor, true));
        assert(texts[j] == anchor);
    }
}

/// To contain the anchor's text is enough. Where no message's text is the
/// anchor's, every message that has it anywhere, whatever stands before and after
/// it, is meant by some occurrence.
pub proof fn containing_message_can_be_named(
    texts: Seq<Seq<char>>,
    before: Seq<char>,
    anchor: Seq<char>,
    after: Seq<char>,
    k: int,
)
    requires
        0 <= k < texts.len(),
        texts[k] == before + anchor + after,
        !texts.contains(anchor),
    ensures
        anchor_index(texts, anchor, texts.take(k + 1).filter(containing(anchor)).len()) == Some(k),
        exists|occurrence: nat|
            1 <= occurrence <= k + 1 && #[trigger] anchor_index(texts, anchor, occurrence) == Some(
                k,
            ),
{
    concatenation_contains_middle(before, anchor, after);
    let occurrence = texts.take(k + 1).filter(containing(anchor)).len();
    anchor_means_the_nth_match(texts, anchor, occurrence, k);
    texts.take(k + 1).lemma_filter_len(containing(anchor));
    assert(anchor_index(texts, anchor, occurrence) == Some(k));
}

/// Whatever other messages say, an exact match is meant before any that merely
/// contains the anchor's text.
pub proof fn exact_match_goes_first(
    texts: Seq<Seq<char>>,
    anchor: Seq<char>,
    occurrence: nat,
    k: int,
)
    requires
        texts.contains(anchor),
        0 <= k < texts.len(),
        texts[k] != anchor,
    ensures
        anchor_index(texts, anchor, occurrence) != Some(k),
{
    anchor_means_the_nth_match(texts, anchor, occurrence, k);
}

/// The caller's ordinal counts from one and the index from zero: for each index
/// exactly one ordinal agrees, the one after it; a caller without one never
/// disagrees.
pub proof fn one_hint_agrees(hint: usize, k: usize)
    ensures
        !hint_disagrees(None, k),
        hint_disagrees(Some(hint), k) <==> hint - 1 != k,
        k < usize::MAX ==> !hint_disagrees(Some((k + 1) as usize), k),
{
}

} // verus!
