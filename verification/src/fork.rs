//! Finding the user message at which a session is forked.
//!
//! A caller names the message by its text and by which repetition of that text
//! is meant. The answer is the message's index among the user messages that
//! are still part of the session, counted from zero: the number of user
//! messages that the forked session keeps.

use crate::contextual::{classify_user_message, user_text};
use crate::rollout::{EventMsg, RolloutItem};
use crate::text::{contains, contains_text};
use vstd::prelude::*;

verus! {

/// The user message to fork at: its text, and which occurrence of that text,
/// counted from one.
#[derive(Debug, Clone, PartialEq, Eq)]
pub struct ForkAnchor {
    pub text: String,
    pub occurrence: usize,
}

/// No user message of the session matches the anchor.
#[derive(Debug, Clone, Copy, PartialEq, Eq)]
pub struct AnchorNotFound;

/// What one line of a rollout does to the list of user messages.
pub enum Mark {
    /// Adds a user message with this text.
    Message(Seq<char>),
    /// Takes back this many of the latest user messages.
    Rollback(nat),
    /// Leaves the list as it is.
    Skip,
}

/// What `item` does to the list, where `written` is the text of the user
/// message that it adds, if it adds one.
pub open spec fn mark_with(item: RolloutItem, written: Option<Seq<char>>) -> Mark {
    match item {
        RolloutItem::EventMsg(EventMsg::ThreadRolledBack(rollback)) => Mark::Rollback(
            rollback.num_turns as nat,
        ),
        _ => match written {
            Some(text) => Mark::Message(text),
            None => Mark::Skip,
        },
    }
}

/// What `item` does to the list.
pub open spec fn mark_of(item: RolloutItem) -> Mark {
    mark_with(item, user_text(item))
}

/// The marks of a rollout.
pub open spec fn marks_of(items: Seq<RolloutItem>) -> Seq<Mark> {
    items.map_values(|item: RolloutItem| mark_of(item))
}

/// `len` less `dropped`, but not less than nothing.
pub open spec fn remaining(len: nat, dropped: nat) -> nat {
    if dropped <= len {
        (len - dropped) as nat
    } else {
        0
    }
}

/// The user messages that are still part of the session: for each one the
/// line of the rollout that added it, and its text.
pub open spec fn boundaries(marks: Seq<Mark>) -> Seq<(int, Seq<char>)>
    decreases marks.len(),
{
    if marks.len() == 0 {
        Seq::empty()
    } else {
        let before = boundaries(marks.drop_last());
        match marks.last() {
            Mark::Message(text) => before.push((marks.len() - 1, text)),
            Mark::Rollback(turns) => before.take(remaining(before.len(), turns) as int),
            Mark::Skip => before,
        }
    }
}

/// The texts of those user messages.
pub open spec fn boundary_texts(marks: Seq<Mark>) -> Seq<Seq<char>> {
    boundaries(marks).map_values(|boundary: (int, Seq<char>)| boundary.1)
}

/// Whether a user message's text is the anchor's (`exact`) or contains it.
pub open spec fn text_matches(text: Seq<char>, anchor: Seq<char>, exact: bool) -> bool {
    if exact {
        text == anchor
    } else {
        contains_text(text, anchor)
    }
}

/// The indices of the matching texts, in ascending order.
pub open spec fn matching_indices(texts: Seq<Seq<char>>, anchor: Seq<char>, exact: bool) -> Seq<int>
    decreases texts.len(),
{
    if texts.len() == 0 {
        Seq::empty()
    } else {
        let before = matching_indices(texts.drop_last(), anchor, exact);
        if text_matches(texts.last(), anchor, exact) {
            before.push(texts.len() - 1)
        } else {
            before
        }
    }
}

/// The messages that the anchor can mean: those whose text equals the
/// anchor's, and only where there is none, those that contain it.
pub open spec fn candidate_indices(texts: Seq<Seq<char>>, anchor: Seq<char>) -> Seq<int> {
    let exact = matching_indices(texts, anchor, true);
    if exact.len() == 0 {
        matching_indices(texts, anchor, false)
    } else {
        exact
    }
}

/// The message that the anchor means: the `occurrence`-th candidate, counted
/// from one.
pub open spec fn anchor_index(texts: Seq<Seq<char>>, anchor: Seq<char>, occurrence: nat) -> Option<
    int,
> {
    let candidates = candidate_indices(texts, anchor);
    if 1 <= occurrence <= candidates.len() {
        Some(candidates[occurrence - 1])
    } else {
        None
    }
}

/// `found` is what `expected` says: the index, or that there is none.
pub open spec fn is_answer(found: Result<usize, AnchorNotFound>, expected: Option<int>) -> bool {
    match found {
        Ok(k) => expected == Some(k as int),
        Err(_) => expected is None,
    }
}

/// A list of positions as executable code holds it.
pub open spec fn positions_view(positions: Seq<(usize, String)>) -> Seq<(int, Seq<char>)> {
    positions.map_values(|position: (usize, String)| (position.0 as int, position.1@))
}

/// Applies one line of a rollout to the list of user messages before it.
fn apply_item(
    positions: &mut Vec<(usize, String)>,
    idx: usize,
    item: &RolloutItem,
    written: Option<String>,
)
    ensures
        positions_view(final(positions)@) == (match mark_with(
            *item,
            match written {
                Some(text) => Some(text@),
                None => None,
            },
        ) {
            Mark::Message(text) => positions_view(old(positions)@).push((idx as int, text)),
            Mark::Rollback(turns) => positions_view(old(positions)@).take(
                remaining(old(positions)@.len(), turns) as int,
            ),
            Mark::Skip => positions_view(old(positions)@),
        }),
{
    match item {
        RolloutItem::EventMsg(EventMsg::ThreadRolledBack(rollback)) => {
            let num_turns: usize = rollback.num_turns as usize;
            let new_len: usize = positions.len().saturating_sub(num_turns);
            positions.truncate(new_len);
            assert(positions_view(positions@) =~= positions_view(old(positions)@).take(
                new_len as int,
            ));
        },
        _ => {
            if let Some(text) = written {
                positions.push((idx, text));
                assert(positions_view(positions@) =~= positions_view(old(positions)@).push(
                    (idx as int, text@),
                ));
            }
        },
    }
}

/// The user messages that are still part of the session, in order, each with
/// its line in the rollout and its text. The position of an entry in the
/// result is the number of user messages before it.
pub fn user_message_positions_in_rollout(items: &[RolloutItem]) -> (positions: Vec<
    (usize, String),
>)
    ensures
        positions_view(positions@) == boundaries(marks_of(items@)),
{
    let mut positions: Vec<(usize, String)> = Vec::new();
    let ghost marks = marks_of(items@);
    assert(positions_view(positions@) =~= boundaries(marks.take(0)));
    let mut idx: usize = 0;
    while idx < items.len()
        invariant
            idx <= items.len(),
            marks == marks_of(items@),
            positions_view(positions@) == boundaries(marks.take(idx as int)),
        decreases items.len() - idx,
    {
        proof {
            assert(marks.take(idx + 1).drop_last() =~= marks.take(idx as int));
            assert(marks.take(idx + 1).last() == mark_of(items@[idx as int]));
        }
        let written = classify_user_message(&items[idx]);
        apply_item(&mut positions, idx, &items[idx], written);
        idx += 1;
    }
    assert(marks.take(items.len() as int) =~= marks);
    positions
}

/// The texts of a list of positions.
pub open spec fn position_texts(positions: Seq<(usize, String)>) -> Seq<Seq<char>> {
    positions.map_values(|position: (usize, String)| position.1@)
}

/// Collects the indices of the matching positions.
fn collect_matches(positions: &Vec<(usize, String)>, anchor_text: &str, exact: bool) -> (ks: Vec<
    usize,
>)
    ensures
        ks@.map_values(|k: usize| k as int) == matching_indices(
            position_texts(positions@),
            anchor_text@,
            exact,
        ),
{
    let anchor = anchor_text.to_owned();
    let ghost texts = position_texts(positions@);
    let mut ks: Vec<usize> = Vec::new();
    assert(ks@.map_values(|k: usize| k as int) =~= matching_indices(
        texts.take(0),
        anchor_text@,
        exact,
    ));
    let mut k: usize = 0;
    while k < positions.len()
        invariant
            k <= positions.len(),
            anchor@ == anchor_text@,
            texts == position_texts(positions@),
            ks@.map_values(|k: usize| k as int) == matching_indices(
                texts.take(k as int),
                anchor_text@,
                exact,
            ),
        decreases positions.len() - k,
    {
        proof {
            assert(texts.take(k + 1).drop_last() =~= texts.take(k as int));
            assert(texts.take(k + 1).last() == positions@[k as int].1@);
        }
        let text = &positions[k].1;
        let matched = if exact {
            *text == anchor
        } else {
            contains(text.as_str(), anchor_text)
        };
        if matched {
            let ghost before = ks@;
            ks.push(k);
            assert(ks@.map_values(|k: usize| k as int) =~= before.map_values(
                |k: usize| k as int,
            ).push(k as int));
        }
        k += 1;
    }
    assert(texts.take(positions.len() as int) =~= texts);
    ks
}

/// Finds the position that the anchor means.
pub fn select_anchor(
    positions: &Vec<(usize, String)>,
    anchor_text: &str,
    occurrence: usize,
) -> (found: Result<usize, AnchorNotFound>)
    ensures
        is_answer(
            found,
            anchor_index(position_texts(positions@), anchor_text@, occurrence as nat),
        ),
{
    if occurrence == 0 {
        return Err(AnchorNotFound);
    }
    let exact_ks = collect_matches(positions, anchor_text, true);
    let candidate_ks = if exact_ks.len() == 0 {
        collect_matches(positions, anchor_text, false)
    } else {
        exact_ks
    };
    proof {
        assert(exact_ks@.len() == exact_ks@.map_values(|k: usize| k as int).len());
        assert(candidate_ks@.len() == candidate_ks@.map_values(|k: usize| k as int).len());
    }
    if occurrence <= candidate_ks.len() {
        let k: usize = candidate_ks[occurrence - 1];
        assert(candidate_ks@.map_values(|k: usize| k as int)[occurrence - 1] == k);
        Ok(k)
    } else {
        Err(AnchorNotFound)
    }
}

/// Finds the user message at which to fork: the `occurrence`-th one, counted
/// from one, whose text equals `anchor_text`; or, where no text equals it, the
/// `occurrence`-th one whose text contains it. The answer counts from zero.
pub fn find_fork_anchor(items: &[RolloutItem], anchor_text: &str, occurrence: usize) -> (found:
    Result<usize, AnchorNotFound>)
    ensures
        is_answer(
            found,
            anchor_index(boundary_texts(marks_of(items@)), anchor_text@, occurrence as nat),
        ),
{
    if occurrence == 0 {
        return Err(AnchorNotFound);
    }
    let positions = user_message_positions_in_rollout(items);
    assert(position_texts(positions@) =~= boundary_texts(marks_of(items@))) by {
        assert(boundary_texts(marks_of(items@)) =~= positions_view(positions@).map_values(
            |boundary: (int, Seq<char>)| boundary.1,
        ));
    }
    select_anchor(&positions, anchor_text, occurrence)
}

/// The caller's ordinal, counted from one, names another message than index `k`,
/// counted from zero.
pub open spec fn hint_disagrees(nth_hint: Option<usize>, k: usize) -> bool {
    nth_hint matches Some(hint) && hint != k + 1
}

/// Whether the caller's ordinal, counted from one, names another message than
/// index `k`, counted from zero. A caller without an ordinal never disagrees.
pub fn nth_hint_mismatches(nth_hint: Option<usize>, k: usize) -> (mismatch: bool)
    ensures
        mismatch == (nth_hint matches Some(hint) && hint != k + 1),
        mismatch == hint_disagrees(nth_hint, k),
{
    match nth_hint {
        None => false,
        Some(hint) => match hint.checked_sub(1) {
            Some(index) => index != k,
            None => true,
        },
    }
}

/// What to log where the caller's ordinal disagrees with the matched text.
#[derive(Debug, Clone, PartialEq, Eq)]
pub struct NthHintWarning {
    pub source_session_id: String,
    pub nth_hint: usize,
    pub matched_k: usize,
}

/// The warning that is due where the caller's ordinal disagrees with index `k`.
/// It never bears on the fork itself: the text match decides.
pub fn warn_on_nth_hint_mismatch(
    nth_hint: Option<usize>,
    source_session_id: &str,
    k: usize,
) -> (warning: Option<NthHintWarning>)
    ensures
        warning is Some == (nth_hint matches Some(hint) && hint != k + 1),
        warning is Some == hint_disagrees(nth_hint, k),
        warning matches Some(due) ==> {
            &&& due.source_session_id@ == source_session_id@
            &&& Some(due.nth_hint) == nth_hint
            &&& due.matched_k == k
        },
{
    if !nth_hint_mismatches(nth_hint, k) {
        return None;
    }
    match nth_hint {
        Some(hint) => Some(
            NthHintWarning {
                source_session_id: source_session_id.to_owned(),
                nth_hint: hint,
                matched_k: k,
            },
        ),
        None => None,
    }
}

} // verus!
