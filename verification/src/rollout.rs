//! A session's rollout: the ordered record of what was sent, answered and
//! rolled back, reduced to what decides where a session can be forked.

use crate::text::joined_lines;
use vstd::prelude::*;

verus! {

/// One part of a message.
#[derive(Debug, Clone, PartialEq, Eq)]
pub enum ContentItem {
    /// Text handed to the model. `hook_prompt` is set where the protocol's own
    /// parser recognises the text as the prompt of a hook.
    InputText { text: String, hook_prompt: bool },
    InputImage { image_url: String },
    InputAudio { audio_url: String },
    OutputText { text: String },
}

/// One exchange with the model. Only messages matter here. `host_verdict` says
/// whether the host's own parser takes the message for a turn of the user,
/// where it was asked.
#[derive(Debug, Clone, PartialEq, Eq)]
pub enum ResponseItem {
    Message { role: String, content: Vec<ContentItem>, host_verdict: Option<bool> },
    Other,
}

/// The last `num_turns` user turns were taken back.
#[derive(Debug, Clone, Copy, PartialEq, Eq)]
pub struct ThreadRolledBackEvent {
    pub num_turns: u32,
}

/// One event of the session. Only rollbacks matter here.
#[derive(Debug, Clone, Copy, PartialEq, Eq)]
pub enum EventMsg {
    ThreadRolledBack(ThreadRolledBackEvent),
    Other,
}

/// One line of the rollout.
#[derive(Debug, Clone, PartialEq, Eq)]
pub enum RolloutItem {
    ResponseItem(ResponseItem),
    EventMsg(EventMsg),
    Other,
}

/// The input texts among `content`, in order.
pub open spec fn input_texts(content: Seq<ContentItem>) -> Seq<Seq<char>>
    decreases content.len(),
{
    if content.len() == 0 {
        Seq::empty()
    } else {
        match content.last() {
            ContentItem::InputText { text, .. } => input_texts(content.drop_last()).push(text@),
            _ => input_texts(content.drop_last()),
        }
    }
}

/// The text of a message: its input texts, one per line.
pub open spec fn rendered_text(content: Seq<ContentItem>) -> Seq<char> {
    joined_lines(input_texts(content))
}

/// Renders a message's text parts as one string, leaving out images and audio.
pub fn message_text(content: &[ContentItem]) -> (rendered: String)
    ensures
        rendered@ == rendered_text(content@),
{
    let mut rendered = String::new();
    let mut first = true;
    let mut i: usize = 0;
    while i < content.len()
        invariant
            i <= content.len(),
            first == (input_texts(content@.take(i as int)).len() == 0),
            rendered@ == rendered_text(content@.take(i as int)),
        decreases content.len() - i,
    {
        proof {
            assert(content@.take(i + 1).drop_last() =~= content@.take(i as int));
            assert(content@.take(i + 1).last() == content@[i as int]);
        }
        match &content[i] {
            ContentItem::InputText { text, .. } => {
                proof {
                    reveal_strlit("\n");
                    let before = input_texts(content@.take(i as int));
                    assert(before.push(text@).drop_last() =~= before);
                    assert("\n"@ =~= seq!['\n']);
                }
                if !first {
                    rendered.append("\n");
                }
                rendered.append(text.as_str());
                first = false;
            },
            _ => {},
        }
        i += 1;
    }
    assert(content@.take(content.len() as int) =~= content@);
    rendered
}

} // verus!
