//! Diagnostics.

use vstd::prelude::*;
use vstd::string::*;
use crate::source::SrcPos;

verus! {

#[derive(Clone, Copy, Debug, PartialEq, Eq, Structural)]
pub enum Severity {
    Hint,
    Error,
}

/// A diagnostic: where it points, what it says, how severe it is and,
/// for some, a second place with a note of its own.
#[derive(Debug, PartialEq, Eq)]
pub struct Message {
    pub pos: SrcPos,
    pub message: String,
    pub severity: Severity,
    pub related: Option<(SrcPos, String)>,
}

/// What a `Message` says, with its texts as sequences of characters.
pub struct MessageView {
    pub pos: SrcPos,
    pub message: Seq<char>,
    pub severity: Severity,
    pub related: Option<(SrcPos, Seq<char>)>,
}

impl View for Message {
    type V = MessageView;

    open spec fn view(&self) -> MessageView {
        MessageView {
            pos: self.pos,
            message: self.message@,
            severity: self.severity,
            related: match self.related {
                Some((pos, note)) => Some((pos, note@)),
                None => None,
            },
        }
    }
}

impl Clone for Message {
    fn clone(&self) -> (res: Self)
        ensures
            res@ == self@,
    {
        Message {
            pos: self.pos,
            message: self.message.clone(),
            severity: self.severity,
            related: match &self.related {
                Some((pos, note)) => Some((*pos, note.clone())),
                None => None,
            },
        }
    }
}

/// The views of a list of messages, in order.
pub open spec fn message_views(messages: Seq<Message>) -> Seq<MessageView> {
    Seq::new(messages.len(), |i: int| messages[i]@)
}

/// The views of a list with one more message are the views of the list
/// with the view of that message at the end.
pub proof fn lemma_message_views_push(messages: Seq<Message>, msg: Message)
    ensures
        message_views(messages.push(msg)) == message_views(messages).push(msg@),
{
    assert(message_views(messages.push(msg)) =~= message_views(messages).push(msg@));
}

impl Message {
    pub fn new(pos: &SrcPos, message: String, severity: Severity) -> (msg: Message)
        ensures
            msg@ == (MessageView { pos: *pos, message: message@, severity, related: None }),
    {
        Message { pos: *pos, message, severity, related: None }
    }

    pub fn error(pos: &SrcPos, message: &str) -> (msg: Message)
        ensures
            msg@ == (MessageView {
                pos: *pos,
                message: message@,
                severity: Severity::Error,
                related: None,
            }),
    {
        Message::new(pos, String::from_str(message), Severity::Error)
    }

    pub fn hint(pos: &SrcPos, message: &str) -> (msg: Message)
        ensures
            msg@ == (MessageView {
                pos: *pos,
                message: message@,
                severity: Severity::Hint,
                related: None,
            }),
    {
        Message::new(pos, String::from_str(message), Severity::Hint)
    }

    /// The same message, pointing at a second place as well.
    pub fn related(self, pos: &SrcPos, note: &str) -> (msg: Message)
        ensures
            msg@ == (MessageView { related: Some((*pos, note@)), ..self@ }),
    {
        Message {
            pos: self.pos,
            message: self.message,
            severity: self.severity,
            related: Some((*pos, String::from_str(note))),
        }
    }
}

} // verus!
