//! The envelope that flows through a queue, and the topic filter of a channel.

use vstd::prelude::*;
use crate::ident::{format_uuid, uuid_text};

verus! {

/// One message unit. It is made at push time and never changed.
#[derive(Clone, Debug)]
pub struct Message {
    /// The envelope's own identifier, as UUID text.
    pub id: String,
    /// The payload.
    pub content: Vec<u8>,
    /// The topic; it may be empty.
    pub topic: String,
}

/// A `Message` as plain values.
pub struct MessageView {
    pub id: Seq<char>,
    pub content: Seq<u8>,
    pub topic: Seq<char>,
}

impl View for Message {
    type V = MessageView;

    open spec fn view(&self) -> MessageView {
        MessageView { id: self.id@, content: self.content@, topic: self.topic@ }
    }
}

/// A channel's topic filter as plain values: `None` lets every topic through.
pub open spec fn filter_view(filter: Option<String>) -> Option<Seq<char>> {
    match filter {
        Some(topic) => Some(topic@),
        None => None,
    }
}

/// Whether a channel with the filter `filter` takes an envelope with the
/// topic `topic`: a filter takes its own topic only, no filter takes all.
pub open spec fn admits(filter: Option<Seq<char>>, topic: Seq<char>) -> bool {
    match filter {
        Some(wanted) => wanted == topic,
        None => true,
    }
}

/// Compares two texts with `==` of `str`: true exactly when they hold the
/// same characters.
#[verifier::external_body]
pub(crate) fn same_text(left: &str, right: &str) -> (same: bool)
    ensures
        same == (left@ == right@),
{
    left == right
}

impl Message {
    /// The envelope with the identifier `id` written as text.
    pub fn stamped(id: u128, content: Vec<u8>, topic: String) -> (message: Message)
        ensures
            message@ == (MessageView { id: uuid_text(id), content: content@, topic: topic@ }),
    {
        Message { id: format_uuid(id), content, topic }
    }
}

/// Whether a channel with the filter `filter` takes `message`.
pub fn passes(filter: &Option<String>, message: &Message) -> (taken: bool)
    ensures
        taken == admits(filter_view(*filter), message.topic@),
{
    match filter {
        Some(wanted) => *wanted == message.topic,
        None => true,
    }
}

/// The filter that a topic on the wire stands for: the empty topic asks for
/// every envelope.
pub fn filter_of(topic: String) -> (filter: Option<String>)
    ensures
        filter_view(filter) == if topic@.len() == 0 {
            None
        } else {
            Some(topic@)
        },
{
    if topic.as_str().is_empty() {
        None
    } else {
        Some(topic)
    }
}

/// A channel without a topic takes every envelope.
pub proof fn law_no_filter_admits_all(topic: Seq<char>)
    ensures
        admits(None, topic),
{
}

/// A channel with a topic takes exactly the envelopes of that topic.
pub proof fn law_filter_admits_own_topic_only(wanted: Seq<char>, topic: Seq<char>)
    ensures
        admits(Some(wanted), topic) <==> topic == wanted,
{
}

} // verus!
