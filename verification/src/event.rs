//! The events that reach the main window.

use vstd::prelude::*;

use crate::text;

verus! {

/// One message of a conversation.
#[derive(Clone, Debug, PartialEq, Eq)]
pub struct HistoryMessage {
    pub role: String,
    pub text: String,
}

/// What a `HistoryMessage` stands for.
#[verifier::ext_equal]
pub struct HistoryMessageView {
    pub role: Seq<char>,
    pub text: Seq<char>,
}

impl View for HistoryMessage {
    type V = HistoryMessageView;

    open spec fn view(&self) -> HistoryMessageView {
        HistoryMessageView { role: self.role@, text: self.text@ }
    }
}

/// Something that happened in the web page or to a command.
#[derive(Clone, Debug, PartialEq, Eq)]
pub struct StreamEvent {
    pub kind: String,
    pub text: Option<String>,
    pub conversation_id: Option<String>,
    pub title: Option<String>,
    pub error: Option<String>,
    pub messages: Option<Vec<HistoryMessage>>,
}

/// What a `StreamEvent` stands for.
#[verifier::ext_equal]
pub struct StreamEventView {
    pub kind: Seq<char>,
    pub text: Option<Seq<char>>,
    pub conversation_id: Option<Seq<char>>,
    pub title: Option<Seq<char>>,
    pub error: Option<Seq<char>>,
    pub messages: Option<Seq<HistoryMessageView>>,
}

/// What an optional list of messages stands for.
pub open spec fn messages_view(messages: Option<Vec<HistoryMessage>>) -> Option<
    Seq<HistoryMessageView>,
> {
    match messages {
        Some(list) => Some(list@.map_values(|message: HistoryMessage| message@)),
        None => None,
    }
}

impl View for StreamEvent {
    type V = StreamEventView;

    open spec fn view(&self) -> StreamEventView {
        StreamEventView {
            kind: self.kind@,
            text: text::option_view(self.text),
            conversation_id: text::option_view(self.conversation_id),
            title: text::option_view(self.title),
            error: text::option_view(self.error),
            messages: messages_view(self.messages),
        }
    }
}

impl StreamEventView {
    /// An event of which only the kind is given.
    pub open spec fn of_kind(kind: Seq<char>) -> Self {
        StreamEventView {
            kind,
            text: None,
            conversation_id: None,
            title: None,
            error: None,
            messages: None,
        }
    }

    /// The event for an error.
    pub open spec fn failure(error: Seq<char>) -> Self {
        StreamEventView { error: Some(error), ..StreamEventView::of_kind("error"@) }
    }
}

impl StreamEvent {
    /// An event of which only the kind is given.
    pub fn of_kind(kind: &str) -> (event: StreamEvent)
        ensures
            event@ == StreamEventView::of_kind(kind@),
    {
        StreamEvent {
            kind: kind.to_string(),
            text: None,
            conversation_id: None,
            title: None,
            error: None,
            messages: None,
        }
    }

    /// The event for an error.
    pub fn failure(error: String) -> (event: StreamEvent)
        ensures
            event@ == StreamEventView::failure(error@),
    {
        let mut event = StreamEvent::of_kind("error");
        event.error = Some(error);
        event
    }
}

/// The event for an error carries the words for it and nothing else; one of which only the
/// kind is given carries that.
pub proof fn events_carry_what_they_are_for(kind: Seq<char>, error: Seq<char>)
    ensures
        StreamEventView::failure(error) == (StreamEventView {
            kind: "error"@,
            text: None,
            conversation_id: None,
            title: None,
            error: Some(error),
            messages: None,
        }),
        StreamEventView::of_kind(kind) == (StreamEventView {
            kind,
            text: None,
            conversation_id: None,
            title: None,
            error: None,
            messages: None,
        }),
{
}

/// An event stands for its texts and its messages, in their order, and leaves none out.
pub proof fn event_stands_for_its_fields(event: StreamEvent)
    ensures
        event@.kind == event.kind@,
        event@.text is Some <==> event.text is Some,
        event.text is Some ==> event@.text->0 == event.text->0@,
        event@.conversation_id is Some <==> event.conversation_id is Some,
        event.conversation_id is Some ==> event@.conversation_id->0 == event.conversation_id->0@,
        event@.title is Some <==> event.title is Some,
        event.title is Some ==> event@.title->0 == event.title->0@,
        event@.error is Some <==> event.error is Some,
        event.error is Some ==> event@.error->0 == event.error->0@,
        event@.messages is Some <==> event.messages is Some,
        event.messages is Some ==> event@.messages->0.len() == event.messages->0@.len()
            && forall|i: int|
            0 <= i < event.messages->0@.len() ==> (#[trigger] event@.messages->0[i]).role
                == event.messages->0@[i].role@ && event@.messages->0[i].text
                == event.messages->0@[i].text@,
{
}

} // verus!
