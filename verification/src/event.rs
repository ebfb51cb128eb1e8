//! Events of one streaming chat call, and what it means for a sequence
//! of them to be terminated correctly: at most one terminal event
//! (`Done` or `Error`), standing last.
use vstd::prelude::*;

verus! {

/// Mathematical model of one chat event.
pub enum EventSpec {
    Token(Seq<char>),
    Done,
    Error(Seq<char>),
}

/// One event of a streaming chat call, as handed to the UI layer.
#[derive(Debug, Clone, PartialEq, Eq)]
pub enum ChatEvent {
    Token(String),
    Done,
    Error(String),
}

impl View for ChatEvent {
    type V = EventSpec;

    open spec fn view(&self) -> EventSpec {
        match self {
            ChatEvent::Token(s) => EventSpec::Token(s@),
            ChatEvent::Done => EventSpec::Done,
            ChatEvent::Error(s) => EventSpec::Error(s@),
        }
    }
}

/// The views of a sequence of events.
pub open spec fn views_of(s: Seq<ChatEvent>) -> Seq<EventSpec> {
    s.map_values(|e: ChatEvent| e@)
}

/// `Done` and `Error` end a call; `Token` does not.
pub open spec fn is_terminal(e: EventSpec) -> bool {
    !(e is Token)
}

/// Every terminal event of the sequence stands at its last position:
/// there is at most one, and nothing follows it.
pub open spec fn terminal_once(log: Seq<EventSpec>) -> bool {
    forall|i: int| 0 <= i < log.len() && is_terminal(#[trigger] log[i]) ==> i == log.len() - 1
}

/// All events but the last are tokens.
pub open spec fn tokens_then_terminal(log: Seq<EventSpec>) -> bool {
    forall|i: int| 0 <= i < log.len() - 1 ==> #[trigger] log[i] is Token
}

/// A sequence whose every event short of the last is a token has at
/// most one terminal event, and it stands last.
pub proof fn lemma_tokens_then_terminal(log: Seq<EventSpec>)
    requires
        tokens_then_terminal(log),
    ensures
        terminal_once(log),
{
}

} // verus!
