//! One streaming chat call: the transitions a caller drives it through
//! and the events it must hand to the UI layer at each step. Whatever
//! path the call takes, the events of one call are tokens followed by
//! exactly one terminal event.
//!
//! The caller performs the HTTP work and reports what happened: the
//! send failed, a status and then body chunks arrived, the stream
//! ended, or reading it failed. Each report hands back the events to
//! emit for it.
use crate::event::ChatEvent;
use crate::event::EventSpec;
use crate::event::is_terminal;
use crate::event::lemma_tokens_then_terminal;
use crate::event::terminal_once;
use crate::event::tokens_then_terminal;
use crate::event::views_of;
use crate::sse::StreamParser;
use crate::sse::lemma_lines_events_shape;
use crate::sse::stream_done;
use crate::sse::stream_events;
use crate::text::dec_str;
use crate::text::decimal_string;
use vstd::prelude::*;
use vstd::string::StringExecFns;

verus! {

/// HTTP statuses counted as success.
pub open spec fn is_success_status(status: int) -> bool {
    200 <= status < 300
}

/// The message of the error event for a failed HTTP response: the
/// numeric status and the body text.
pub open spec fn http_error_text(status: int, body: Seq<char>) -> Seq<char> {
    "HTTP "@ + dec_str(status) + ": "@ + body
}

/// Builds the error message for a failed HTTP response.
pub fn http_error_message(status: u16, body: &str) -> (r: String)
    ensures
        r@ == http_error_text(status as int, body@),
{
    let mut out = String::from_str("HTTP ");
    let digits = decimal_string(status as u64);
    out.append(digits.as_str());
    out.append(": ");
    out.append(body);
    proof {
        assert(out@ =~= http_error_text(status as int, body@));
    }
    out
}

/// Where one chat call stands.
pub enum RelayPhase {
    /// The request has not been answered yet.
    Fresh,
    /// A success status arrived; body chunks are being consumed.
    Streaming,
    /// The terminal event has been emitted; the call is over.
    Finished,
}

/// One chat call. `log` records, in ghost state, every event the call
/// has handed back for emission, in order.
pub struct ChatRelay {
    pub phase: RelayPhase,
    pub parser: StreamParser,
    pub log: Ghost<Seq<EventSpec>>,
}

impl ChatRelay {
    pub open spec fn wf(self) -> bool {
        match self.phase {
            RelayPhase::Fresh => self.log@.len() == 0,
            RelayPhase::Streaming => {
                &&& self.parser.wf()
                &&& !stream_done(self.parser.consumed@)
                &&& self.log@ == self.parser.emitted@
            },
            RelayPhase::Finished => {
                &&& self.log@.len() >= 1
                &&& is_terminal(self.log@.last())
                &&& tokens_then_terminal(self.log@)
            },
        }
    }

    pub fn new() -> (r: Self)
        ensures
            r.wf(),
            r.phase is Fresh,
            r.log@ == Seq::<EventSpec>::empty(),
    {
        ChatRelay { phase: RelayPhase::Fresh, parser: StreamParser::new(), log: Ghost(Seq::empty()) }
    }

    /// Whether the call has emitted its terminal event.
    pub fn is_finished(&self) -> (r: bool)
        ensures
            r == (self.phase is Finished),
    {
        match self.phase {
            RelayPhase::Finished => true,
            _ => false,
        }
    }

    /// The request itself could not be sent: the one event of the call
    /// is an error carrying the failure description.
    pub fn on_send_failure(&mut self, message: String) -> (events: Vec<ChatEvent>)
        requires
            old(self).wf(),
            old(self).phase is Fresh,
        ensures
            final(self).wf(),
            final(self).phase is Finished,
            final(self).log@ == seq![EventSpec::Error(message@)],
            views_of(events@) == final(self).log@,
    {
        let ghost msg = message@;
        let mut events: Vec<ChatEvent> = Vec::new();
        events.push(ChatEvent::Error(message));
        proof {
            assert(views_of(events@) =~= seq![EventSpec::Error(msg)]);
        }
        self.phase = RelayPhase::Finished;
        let ghost new_log = seq![EventSpec::Error(msg)];
        self.log = Ghost(new_log);
        events
    }

    /// The response status arrived. On success the call starts
    /// streaming and nothing is emitted yet; otherwise the one event
    /// of the call is an error carrying the numeric status and the
    /// (best-effort) body text.
    pub fn on_status(&mut self, status: u16, body: &str) -> (events: Vec<ChatEvent>)
        requires
            old(self).wf(),
            old(self).phase is Fresh,
        ensures
            final(self).wf(),
            is_success_status(status as int) ==> {
                &&& final(self).phase is Streaming
                &&& final(self).log@ == Seq::<EventSpec>::empty()
                &&& events@.len() == 0
                &&& final(self).parser.consumed@ == Seq::<u8>::empty()
            },
            !is_success_status(status as int) ==> {
                &&& final(self).phase is Finished
                &&& final(self).log@ == seq![
                    EventSpec::Error(http_error_text(status as int, body@)),
                ]
                &&& views_of(events@) == final(self).log@
            },
    {
        if 200 <= status && status < 300 {
            self.phase = RelayPhase::Streaming;
            self.parser = StreamParser::new();
            proof {
                assert(crate::sse::complete_lines(Seq::<u8>::empty()) =~= Seq::<Seq<u8>>::empty());
                assert(!crate::sse::lines_done(Seq::<Seq<u8>>::empty()));
                assert(self.log@ =~= Seq::<EventSpec>::empty());
            }
            Vec::new()
        } else {
            let message = http_error_message(status, body);
            let ghost msg = message@;
            let mut events: Vec<ChatEvent> = Vec::new();
            events.push(ChatEvent::Error(message));
            proof {
                assert(views_of(events@) =~= seq![EventSpec::Error(msg)]);
            }
            self.phase = RelayPhase::Finished;
            let ghost new_log = seq![EventSpec::Error(msg)];
            self.log = Ghost(new_log);
            events
        }
    }

    /// One chunk of the response body arrived: hands back the events
    /// it completes. If the chunk completes the terminal sentinel, the
    /// last of them is `Done` and the call is over.
    pub fn on_chunk(&mut self, chunk: &[u8]) -> (events: Vec<ChatEvent>)
        requires
            old(self).wf(),
            old(self).phase is Streaming,
        ensures
            final(self).wf(),
            final(self).parser.consumed@ == old(self).parser.consumed@ + chunk@,
            final(self).log@ == old(self).log@ + views_of(events@),
            final(self).log@ == stream_events(final(self).parser.consumed@),
            final(self).phase is Finished <==> stream_done(final(self).parser.consumed@),
            final(self).phase is Finished || final(self).phase is Streaming,
    {
        let events = self.parser.feed(chunk);
        self.log = Ghost(self.log@ + views_of(events@));
        if self.parser.is_finished() {
            self.phase = RelayPhase::Finished;
            proof {
                lemma_lines_events_shape(crate::sse::complete_lines(self.parser.consumed@));
            }
        }
        events
    }

    /// The body ended without the terminal sentinel: emit `Done` as
    /// the fallback terminal event.
    pub fn on_stream_end(&mut self) -> (events: Vec<ChatEvent>)
        requires
            old(self).wf(),
            old(self).phase is Streaming,
        ensures
            final(self).wf(),
            final(self).phase is Finished,
            final(self).log@ == old(self).log@ + seq![EventSpec::Done],
            views_of(events@) == seq![EventSpec::Done],
    {
        let mut events: Vec<ChatEvent> = Vec::new();
        events.push(ChatEvent::Done);
        proof {
            assert(views_of(events@) =~= seq![EventSpec::Done]);
            lemma_lines_events_shape(crate::sse::complete_lines(self.parser.consumed@));
            assert(tokens_then_terminal(self.log@ + seq![EventSpec::Done]));
        }
        self.phase = RelayPhase::Finished;
        let ghost new_log = self.log@ + seq![EventSpec::Done];
        self.log = Ghost(new_log);
        events
    }

    /// Reading the body failed mid-stream: emit one error event; the
    /// tokens already emitted stand.
    pub fn on_stream_error(&mut self, message: String) -> (events: Vec<ChatEvent>)
        requires
            old(self).wf(),
            old(self).phase is Streaming,
        ensures
            final(self).wf(),
            final(self).phase is Finished,
            final(self).log@ == old(self).log@ + seq![EventSpec::Error(message@)],
            views_of(events@) == seq![EventSpec::Error(message@)],
    {
        let ghost msg = message@;
        let mut events: Vec<ChatEvent> = Vec::new();
        events.push(ChatEvent::Error(message));
        proof {
            assert(views_of(events@) =~= seq![EventSpec::Error(msg)]);
            lemma_lines_events_shape(crate::sse::complete_lines(self.parser.consumed@));
            assert(tokens_then_terminal(self.log@ + seq![EventSpec::Error(msg)]));
        }
        self.phase = RelayPhase::Finished;
        let ghost new_log = self.log@ + seq![EventSpec::Error(msg)];
        self.log = Ghost(new_log);
        events
    }
}

/// The events of one chat call contain at most one terminal event and
/// it stands last; a finished call has emitted exactly one, and a call
/// still under way has emitted tokens only.
pub proof fn lemma_terminal_exactly_once(r: ChatRelay)
    requires
        r.wf(),
    ensures
        terminal_once(r.log@),
        r.phase is Finished ==> r.log@.len() >= 1 && is_terminal(r.log@.last()),
        !(r.phase is Finished) ==> forall|i: int|
            0 <= i < r.log@.len() ==> #[trigger] r.log@[i] is Token,
{
    match r.phase {
        RelayPhase::Fresh => {},
        RelayPhase::Streaming => {
            lemma_lines_events_shape(crate::sse::complete_lines(r.parser.consumed@));
        },
        RelayPhase::Finished => {
            lemma_tokens_then_terminal(r.log@);
        },
    }
}

} // verus!
