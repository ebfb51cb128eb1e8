//! The line discipline of the streamed chat response body, stated over
//! raw bytes so that it is independent of how the transport splits the
//! stream into chunks.
//!
//! The body is a sequence of lines separated by `'\n'` (an optional
//! `'\r'` before the separator is dropped). A line whose body starts
//! with the payload prefix `"data: "` carries either the terminal
//! sentinel `"[DONE]"` (surrounded by optional whitespace), which ends
//! the whole stream, or a JSON object whose `"response"` field is the
//! next token. Every other line is skipped silently.
use crate::event::ChatEvent;
use crate::event::EventSpec;
use crate::event::views_of;
use vstd::prelude::*;

verus! {

/// Index of the first `'\n'` in `b`, or `b.len()` if there is none.
pub open spec fn first_nl(b: Seq<u8>) -> nat
    decreases b.len(),
{
    if b.len() == 0 {
        0
    } else if b[0] == 10u8 {
        0
    } else {
        1 + first_nl(b.drop_first())
    }
}

/// The complete (newline-terminated) lines of `b`, in order, without
/// their separators.
pub open spec fn complete_lines(b: Seq<u8>) -> Seq<Seq<u8>>
    decreases b.len(),
{
    let i = first_nl(b);
    if i >= b.len() {
        Seq::empty()
    } else {
        seq![b.subrange(0, i as int)] + complete_lines(b.subrange(i as int + 1, b.len() as int))
    }
}

/// The bytes of `b` after its last `'\n'`: the carry-over that only a
/// later chunk can complete.
pub open spec fn residue(b: Seq<u8>) -> Seq<u8>
    decreases b.len(),
{
    let i = first_nl(b);
    if i >= b.len() {
        b
    } else {
        residue(b.subrange(i as int + 1, b.len() as int))
    }
}

/// A line body: the line without one trailing `'\r'`, if any.
pub open spec fn line_body(l: Seq<u8>) -> Seq<u8> {
    if l.len() > 0 && l.last() == 13u8 {
        l.drop_last()
    } else {
        l
    }
}

/// The bytes of `"data: "`, the prefix of a payload line.
pub open spec fn data_prefix() -> Seq<u8> {
    seq![100u8, 97u8, 116u8, 97u8, 58u8, 32u8]
}

/// The bytes of `"[DONE]"`, the terminal sentinel.
pub open spec fn done_marker() -> Seq<u8> {
    seq![91u8, 68u8, 79u8, 78u8, 69u8, 93u8]
}

pub open spec fn has_data_prefix(l: Seq<u8>) -> bool {
    l.len() >= 6 && l.subrange(0, 6) == data_prefix()
}

/// What follows the payload prefix.
pub open spec fn payload_of(l: Seq<u8>) -> Seq<u8>
    recommends
        has_data_prefix(l),
{
    l.subrange(6, l.len() as int)
}

/// ASCII whitespace, as far as the sentinel comparison trims it.
pub open spec fn is_ws(b: u8) -> bool {
    b == 32u8 || b == 9u8 || b == 13u8 || b == 10u8
}

pub open spec fn trim_front(s: Seq<u8>) -> Seq<u8>
    decreases s.len(),
{
    if s.len() > 0 && is_ws(s[0]) {
        trim_front(s.drop_first())
    } else {
        s
    }
}

pub open spec fn trim_back(s: Seq<u8>) -> Seq<u8>
    decreases s.len(),
{
    if s.len() > 0 && is_ws(s.last()) {
        trim_back(s.drop_last())
    } else {
        s
    }
}

/// `s` without leading and trailing whitespace.
pub open spec fn trimmed(s: Seq<u8>) -> Seq<u8> {
    trim_back(trim_front(s))
}

/// The `"response"` string field of the payload parsed as JSON, if the
/// payload is a JSON value with one. Named, not written out: the JSON
/// grammar belongs to the parser this crate calls.
pub uninterp spec fn response_field_of(payload: Seq<u8>) -> Option<Seq<char>>;

/// A payload line whose payload, trimmed, is the terminal sentinel.
pub open spec fn is_done_line(l: Seq<u8>) -> bool {
    has_data_prefix(line_body(l)) && trimmed(payload_of(line_body(l))) == done_marker()
}

/// The token a line contributes: the `"response"` field of a payload
/// line that is not the sentinel; nothing otherwise.
pub open spec fn line_token(l: Seq<u8>) -> Option<Seq<char>> {
    if has_data_prefix(line_body(l)) && !is_done_line(l) {
        response_field_of(payload_of(line_body(l)))
    } else {
        None
    }
}

pub open spec fn line_events(l: Seq<u8>) -> Seq<EventSpec> {
    match line_token(l) {
        Some(t) => seq![EventSpec::Token(t)],
        None => Seq::empty(),
    }
}

/// The events of a sequence of lines: tokens in line order, cut short
/// by the first sentinel line, which contributes the final `Done`.
pub open spec fn lines_events(ls: Seq<Seq<u8>>) -> Seq<EventSpec>
    decreases ls.len(),
{
    if ls.len() == 0 {
        Seq::empty()
    } else if is_done_line(ls[0]) {
        seq![EventSpec::Done]
    } else {
        line_events(ls[0]) + lines_events(ls.drop_first())
    }
}

/// Whether a sentinel line occurs among the lines.
pub open spec fn lines_done(ls: Seq<Seq<u8>>) -> bool
    decreases ls.len(),
{
    if ls.len() == 0 {
        false
    } else if is_done_line(ls[0]) {
        true
    } else {
        lines_done(ls.drop_first())
    }
}

/// The events determined by the bytes received so far.
pub open spec fn stream_events(b: Seq<u8>) -> Seq<EventSpec> {
    lines_events(complete_lines(b))
}

/// Whether the bytes received so far contain the terminal sentinel.
pub open spec fn stream_done(b: Seq<u8>) -> bool {
    lines_done(complete_lines(b))
}

proof fn lemma_first_nl_spec(b: Seq<u8>)
    ensures
        first_nl(b) <= b.len(),
        first_nl(b) < b.len() ==> b[first_nl(b) as int] == 10u8,
        forall|i: int| 0 <= i < first_nl(b) ==> b[i] != 10u8,
    decreases b.len(),
{
    if b.len() > 0 && b[0] != 10u8 {
        lemma_first_nl_spec(b.drop_first());
        assert forall|i: int| 0 <= i < first_nl(b) implies b[i] != 10u8 by {
            if i > 0 {
                assert(b.drop_first()[i - 1] != 10u8);
            }
        }
    }
}

proof fn lemma_first_nl_of(b: Seq<u8>, j: int)
    requires
        0 <= j <= b.len(),
        forall|i: int| 0 <= i < j ==> b[i] != 10u8,
        j < b.len() ==> b[j] == 10u8,
    ensures
        first_nl(b) == j,
    decreases b.len(),
{
    if j == 0 {
    } else {
        assert(b[0] != 10u8);
        assert forall|i: int| 0 <= i < j - 1 implies b.drop_first()[i] != 10u8 by {
            assert(b[i + 1] != 10u8);
        }
        lemma_first_nl_of(b.drop_first(), j - 1);
    }
}

proof fn lemma_first_nl_prefix(a: Seq<u8>, c: Seq<u8>)
    requires
        first_nl(a) < a.len(),
    ensures
        first_nl(a + c) == first_nl(a),
{
    lemma_first_nl_spec(a);
    let j = first_nl(a) as int;
    assert forall|i: int| 0 <= i < j implies (a + c)[i] != 10u8 by {
        assert(a[i] != 10u8);
    }
    assert((a + c)[j] == a[j]);
    lemma_first_nl_of(a + c, j);
}

/// Feeding further bytes extends the line structure: the complete
/// lines of `a + c` are those of `a` followed by those of the residue
/// of `a` continued by `c`, and the residues agree.
proof fn lemma_split_extend(a: Seq<u8>, c: Seq<u8>)
    ensures
        complete_lines(a + c) == complete_lines(a) + complete_lines(residue(a) + c),
        residue(a + c) == residue(residue(a) + c),
    decreases a.len(),
{
    lemma_first_nl_spec(a);
    let i = first_nl(a);
    if i >= a.len() {
        assert(residue(a) == a);
        assert(complete_lines(a) =~= Seq::<Seq<u8>>::empty());
        assert(complete_lines(a) + complete_lines(a + c) =~= complete_lines(a + c));
    } else {
        lemma_first_nl_prefix(a, c);
        let rest = a.subrange(i as int + 1, a.len() as int);
        assert((a + c).subrange(0, i as int) =~= a.subrange(0, i as int));
        assert((a + c).subrange(i as int + 1, (a + c).len() as int) =~= rest + c);
        lemma_split_extend(rest, c);
        assert(complete_lines(a + c) =~= complete_lines(a) + complete_lines(residue(a) + c));
    }
}

/// Events distribute over lines as long as the first group holds no
/// sentinel line.
proof fn lemma_lines_events_append(l1: Seq<Seq<u8>>, l2: Seq<Seq<u8>>)
    requires
        !lines_done(l1),
    ensures
        lines_events(l1 + l2) == lines_events(l1) + lines_events(l2),
        lines_done(l1 + l2) == lines_done(l2),
    decreases l1.len(),
{
    if l1.len() == 0 {
        assert(l1 + l2 =~= l2);
        assert(lines_events(l1) + lines_events(l2) =~= lines_events(l2));
    } else {
        assert((l1 + l2)[0] == l1[0]);
        assert((l1 + l2).drop_first() =~= l1.drop_first() + l2);
        lemma_lines_events_append(l1.drop_first(), l2);
        assert(lines_events(l1 + l2) =~= lines_events(l1) + lines_events(l2));
    }
}

/// Once a sentinel line has occurred, later lines contribute nothing.
proof fn lemma_lines_done_absorbs(l1: Seq<Seq<u8>>, l2: Seq<Seq<u8>>)
    requires
        lines_done(l1),
    ensures
        lines_events(l1 + l2) == lines_events(l1),
        lines_done(l1 + l2),
    decreases l1.len(),
{
    assert(l1.len() > 0);
    assert((l1 + l2)[0] == l1[0]);
    if is_done_line(l1[0]) {
    } else {
        assert((l1 + l2).drop_first() =~= l1.drop_first() + l2);
        lemma_lines_done_absorbs(l1.drop_first(), l2);
    }
}

/// Shape of the event sequence: tokens throughout while no sentinel
/// line has occurred; tokens followed by one final `Done` otherwise.
pub(crate) proof fn lemma_lines_events_shape(ls: Seq<Seq<u8>>)
    ensures
        !lines_done(ls) ==> forall|i: int|
            0 <= i < lines_events(ls).len() ==> #[trigger] lines_events(ls)[i] is Token,
        lines_done(ls) ==> {
            &&& lines_events(ls).len() >= 1
            &&& lines_events(ls).last() == EventSpec::Done
            &&& forall|i: int|
                0 <= i < lines_events(ls).len() - 1 ==> #[trigger] lines_events(ls)[i] is Token
        },
    decreases ls.len(),
{
    if ls.len() == 0 {
    } else if is_done_line(ls[0]) {
    } else {
        lemma_lines_events_shape(ls.drop_first());
        let head = line_events(ls[0]);
        let tail = lines_events(ls.drop_first());
        assert(forall|i: int| 0 <= i < head.len() ==> #[trigger] head[i] is Token);
        if lines_done(ls.drop_first()) {
            assert(lines_events(ls).last() == tail.last());
        }
    }
}

/// Detecting the terminal sentinel discards everything after it: later
/// bytes change neither the events nor the terminal state.
pub proof fn lemma_sentinel_discards_rest(b: Seq<u8>, extra: Seq<u8>)
    requires
        stream_done(b),
    ensures
        stream_events(b + extra) == stream_events(b),
        stream_done(b + extra),
{
    lemma_split_extend(b, extra);
    lemma_lines_done_absorbs(complete_lines(b), complete_lines(residue(b) + extra));
}

/// Relies on serde_json::from_slice and Value::get / Value::as_str:
/// parses the payload as JSON and hands back its `"response"` string
/// field, if the payload is a JSON value carrying one. The result is a
/// function of the payload bytes alone.
#[verifier::external_body]
fn extract_response_field(payload: &[u8]) -> (r: Option<String>)
    ensures
        (r is Some) == (response_field_of(payload@) is Some),
        r matches Some(s) ==> response_field_of(payload@) == Some(s@),
{
    let value: serde_json::Value = match serde_json::from_slice(payload) {
        Ok(v) => v,
        Err(_) => return None,
    };
    match value.get("response") {
        Some(field) => field.as_str().map(str::to_string),
        None => None,
    }
}

fn find_newline(buf: &Vec<u8>) -> (r: Option<usize>)
    ensures
        match r {
            Some(j) => j < buf@.len() && j == first_nl(buf@),
            None => first_nl(buf@) == buf@.len(),
        },
{
    let mut i: usize = 0;
    while i < buf.len()
        invariant
            i <= buf@.len(),
            forall|k: int| 0 <= k < i ==> buf@[k] != 10u8,
        decreases buf@.len() - i,
    {
        if buf[i] == 10u8 {
            proof {
                lemma_first_nl_of(buf@, i as int);
            }
            return Some(i);
        }
        i = i + 1;
    }
    proof {
        lemma_first_nl_of(buf@, buf@.len() as int);
    }
    None
}

fn is_ws_byte(b: u8) -> (r: bool)
    ensures
        r == is_ws(b),
{
    b == 32u8 || b == 9u8 || b == 13u8 || b == 10u8
}

/// The bounds of `s` without leading and trailing whitespace.
fn trim_indices(s: &[u8]) -> (r: (usize, usize))
    ensures
        r.0 <= r.1 <= s@.len(),
        trimmed(s@) == s@.subrange(r.0 as int, r.1 as int),
{
    let n = s.len();
    let mut lo: usize = 0;
    proof {
        assert(s@.subrange(0, n as int) =~= s@);
    }
    while lo < n && is_ws_byte(s[lo])
        invariant
            lo <= n,
            n == s@.len(),
            trim_front(s@) == trim_front(s@.subrange(lo as int, n as int)),
        decreases n - lo,
    {
        proof {
            assert(s@.subrange(lo as int, n as int).drop_first() =~= s@.subrange(
                lo as int + 1,
                n as int,
            ));
        }
        lo = lo + 1;
    }
    proof {
        assert(trim_front(s@) == s@.subrange(lo as int, n as int));
    }
    let mut hi: usize = n;
    while hi > lo && is_ws_byte(s[hi - 1])
        invariant
            lo <= hi <= n,
            n == s@.len(),
            trim_front(s@) == s@.subrange(lo as int, n as int),
            trim_back(s@.subrange(lo as int, n as int)) == trim_back(
                s@.subrange(lo as int, hi as int),
            ),
        decreases hi,
    {
        proof {
            assert(s@.subrange(lo as int, hi as int).drop_last() =~= s@.subrange(
                lo as int,
                hi as int - 1,
            ));
        }
        hi = hi - 1;
    }
    proof {
        assert(trim_back(s@.subrange(lo as int, hi as int)) == s@.subrange(lo as int, hi as int));
    }
    (lo, hi)
}

/// Whether the payload, trimmed, is exactly the terminal sentinel.
fn is_done_payload(p: &[u8]) -> (r: bool)
    ensures
        r == (trimmed(p@) == done_marker()),
{
    let (lo, hi) = trim_indices(p);
    if hi - lo != 6 {
        proof {
            assert(trimmed(p@).len() != done_marker().len());
        }
        return false;
    }
    let eq = p[lo] == 91u8 && p[lo + 1] == 68u8 && p[lo + 2] == 79u8 && p[lo + 3] == 78u8 && p[lo
        + 4] == 69u8 && p[lo + 5] == 93u8;
    proof {
        if eq {
            assert(p@.subrange(lo as int, hi as int) =~= done_marker());
        } else {
            assert(p@.subrange(lo as int, hi as int) != done_marker());
        }
    }
    eq
}

/// What one complete line contributes.
enum LineOutcome {
    /// The line carries the terminal sentinel.
    Finished,
    /// The line carries a token.
    Token(String),
    /// The line is skipped silently.
    Skip,
}

fn process_line(line: &Vec<u8>) -> (r: LineOutcome)
    ensures
        (r is Finished) == is_done_line(line@),
        (r is Token) == (line_token(line@) is Some),
        r matches LineOutcome::Token(s) ==> line_token(line@) == Some(s@),
{
    let n = line.len();
    let end: usize = if n > 0 && line[n - 1] == 13u8 {
        n - 1
    } else {
        n
    };
    proof {
        assert(line_body(line@) =~= line@.subrange(0, end as int));
    }
    if end < 6 {
        proof {
            assert(!has_data_prefix(line_body(line@)));
        }
        return LineOutcome::Skip;
    }
    let prefixed = line[0] == 100u8 && line[1] == 97u8 && line[2] == 116u8 && line[3] == 97u8
        && line[4] == 58u8 && line[5] == 32u8;
    if !prefixed {
        proof {
            assert(line_body(line@).subrange(0, 6) != data_prefix());
        }
        return LineOutcome::Skip;
    }
    proof {
        assert(line_body(line@).subrange(0, 6) =~= data_prefix());
    }
    let sl: &[u8] = line.as_slice();
    let payload: &[u8] = &sl[6..end];
    proof {
        assert(payload@ =~= payload_of(line_body(line@)));
    }
    if is_done_payload(payload) {
        return LineOutcome::Finished;
    }
    match extract_response_field(payload) {
        Some(s) => LineOutcome::Token(s),
        None => LineOutcome::Skip,
    }
}

/// Incremental parser of the streamed response body. Chunks are fed in
/// as they arrive, in whatever fragmentation the transport chose; the
/// parser carries incomplete lines over and hands back the events each
/// chunk completes. `consumed` and `emitted` record, in ghost state,
/// every byte fed and every event handed back.
pub struct StreamParser {
    /// Carry-over: bytes after the last complete line. Callers drive
    /// the parser through `feed` alone.
    pub buf: Vec<u8>,
    /// Whether the terminal sentinel has been seen.
    pub finished: bool,
    pub consumed: Ghost<Seq<u8>>,
    pub emitted: Ghost<Seq<EventSpec>>,
}

impl StreamParser {
    /// The parser's state is exactly what the bytes fed so far
    /// determine: this is what makes the event sequence independent of
    /// chunk boundaries.
    pub open spec fn wf(self) -> bool {
        &&& self.emitted@ == stream_events(self.consumed@)
        &&& self.finished == stream_done(self.consumed@)
        &&& self.buf@ == if self.finished {
            Seq::<u8>::empty()
        } else {
            residue(self.consumed@)
        }
    }

    pub fn new() -> (r: Self)
        ensures
            r.wf(),
            r.consumed@ == Seq::<u8>::empty(),
            r.emitted@ == Seq::<EventSpec>::empty(),
    {
        let r = StreamParser {
            buf: Vec::new(),
            finished: false,
            consumed: Ghost(Seq::empty()),
            emitted: Ghost(Seq::empty()),
        };
        proof {
            assert(complete_lines(Seq::<u8>::empty()) =~= Seq::<Seq<u8>>::empty());
        }
        r
    }

    /// Whether the terminal sentinel has been seen.
    pub fn is_finished(&self) -> (r: bool)
        requires
            self.wf(),
        ensures
            r == stream_done(self.consumed@),
    {
        self.finished
    }

    /// Feeds one chunk and hands back the events it completes: the
    /// events of all bytes fed so far, past those already handed back.
    pub fn feed(&mut self, chunk: &[u8]) -> (events: Vec<ChatEvent>)
        requires
            old(self).wf(),
        ensures
            final(self).wf(),
            final(self).consumed@ == old(self).consumed@ + chunk@,
            final(self).emitted@ == old(self).emitted@ + views_of(events@),
    {
        self.consumed = Ghost(self.consumed@ + chunk@);
        proof {
            lemma_split_extend(old(self).consumed@, chunk@);
        }
        if self.finished {
            proof {
                lemma_lines_done_absorbs(
                    complete_lines(old(self).consumed@),
                    complete_lines(residue(old(self).consumed@) + chunk@),
                );
                assert(views_of(Seq::<ChatEvent>::empty()) =~= Seq::<EventSpec>::empty());
                assert(old(self).emitted@ + views_of(Seq::<ChatEvent>::empty()) =~= old(
                    self,
                ).emitted@);
            }
            return Vec::new();
        }
        let ghost entry_buf = self.buf@;
        let mut i: usize = 0;
        while i < chunk.len()
            invariant
                i <= chunk@.len(),
                self.buf@ == entry_buf + chunk@.subrange(0, i as int),
                self.finished == old(self).finished,
                self.consumed == old(self).consumed@ + chunk@,
                self.emitted == old(self).emitted,
            decreases chunk@.len() - i,
        {
            proof {
                assert(entry_buf + chunk@.subrange(0, i as int + 1) =~= (entry_buf
                    + chunk@.subrange(0, i as int)).push(chunk@[i as int]));
            }
            self.buf.push(chunk[i]);
            i = i + 1;
        }
        proof {
            assert(self.buf@ =~= residue(old(self).consumed@) + chunk@);
            lemma_lines_events_append(
                complete_lines(old(self).consumed@),
                complete_lines(self.buf@),
            );
            assert(views_of(Seq::<ChatEvent>::empty()) =~= Seq::<EventSpec>::empty());
            assert(old(self).emitted@ + views_of(Seq::<ChatEvent>::empty()) =~= old(self).emitted@);
        }
        let mut events: Vec<ChatEvent> = Vec::new();
        loop
            invariant
                !self.finished,
                self.consumed == old(self).consumed@ + chunk@,
                self.emitted == old(self).emitted,
                old(self).emitted@ == stream_events(old(self).consumed@),
                stream_events(self.consumed@) == old(self).emitted@ + views_of(events@)
                    + lines_events(complete_lines(self.buf@)),
                stream_done(self.consumed@) == lines_done(complete_lines(self.buf@)),
                residue(self.consumed@) == residue(self.buf@),
            decreases self.buf@.len(),
        {
            let found = find_newline(&self.buf);
            match found {
                None => {
                    proof {
                        assert(complete_lines(self.buf@) =~= Seq::<Seq<u8>>::empty());
                        assert(lines_events(Seq::<Seq<u8>>::empty()) =~= Seq::<EventSpec>::empty());
                        assert(!lines_done(Seq::<Seq<u8>>::empty()));
                        assert(residue(self.buf@) == self.buf@);
                        assert(old(self).emitted@ + views_of(events@) + Seq::<
                            EventSpec,
                        >::empty() =~= old(self).emitted@ + views_of(events@));
                    }
                    self.emitted = Ghost(old(self).emitted@ + views_of(events@));
                    return events;
                },
                Some(j) => {
                    let ghost prev_buf = self.buf@;
                    let mut line: Vec<u8> = Vec::new();
                    let mut t: usize = 0;
                    while t < j
                        invariant
                            t <= j,
                            j < self.buf@.len(),
                            self.buf@ == prev_buf,
                            line@ == prev_buf.subrange(0, t as int),
                        decreases j - t,
                    {
                        proof {
                            assert(prev_buf.subrange(0, t as int + 1) =~= prev_buf.subrange(
                                0,
                                t as int,
                            ).push(prev_buf[t as int]));
                        }
                        line.push(self.buf[t]);
                        t = t + 1;
                    }
                    let buf_len = self.buf.len();
                    let tail = self.buf.split_off(j + 1);
                    self.buf = tail;
                    proof {
                        assert(complete_lines(prev_buf) == seq![line@] + complete_lines(
                            self.buf@,
                        ));
                        assert(residue(prev_buf) == residue(self.buf@));
                        assert((seq![line@] + complete_lines(self.buf@))[0] == line@);
                        assert((seq![line@] + complete_lines(self.buf@)).drop_first()
                            =~= complete_lines(self.buf@));
                    }
                    match process_line(&line) {
                        LineOutcome::Finished => {
                            proof {
                                assert(lines_events(complete_lines(prev_buf)) =~= seq![
                                    EventSpec::Done,
                                ]);
                                assert(lines_done(complete_lines(prev_buf)));
                            }
                            let ghost before = events@;
                            events.push(ChatEvent::Done);
                            proof {
                                assert(views_of(events@) =~= views_of(before).push(
                                    EventSpec::Done,
                                ));
                                assert(old(self).emitted@ + views_of(before) + seq![
                                    EventSpec::Done,
                                ] =~= old(self).emitted@ + views_of(events@));
                            }
                            self.finished = true;
                            self.buf = Vec::new();
                            self.emitted = Ghost(old(self).emitted@ + views_of(events@));
                            return events;
                        },
                        LineOutcome::Token(s) => {
                            proof {
                                assert(lines_events(complete_lines(prev_buf)) == seq![
                                    EventSpec::Token(s@),
                                ] + lines_events(complete_lines(self.buf@)));
                            }
                            let ghost before = events@;
                            events.push(ChatEvent::Token(s));
                            proof {
                                assert(views_of(events@) =~= views_of(before).push(
                                    EventSpec::Token(s@),
                                ));
                                assert(old(self).emitted@ + views_of(before) + (seq![
                                    EventSpec::Token(s@),
                                ] + lines_events(complete_lines(self.buf@))) =~= old(
                                    self,
                                ).emitted@ + views_of(events@) + lines_events(
                                    complete_lines(self.buf@),
                                ));
                            }
                        },
                        LineOutcome::Skip => {
                            proof {
                                assert(line_events(line@) =~= Seq::<EventSpec>::empty());
                                assert(lines_events(complete_lines(prev_buf)) =~= lines_events(
                                    complete_lines(self.buf@),
                                ));
                            }
                        },
                    }
                },
            }
        }
    }
}

/// Chunk-boundary independence: two parsers that were fed the same
/// bytes, however differently those bytes were cut into chunks, have
/// handed back the same event sequence.
pub proof fn lemma_rechunking_equal(p1: StreamParser, p2: StreamParser)
    requires
        p1.wf(),
        p2.wf(),
        p1.consumed@ == p2.consumed@,
    ensures
        p1.emitted@ == p2.emitted@,
{
}

} // verus!
