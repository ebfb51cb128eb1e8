//! The memory client's decisions: the effective top-K of a search, and
//! the validation of what the service returns. Search candidates are
//! kept in the order the service returned them; a candidate missing
//! its identifier is dropped, the rest still stand.
use crate::relay::is_success_status;
use crate::text::dec_str;
use crate::text::decimal_string;
use vstd::prelude::*;
use vstd::string::StringExecFns;

verus! {

/// The fixed fallback top-K when neither the caller nor the
/// configuration supplies one.
pub const DEFAULT_TOP_K: u32 = 5;

/// The top-K actually sent: the caller's value, else the configured
/// one, else the fixed fallback.
pub fn effective_top_k(requested: Option<u32>, configured: Option<u32>) -> (r: u32)
    ensures
        r == match requested {
            Some(k) => k,
            None => match configured {
                Some(k) => k,
                None => DEFAULT_TOP_K,
            },
        },
{
    match requested {
        Some(k) => k,
        None => match configured {
            Some(k) => k,
            None => DEFAULT_TOP_K,
        },
    }
}

/// One candidate of the search response, fields as far as the service
/// supplied them. A numeric score is carried as its JSON text: the
/// validation only defaults an absent one and passes the value
/// through.
pub struct MemoryCandidate {
    pub id: Option<String>,
    pub score_text: Option<String>,
    pub text: Option<String>,
}

/// A validated search result.
#[derive(Debug, PartialEq, Eq)]
pub struct MemoryMatch {
    pub id: String,
    pub score_text: String,
    pub text: String,
}

pub struct CandidateView {
    pub id: Option<Seq<char>>,
    pub score_text: Option<Seq<char>>,
    pub text: Option<Seq<char>>,
}

pub struct MatchView {
    pub id: Seq<char>,
    pub score_text: Seq<char>,
    pub text: Seq<char>,
}

impl View for MemoryCandidate {
    type V = CandidateView;

    open spec fn view(&self) -> CandidateView {
        CandidateView {
            id: match self.id {
                Some(s) => Some(s@),
                None => None,
            },
            score_text: match self.score_text {
                Some(s) => Some(s@),
                None => None,
            },
            text: match self.text {
                Some(s) => Some(s@),
                None => None,
            },
        }
    }
}

impl View for MemoryMatch {
    type V = MatchView;

    open spec fn view(&self) -> MatchView {
        MatchView { id: self.id@, score_text: self.score_text@, text: self.text@ }
    }
}

pub open spec fn views_of_candidates(s: Seq<MemoryCandidate>) -> Seq<CandidateView> {
    s.map_values(|c: MemoryCandidate| c@)
}

pub open spec fn views_of_matches(s: Seq<MemoryMatch>) -> Seq<MatchView> {
    s.map_values(|m: MemoryMatch| m@)
}

/// The validated matches of a candidate list: candidates with an
/// identifier, in their given order; an absent score defaults to zero
/// and an absent text to the empty string.
pub open spec fn filter_valid(cs: Seq<CandidateView>) -> Seq<MatchView>
    decreases cs.len(),
{
    if cs.len() == 0 {
        Seq::empty()
    } else {
        let rest = filter_valid(cs.drop_first());
        match cs[0].id {
            Some(id) => seq![
                MatchView {
                    id,
                    score_text: match cs[0].score_text {
                        Some(t) => t,
                        None => "0"@,
                    },
                    text: match cs[0].text {
                        Some(t) => t,
                        None => Seq::empty(),
                    },
                },
            ] + rest,
            None => rest,
        }
    }
}

/// Validates the candidates of one search response.
pub fn filter_matches(candidates: &Vec<MemoryCandidate>) -> (r: Vec<MemoryMatch>)
    ensures
        views_of_matches(r@) == filter_valid(views_of_candidates(candidates@)),
{
    let ghost all = views_of_candidates(candidates@);
    let mut r: Vec<MemoryMatch> = Vec::new();
    let mut i: usize = 0;
    proof {
        assert(all.skip(0) =~= all);
        assert(views_of_matches(r@) + filter_valid(all) =~= filter_valid(all));
    }
    while i < candidates.len()
        invariant
            i <= candidates@.len(),
            all == views_of_candidates(candidates@),
            filter_valid(all) == views_of_matches(r@) + filter_valid(all.skip(i as int)),
        decreases candidates@.len() - i,
    {
        proof {
            assert(all.skip(i as int).drop_first() =~= all.skip(i as int + 1));
            assert(all.skip(i as int)[0] == candidates@[i as int]@);
        }
        let ghost before = r@;
        let c = &candidates[i];
        match &c.id {
            Some(id) => {
                let m = MemoryMatch {
                    id: id.clone(),
                    score_text: match &c.score_text {
                        Some(t) => t.clone(),
                        None => String::from_str("0"),
                    },
                    text: match &c.text {
                        Some(t) => t.clone(),
                        None => String::new(),
                    },
                };
                r.push(m);
                proof {
                    assert(views_of_matches(r@) =~= views_of_matches(before).push(r@.last()@));
                    assert(views_of_matches(before) + (seq![r@.last()@] + filter_valid(
                        all.skip(i as int + 1),
                    )) =~= views_of_matches(r@) + filter_valid(all.skip(i as int + 1)));
                }
            },
            None => {},
        }
        i = i + 1;
    }
    proof {
        assert(all.skip(candidates@.len() as int) =~= Seq::<CandidateView>::empty());
        assert(views_of_matches(r@) + filter_valid(Seq::<CandidateView>::empty())
            =~= views_of_matches(r@));
    }
    r
}

/// The candidate records of a search response body: nothing when the
/// body is not JSON; otherwise the elements of its `matches` array (an
/// absent or non-array `matches` counts as empty), each with the
/// fields it carries. A function of the body text alone; named, not
/// written out, because it goes through the JSON parser this crate
/// calls.
pub uninterp spec fn matches_of(body: Seq<char>) -> Option<Seq<CandidateView>>;

/// Relies on serde_json::from_str, Value::get, Value::as_array,
/// Value::as_str, Value::is_number and Value::to_string: reads the
/// `matches` array of the response body, one candidate per element;
/// the error is the parser's message.
#[verifier::external_body]
fn parse_match_candidates(body: &str) -> (r: Result<Vec<MemoryCandidate>, String>)
    ensures
        (r is Ok) == (matches_of(body@) is Some),
        r matches Ok(v) ==> matches_of(body@) == Some(views_of_candidates(v@)),
{
    let data: serde_json::Value = serde_json::from_str(body).map_err(|e| e.to_string())?;
    let arr = match data.get("matches").and_then(serde_json::Value::as_array) {
        Some(a) => a.clone(),
        None => Vec::new(),
    };
    let mut out = Vec::new();
    for m in arr {
        let id = m.get("id").and_then(serde_json::Value::as_str).map(str::to_string);
        let score = m.get("score");
        let score_text = match score { Some(s) if s.is_number() => Some(s.to_string()), _ => None };
        let text = m.get("text").and_then(serde_json::Value::as_str).map(str::to_string);
        out.push(MemoryCandidate { id, score_text, text });
    }
    Ok(out)
}

/// Relies on serde_json::from_str: whether the body is valid JSON, and
/// the parsed value, passed through opaquely; the error is the
/// parser's message.
#[verifier::external_body]
fn parse_json_value(body: &str) -> (r: Result<serde_json::Value, String>)
    ensures
        (r is Ok) == json_body_ok(body@),
{
    match serde_json::from_str(body) {
        Ok(v) => Ok(v),
        Err(e) => Err(e.to_string()),
    }
}

/// Whether the body text parses as JSON: a function of the text alone,
/// named because it goes through the JSON parser this crate calls.
pub uninterp spec fn json_body_ok(body: Seq<char>) -> bool;

/// The failure message for a non-success status: the numeric status.
pub open spec fn status_error_text(status: int) -> Seq<char> {
    "HTTP "@ + dec_str(status)
}

fn status_error_message(status: u16) -> (r: String)
    ensures
        r@ == status_error_text(status as int),
{
    let mut out = String::from_str("HTTP ");
    let digits = decimal_string(status as u64);
    out.append(digits.as_str());
    proof {
        assert(out@ =~= status_error_text(status as int));
    }
    out
}

/// The prefix of the failure message for an unreadable response body.
pub open spec fn parse_error_prefix() -> Seq<char> {
    "JSON parse error: "@
}

fn parse_error_message(detail: &str) -> (r: String)
    ensures
        r@ == parse_error_prefix() + detail@,
{
    let mut out = String::from_str("JSON parse error: ");
    out.append(detail);
    out
}

/// Decides the outcome of a search call from the response status and
/// body: a hard failure for a non-success status or an unreadable
/// body; otherwise the validated matches, in the service's order,
/// candidates missing their identifier dropped.
pub fn search_outcome(status: u16, body: &str) -> (r: Result<Vec<MemoryMatch>, String>)
    ensures
        !is_success_status(status as int) ==> (r matches Err(m) && m@ == status_error_text(
            status as int,
        )),
        is_success_status(status as int) ==> ((r is Ok) == (matches_of(body@) is Some)),
        is_success_status(status as int) && matches_of(body@) is Some ==> (r is Ok
            && views_of_matches(r->Ok_0@) == filter_valid(matches_of(body@)->Some_0)),
        is_success_status(status as int) && matches_of(body@) is None ==> (r matches Err(m)
            && m@.len() >= parse_error_prefix().len() && m@.subrange(
            0,
            parse_error_prefix().len() as int,
        ) == parse_error_prefix()),
{
    if !(200 <= status && status < 300) {
        return Err(status_error_message(status));
    }
    match parse_match_candidates(body) {
        Ok(candidates) => Ok(filter_matches(&candidates)),
        Err(detail) => {
            let m = parse_error_message(detail.as_str());
            proof {
                assert(m@.subrange(0, parse_error_prefix().len() as int) =~= parse_error_prefix());
            }
            Err(m)
        },
    }
}

/// Decides the outcome of an ingest call from the response status and
/// body: a hard failure for a non-success status or an unreadable
/// body; otherwise the response value, passed through unchanged.
pub fn ingest_outcome(status: u16, body: &str) -> (r: Result<serde_json::Value, String>)
    ensures
        !is_success_status(status as int) ==> (r matches Err(m) && m@ == status_error_text(
            status as int,
        )),
        is_success_status(status as int) ==> ((r is Ok) == json_body_ok(body@)),
        is_success_status(status as int) && !json_body_ok(body@) ==> (r matches Err(m)
            && m@.len() >= parse_error_prefix().len() && m@.subrange(
            0,
            parse_error_prefix().len() as int,
        ) == parse_error_prefix()),
{
    if !(200 <= status && status < 300) {
        return Err(status_error_message(status));
    }
    match parse_json_value(body) {
        Ok(value) => Ok(value),
        Err(detail) => {
            let m = parse_error_message(detail.as_str());
            proof {
                assert(m@.subrange(0, parse_error_prefix().len() as int) =~= parse_error_prefix());
            }
            Err(m)
        },
    }
}

} // verus!
