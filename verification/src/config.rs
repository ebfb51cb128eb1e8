//! Client configuration, chat message records, and the derived request
//! headers and URLs.
use vstd::prelude::*;
use vstd::string::StrSliceExecFns;
use vstd::string::StringExecFns;

verus! {

/// Connection settings for the remote inference service.
#[derive(Debug, Clone)]
pub struct CloudflareConfig {
    pub endpoint: String,
    pub api_token: String,
    pub rag_top_k: Option<u32>,
}

/// One turn of a chat conversation.
#[derive(Debug, Clone)]
pub struct ChatMessage {
    pub role: String,
    pub content: String,
}

/// The bearer-token authorization header value for a request.
pub fn auth_header(token: &str) -> (r: String)
    ensures
        r@ == "Bearer "@ + token@,
{
    let mut out = String::from_str("Bearer ");
    out.append(token);
    out
}

/// `s` with every trailing `'/'` removed.
pub open spec fn trim_trailing_slashes(s: Seq<char>) -> Seq<char>
    decreases s.len(),
{
    if s.len() > 0 && s.last() == '/' {
        trim_trailing_slashes(s.drop_last())
    } else {
        s
    }
}

/// The configured endpoint without its trailing slashes.
fn base_endpoint(endpoint: &str) -> (r: String)
    ensures
        r@ == trim_trailing_slashes(endpoint@),
{
    let n = endpoint.unicode_len();
    let mut k = n;
    proof {
        assert(endpoint@.subrange(0, n as int) =~= endpoint@);
    }
    while k > 0 && endpoint.get_char(k - 1) == '/'
        invariant
            k <= n,
            n == endpoint@.len(),
            trim_trailing_slashes(endpoint@) == trim_trailing_slashes(
                endpoint@.subrange(0, k as int),
            ),
        decreases k,
    {
        proof {
            let cut = endpoint@.subrange(0, k as int);
            assert(cut.last() == '/');
            assert(cut.drop_last() =~= endpoint@.subrange(0, k - 1));
        }
        k = k - 1;
    }
    proof {
        let cut = endpoint@.subrange(0, k as int);
        assert(trim_trailing_slashes(cut) == cut);
    }
    let r = endpoint.substring_char(0, k).to_owned();
    r
}

/// The endpoint (trailing slashes removed) followed by `path`.
fn endpoint_with_path(endpoint: &str, path: &str) -> (r: String)
    ensures
        r@ == trim_trailing_slashes(endpoint@) + path@,
{
    let mut out = base_endpoint(endpoint);
    out.append(path);
    out
}

/// URL of the streaming chat call.
pub fn chat_url(endpoint: &str) -> (r: String)
    ensures
        r@ == trim_trailing_slashes(endpoint@) + "/api/chat"@,
{
    endpoint_with_path(endpoint, "/api/chat")
}

/// URL of the memory ingest call.
pub fn ingest_url(endpoint: &str) -> (r: String)
    ensures
        r@ == trim_trailing_slashes(endpoint@) + "/api/memory/ingest"@,
{
    endpoint_with_path(endpoint, "/api/memory/ingest")
}

/// URL of the memory search call.
pub fn search_url(endpoint: &str) -> (r: String)
    ensures
        r@ == trim_trailing_slashes(endpoint@) + "/api/memory/search"@,
{
    endpoint_with_path(endpoint, "/api/memory/search")
}

} // verus!
