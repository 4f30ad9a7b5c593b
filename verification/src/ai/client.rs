//! The OpenAI-compatible endpoint: which base URLs are accepted, and the URL
//! of the chat completions call.
use vstd::prelude::*;

use reqwest::Url;

use crate::error::AppError;
use crate::net::{is_blocked, is_loopback, parse_ipv4, spec_is_blocked, spec_is_loopback, spec_parse_ipv4};
use crate::text::{
    chars_of, owned, push_str, spec_ascii_lower, spec_trim, string_of, to_ascii_lower, trim,
    trim_end_char, trim_end_matching,
};

verus! {

/// What the logic reads of a parsed URL.
#[derive(Debug, Clone)]
pub struct ParsedUrl {
    /// The URL's serialization (`Url::as_str`).
    pub serialized: String,
    pub scheme: String,
    pub username: String,
    pub has_password: bool,
    pub has_query: bool,
    pub has_fragment: bool,
    /// `Url::host_str`.
    pub host: Option<String>,
}

/// The parts of a parsed URL, as character sequences.
#[verifier::ext_equal]
pub struct UrlParts {
    pub serialized: Seq<char>,
    pub scheme: Seq<char>,
    pub username: Seq<char>,
    pub has_password: bool,
    pub has_query: bool,
    pub has_fragment: bool,
    pub host: Option<Seq<char>>,
}

impl View for ParsedUrl {
    type V = UrlParts;

    open spec fn view(&self) -> UrlParts {
        UrlParts {
            serialized: self.serialized@,
            scheme: self.scheme@,
            username: self.username@,
            has_password: self.has_password,
            has_query: self.has_query,
            has_fragment: self.has_fragment,
            host: match self.host {
                Some(h) => Some(h@),
                None => None,
            },
        }
    }
}

/// What `url::Url::parse` makes of `s`: the parts of the URL, or the
/// text of the parse error.
pub uninterp spec fn spec_url_parse(s: Seq<char>) -> Result<UrlParts, Seq<char>>;

/// The serialization of the URL `s` (parsed by `url::Url::parse`) after
/// `path_segments_mut().extend(segs)`; `None` when the URL does not parse
/// or cannot be a base.
pub uninterp spec fn spec_url_extend(s: Seq<char>, segs: Seq<Seq<char>>) -> Option<Seq<char>>;

/// The texts of a list of string slices.
pub open spec fn strs_view(segs: Seq<&str>) -> Seq<Seq<char>> {
    segs.map_values(|x: &str| x@)
}

/// The path segments appended to the AI base URL to reach the chat
/// completions endpoint.
pub open spec fn chat_segments() -> Seq<Seq<char>> {
    seq!["chat"@, "completions"@]
}

/// `url::Url::parse` (through `reqwest::Url`), reading off the
/// serialization, the scheme, the user name, whether a password, query or
/// fragment is present, and the host text (`Url::host_str`).
#[verifier::external_body]
fn url_parse(s: &str) -> (r: Result<ParsedUrl, String>)
    ensures
        r matches Ok(u) ==> spec_url_parse(s@) matches Ok(p) && p == u@,
        r matches Err(e) ==> spec_url_parse(s@) matches Err(m) && m == e@,
{
    let url = Url::parse(s).map_err(|e| e.to_string())?;
    Ok(ParsedUrl {
        serialized: url.as_str().to_string(),
        scheme: url.scheme().to_string(),
        username: url.username().to_string(),
        has_password: url.password().is_some(),
        has_query: url.query().is_some(),
        has_fragment: url.fragment().is_some(),
        host: url.host_str().map(|h| h.to_string()),
    })
}

/// Parses the URL `s` with `url::Url::parse` and appends the path segments
/// `segs` (`Url::path_segments_mut().extend`), giving the new serialization;
/// `None` when `s` does not parse or the URL cannot be a base.
#[verifier::external_body]
fn url_extend(s: &str, segs: &[&str]) -> (r: Option<String>)
    ensures
        r matches Some(t) ==> spec_url_extend(s@, strs_view(segs@)) matches Some(u) && u == t@,
        r is None ==> spec_url_extend(s@, strs_view(segs@)) is None,
{
    let mut url = Url::parse(s).ok()?;
    url.path_segments_mut().ok()?.extend(segs);
    Some(url.as_str().to_string())
}

/// The text of a base URL before parsing: surrounding whitespace and
/// trailing `/` removed.
pub open spec fn spec_base_text(s: Seq<char>) -> Seq<char> {
    trim_end_char(spec_trim(s), '/')
}

/// `localhost`, a `.localhost` name (ignoring ASCII case), or a loopback
/// address. A host text holds an IPv6 address only between brackets, which
/// no address parser reads, so only IPv4 addresses are read from it.
pub open spec fn spec_loopback_host(u: UrlParts) -> bool {
    match u.host {
        None => false,
        Some(h) => {
            let n = spec_ascii_lower(h);
            ||| n == "localhost"@
            ||| (n.len() >= 10 && n.subrange(n.len() - 10, n.len() as int) == ".localhost"@)
            ||| (spec_parse_ipv4(h) matches Some(a) && spec_is_loopback(a))
        },
    }
}

/// An IPv4 host that is not loopback but private, link-local, unspecified
/// or multicast.
pub open spec fn spec_blocked_host(u: UrlParts) -> bool {
    u.host matches Some(h) && spec_parse_ipv4(h) matches Some(a) && spec_is_blocked(a)
}

/// What [`base_url_url`] gives for `s`: the parsed URL, or the detail of
/// the `Validation` error.
pub open spec fn spec_base_url(s: Seq<char>) -> Result<UrlParts, Seq<char>> {
    let t = spec_base_text(s);
    if t.len() == 0 {
        Err("AI Base URL 不可為空"@)
    } else {
        match spec_url_parse(t) {
            Err(e) => Err("AI Base URL 格式不正確："@ + e),
            Ok(u) => if u.has_query || u.has_fragment || u.username.len() != 0 || u.has_password {
                Err("AI Base URL 不可包含帳密、查詢字串或 fragment"@)
            } else if u.scheme == "https"@ {
                if spec_blocked_host(u) {
                    Err("AI Base URL 不可使用非 loopback 的私有、link-local 或特殊 IP"@)
                } else {
                    Ok(u)
                }
            } else if u.scheme == "http"@ && spec_loopback_host(u) {
                Ok(u)
            } else {
                Err(
                    "AI Base URL 僅允許 https；本機模型端點可使用 http://localhost 或 http://127.0.0.1"@,
                )
            },
        }
    }
}

/// Whether the URL's host is a loopback host.
fn is_loopback_host(u: &ParsedUrl) -> (r: bool)
    ensures
        r == spec_loopback_host(u@),
{
    match &u.host {
        None => false,
        Some(h) => {
            let hc = chars_of(h.as_str());
            let n = to_ascii_lower(hc.as_slice());
            let ns = string_of(n.as_slice(), 0, n.len());
            assert(n@.subrange(0, n@.len() as int) =~= n@);
            if crate::text::str_eq(ns.as_str(), "localhost") {
                return true;
            }
            let suffix = chars_of(".localhost");
            proof {
                reveal_strlit(".localhost");
            }
            assert(suffix@.len() == 10);
            if n.len() >= 10 {
                let mut k: usize = 0;
                let start = n.len() - 10;
                let mut same = true;
                while k < 10
                    invariant
                        n@.len() >= 10,
                        n@.len() == n.len(),
                        suffix@.len() == 10,
                        start == n@.len() - 10,
                        suffix@ == ".localhost"@,
                        k <= 10,
                        same == (forall|i: int| 0 <= i < k ==> n@[start + i] == suffix@[i]),
                    decreases 10 - k,
                {
                    if n[start + k] != suffix[k] {
                        same = false;
                    }
                    k = k + 1;
                }
                if same {
                    assert(n@.subrange(start as int, n@.len() as int) =~= ".localhost"@);
                    return true;
                } else {
                    assert(n@.subrange(start as int, n@.len() as int) != ".localhost"@) by {
                        let w = choose|i: int| 0 <= i < 10 && n@[start + i] != suffix@[i];
                        assert(n@.subrange(start as int, n@.len() as int)[w] != ".localhost"@[w]);
                    }
                }
            }
            match parse_ipv4(h.as_str()) {
                Some(a) => is_loopback(&a),
                None => false,
            }
        },
    }
}

/// Whether the URL's host is an IPv4 address that must not be used.
fn is_blocked_ip_literal(u: &ParsedUrl) -> (r: bool)
    ensures
        r == spec_blocked_host(u@),
{
    match &u.host {
        None => false,
        Some(h) => match parse_ipv4(h.as_str()) {
            Some(a) => is_blocked(&a),
            None => false,
        },
    }
}

fn validation(msg: &str) -> (e: AppError)
    ensures
        e matches AppError::Validation(d) && d@ == msg@,
{
    AppError::Validation(owned(msg))
}

/// Parses and checks an AI base URL: it must not be empty, must parse, may
/// carry no credentials, query or fragment, and must use `https` (to a host
/// that is not a private, link-local or special IPv4 address) or `http` to
/// a loopback host.
pub fn base_url_url(base_url: &str) -> (r: Result<ParsedUrl, AppError>)
    ensures
        match spec_base_url(base_url@) {
            Ok(u) => r matches Ok(p) && p@ == u,
            Err(m) => r matches Err(AppError::Validation(d)) && d@ == m,
        },
{
    let t = trim(base_url);
    let tc = chars_of(t.as_str());
    let j = trim_end_matching(tc.as_slice(), '/');
    let trimmed = string_of(tc.as_slice(), 0, j);
    if j == 0 {
        return Err(validation("AI Base URL 不可為空"));
    }
    let u = match url_parse(trimmed.as_str()) {
        Err(e) => {
            let mut d = owned("AI Base URL 格式不正確：");
            push_str(&mut d, e.as_str());
            return Err(AppError::Validation(d));
        },
        Ok(u) => u,
    };
    if u.has_query || u.has_fragment || !u.username.as_str().is_empty() || u.has_password {
        return Err(validation("AI Base URL 不可包含帳密、查詢字串或 fragment"));
    }
    if crate::text::str_eq(u.scheme.as_str(), "https") {
        if is_blocked_ip_literal(&u) {
            return Err(validation("AI Base URL 不可使用非 loopback 的私有、link-local 或特殊 IP"));
        }
        Ok(u)
    } else if crate::text::str_eq(u.scheme.as_str(), "http") && is_loopback_host(&u) {
        Ok(u)
    } else {
        Err(
            validation(
                "AI Base URL 僅允許 https；本機模型端點可使用 http://localhost 或 http://127.0.0.1",
            ),
        )
    }
}

/// Checks an AI base URL and gives its normalised text: the serialization
/// without trailing `/`.
pub fn validate_base_url(base_url: &str) -> (r: Result<String, AppError>)
    ensures
        match spec_base_url(base_url@) {
            Ok(u) => r matches Ok(s) && s@ == trim_end_char(u.serialized, '/'),
            Err(m) => r matches Err(AppError::Validation(d)) && d@ == m,
        },
{
    let u = base_url_url(base_url)?;
    let cs = chars_of(u.serialized.as_str());
    let j = trim_end_matching(cs.as_slice(), '/');
    Ok(string_of(cs.as_slice(), 0, j))
}

/// The chat completions URL for an AI base URL: the checked base URL with
/// the path segments `chat` and `completions` appended.
pub fn chat_completions_url(base_url: &str) -> (r: Result<String, AppError>)
    ensures
        match spec_base_url(base_url@) {
            Err(m) => r matches Err(AppError::Validation(d)) && d@ == m,
            Ok(u) => match spec_url_extend(u.serialized, chat_segments()) {
                Some(s) => r matches Ok(t) && t@ == s,
                None => r matches Err(AppError::Validation(d)) && d@
                    == "AI Base URL 必須可作為路徑基底"@,
            },
        },
{
    let u = base_url_url(base_url)?;
    let segs: [&str; 2] = ["chat", "completions"];
    proof {
        reveal_strlit("chat");
        reveal_strlit("completions");
        assert(strs_view(segs@) =~= chat_segments());
    }
    match url_extend(u.serialized.as_str(), &segs) {
        Some(s) => Ok(s),
        None => Err(validation("AI Base URL 必須可作為路徑基底")),
    }
}

} // verus!
