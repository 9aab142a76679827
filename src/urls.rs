//! URL parsing, joining and percent-encoding, from the `url` and
//! `urlencoding` crates, on URLs held as their text.
use vstd::prelude::*;
use vstd::utf8::encode_utf8;

verus! {

/// What the logic reads of a parsed URL.
pub struct UrlParts {
    /// The URL's serialization.
    pub text: String,
    /// The host, where the URL has one.
    pub host: Option<String>,
    /// The last path segment, where the URL has a hierarchical path.
    pub last_segment: Option<String>,
}

/// The view of an optional string.
pub open spec fn opt_view(s: Option<String>) -> Option<Seq<char>> {
    match s {
        Some(v) => Some(v@),
        None => None,
    }
}

/// `s` parsed as an absolute URL: its serialization, host and last path
/// segment; `None` where it does not parse.
pub uninterp spec fn parsed_url(s: Seq<char>) -> Option<(Seq<char>, Option<Seq<char>>, Option<Seq<char>>)>;

/// The serialization of the URL `s` parses to, with its host set to `host`;
/// `None` where `s` does not parse or the host cannot be set.
pub uninterp spec fn url_with_host(s: Seq<char>, host: Seq<char>) -> Option<Seq<char>>;

/// The serialization of `input` resolved against the URL `base` parses to;
/// `None` where either does not parse.
pub uninterp spec fn url_joined(base: Seq<char>, input: Seq<char>) -> Option<Seq<char>>;

/// The serialization of the URL `s` parses to, with its last path segment
/// removed; `None` where `s` does not parse or has no hierarchical path.
pub uninterp spec fn url_parent(s: Seq<char>) -> Option<Seq<char>>;

/// `s` with its percent-escapes decoded; `None` where the decoded bytes are
/// not UTF-8.
pub uninterp spec fn percent_decoded(s: Seq<char>) -> Option<Seq<char>>;

/// Relies on url::Url::parse, read back through Url::as_str, Url::host_str
/// and the last item of Url::path_segments.
#[verifier::external_body]
pub(crate) fn parse_url(s: &str) -> (r: Option<UrlParts>)
    ensures
        match parsed_url(s@) {
            Some(p) => r matches Some(u) && u.text@ == p.0 && opt_view(u.host) == p.1
                && opt_view(u.last_segment) == p.2,
            None => r is None,
        },
{
    url::Url::parse(s).ok().map(|u| UrlParts {
        text: u.as_str().to_string(),
        host: u.host_str().map(|h| h.to_string()),
        last_segment: u.path_segments().and_then(|p| p.last()).map(|x| x.to_string()),
    })
}

/// Relies on url::Url::set_host, applied to the URL that `s` parses to.
#[verifier::external_body]
pub(crate) fn replace_host(s: &str, host: &str) -> (r: Option<String>)
    ensures
        opt_view(r) == url_with_host(s@, host@),
{
    let mut u = url::Url::parse(s).ok()?;
    u.set_host(Some(host)).ok()?;
    Some(u.as_str().to_string())
}

/// Relies on url::Url::join, applied to the URL that `base` parses to.
#[verifier::external_body]
pub(crate) fn join_url(base: &str, input: &str) -> (r: Option<String>)
    ensures
        opt_view(r) == url_joined(base@, input@),
{
    let u = url::Url::parse(base).ok()?;
    u.join(input).ok().map(|j| j.as_str().to_string())
}

/// Relies on url::PathSegmentsMut::pop, applied through Url::path_segments_mut
/// to the URL that `s` parses to.
#[verifier::external_body]
pub(crate) fn drop_last_segment(s: &str) -> (r: Option<String>)
    ensures
        opt_view(r) == url_parent(s@),
{
    let mut u = url::Url::parse(s).ok()?;
    u.path_segments_mut().ok()?.pop();
    Some(u.as_str().to_string())
}

/// Relies on urlencoding::decode: percent-escapes decoded, `+` kept as it is.
#[verifier::external_body]
pub(crate) fn percent_decode(s: &str) -> (r: Option<String>)
    ensures
        opt_view(r) == percent_decoded(s@),
{
    urlencoding::decode(s).ok().map(|d| d.into_owned())
}

/// A byte that percent-encoding leaves as it is: an ASCII letter or digit,
/// `-`, `.`, `_` or `~`.
pub open spec fn unreserved(b: u8) -> bool {
    (0x30 <= b <= 0x39) || (0x41 <= b <= 0x5a) || (0x61 <= b <= 0x7a) || b == 0x2d || b == 0x2e
        || b == 0x5f || b == 0x7e
}

/// The uppercase hex digit for a value below 16.
pub open spec fn hex_upper(d: u8) -> char {
    if d < 10 {
        (0x30 + d) as char
    } else {
        (0x41 + d - 10) as char
    }
}

/// Every byte but the unreserved ones written as `%` and two uppercase hex
/// digits.
pub open spec fn percent_encoded(bytes: Seq<u8>) -> Seq<char>
    decreases bytes.len(),
{
    if bytes.len() == 0 {
        seq![]
    } else {
        (if unreserved(bytes[0]) {
            seq![bytes[0] as char]
        } else {
            seq!['%', hex_upper(bytes[0] / 16), hex_upper(bytes[0] % 16)]
        }) + percent_encoded(bytes.drop_first())
    }
}

/// Relies on urlencoding::encode: each byte of the UTF-8 text but the
/// unreserved ones percent-encoded.
#[verifier::external_body]
pub(crate) fn percent_encode(s: &str) -> (r: String)
    ensures
        r@ == percent_encoded(encode_utf8(s@)),
{
    urlencoding::encode(s).into_owned()
}

} // verus!
