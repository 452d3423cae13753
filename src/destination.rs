use vstd::prelude::*;
use vstd::string::StrSliceExecFns;

use crate::error::ProxyError;

verus! {

/// What the URL parser finds in a target: its scheme, its host (if any) and
/// the port written in it (absent when none is written, or when the written
/// one is the scheme's default).
pub struct UrlParts {
    pub scheme: String,
    pub host: Option<String>,
    pub port: Option<u16>,
}

/// The plain-value form of [`UrlParts`].
pub type UrlPartsView = (Seq<char>, Option<Seq<char>>, Option<u16>);

impl UrlParts {
    pub open spec fn view(&self) -> UrlPartsView {
        (
            self.scheme@,
            match self.host {
                Some(h) => Some(h@),
                None => None,
            },
            self.port,
        )
    }
}

/// What `url::Url::parse` makes of a target: `None` where it refuses it.
pub uninterp spec fn url_parts_of(target: Seq<char>) -> Option<UrlPartsView>;

/// Relies on `url::Url::parse`, with `Url::scheme`, `Url::host_str` and
/// `Url::port` to read the parsed URL into plain values.
#[verifier::external_body]
fn parse_url(target: &str) -> (r: Option<UrlParts>)
    ensures
        r is Some <==> url_parts_of(target@) is Some,
        r matches Some(p) ==> url_parts_of(target@) == Some(p.view()),
{
    let u = url::Url::parse(target).ok()?;
    Some(UrlParts {
        scheme: u.scheme().to_string(),
        host: u.host_str().map(String::from),
        port: u.port(),
    })
}

/// A resolved host (lower case) and port, in 1 to 65535.
pub struct Destination {
    pub host: String,
    pub port: u16,
}

impl Destination {
    pub open spec fn view(&self) -> (Seq<char>, u16) {
        (self.host@, self.port)
    }
}

/// A character with ASCII upper-case letters mapped to lower case.
pub open spec fn lower_char(c: char) -> char {
    if 'A' <= c <= 'Z' {
        ((c as u32) + 32) as char
    } else {
        c
    }
}

/// `s` with ASCII upper-case letters mapped to lower case, other characters
/// unchanged.
pub open spec fn ascii_lower(s: Seq<char>) -> Seq<char> {
    s.map_values(|c: char| lower_char(c))
}

/// Relies on `str::to_ascii_lowercase`: ASCII letters `A` to `Z` become `a`
/// to `z`, every other character is kept.
#[verifier::external_body]
pub(crate) fn to_ascii_lower(s: &str) -> (r: String)
    ensures
        r@ == ascii_lower(s@),
{
    s.to_ascii_lowercase()
}

/// Whether two strings hold the same characters.
pub fn text_is(s: &str, lit: &str) -> (r: bool)
    ensures
        r == (s@ == lit@),
{
    let n = s.unicode_len();
    if n != lit.unicode_len() {
        return false;
    }
    let mut i: usize = 0;
    while i < n
        invariant
            n == s@.len(),
            n == lit@.len(),
            i <= n,
            forall|j: int| 0 <= j < i ==> s@[j] == lit@[j],
        decreases n - i,
    {
        if s.get_char(i) != lit.get_char(i) {
            return false;
        }
        i = i + 1;
    }
    assert(s@ =~= lit@);
    true
}

/// The port a scheme uses when none is written: 80 for `http` and `ws`, 443
/// for `https` and `wss`, 21 for `ftp`; none for any other scheme.
pub open spec fn known_default_port(scheme: Seq<char>) -> Option<u16> {
    if scheme == "http"@ || scheme == "ws"@ {
        Some(80)
    } else if scheme == "https"@ || scheme == "wss"@ {
        Some(443)
    } else if scheme == "ftp"@ {
        Some(21)
    } else {
        None
    }
}

/// Executable form of [`known_default_port`].
pub fn default_port(scheme: &str) -> (r: Option<u16>)
    ensures
        r == known_default_port(scheme@),
{
    if text_is(scheme, "http") || text_is(scheme, "ws") {
        Some(80)
    } else if text_is(scheme, "https") || text_is(scheme, "wss") {
        Some(443)
    } else if text_is(scheme, "ftp") {
        Some(21)
    } else {
        None
    }
}

/// The host and port that URL parts resolve to: the written port, else the
/// scheme's default; `None` without a non-empty host or a non-zero port.
pub open spec fn resolved(p: UrlPartsView) -> Option<(Seq<char>, u16)> {
    let port = match p.2 {
        Some(x) => Some(x),
        None => known_default_port(p.0),
    };
    match (p.1, port) {
        (Some(h), Some(x)) => if h.len() > 0 && x != 0 {
            Some((ascii_lower(h), x))
        } else {
            None
        },
        _ => None,
    }
}

/// A written port is the port resolved; without one, `http` resolves to 80 and
/// `https` to 443 (for URL parts with a non-empty host).
pub proof fn lemma_port_resolution(p: UrlPartsView)
    requires
        p.1 matches Some(h) && h.len() > 0,
    ensures
        p.2 is Some && p.2->0 != 0 ==> resolved(p) == Some((ascii_lower(p.1->0), p.2->0)),
        p.2 is None && p.0 == "http"@ ==> resolved(p) == Some((ascii_lower(p.1->0), 80u16)),
        p.2 is None && p.0 == "https"@ ==> resolved(p) == Some((ascii_lower(p.1->0), 443u16)),
{
    if p.0 == "https"@ {
        assert(p.0 != "http"@ && p.0 != "ws"@) by {
            reveal_strlit("https");
            reveal_strlit("http");
            reveal_strlit("ws");
            assert(p.0.len() == 5);
        }
    }
}

/// Turns parsed URL parts into a destination.
pub fn resolve_parts(parts: &UrlParts) -> (r: Result<Destination, ProxyError>)
    ensures
        match resolved(parts.view()) {
            Some(d) => r matches Ok(dest) && dest.view() == d,
            None => r == Err::<Destination, ProxyError>(ProxyError::UnresolvableDestination),
        },
{
    let port = match parts.port {
        Some(x) => x,
        None => match default_port(parts.scheme.as_str()) {
            Some(x) => x,
            None => return Err(ProxyError::UnresolvableDestination),
        },
    };
    match &parts.host {
        Some(h) => {
            if h.unicode_len() == 0 || port == 0 {
                return Err(ProxyError::UnresolvableDestination);
            }
            Ok(Destination { host: to_ascii_lower(h.as_str()), port })
        },
        None => Err(ProxyError::UnresolvableDestination),
    }
}

/// Resolves a handshake's target token into a destination.
pub fn resolve_destination(target: &str) -> (r: Result<Destination, ProxyError>)
    ensures
        match url_parts_of(target@) {
            Some(p) => match resolved(p) {
                Some(d) => r matches Ok(dest) && dest.view() == d,
                None => r == Err::<Destination, ProxyError>(ProxyError::UnresolvableDestination),
            },
            None => r == Err::<Destination, ProxyError>(ProxyError::UnresolvableDestination),
        },
{
    match parse_url(target) {
        Some(parts) => resolve_parts(&parts),
        None => Err(ProxyError::UnresolvableDestination),
    }
}

} // verus!
