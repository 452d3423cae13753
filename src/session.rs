use vstd::prelude::*;
use vstd::utf8::{decode_utf8, valid_utf8};

use crate::destination::{
    ascii_lower, lower_char, resolve_destination, resolve_parts, resolved, url_parts_of,
    Destination, UrlParts, UrlPartsView,
};
use crate::error::ProxyError;
use crate::handshake::{parse_handshake, tokens};
use crate::policy::AllowSet;

verus! {

/// What becomes of a new connection once its opening bytes are read.
pub enum Decision {
    /// The host is not allowed: answer with [`rejection_response`] and close.
    Reject,
    /// Connect to the destination, send it the opening bytes, then relay.
    Connect(Destination, Vec<u8>),
    /// Close the connection without a reply and without contacting anyone.
    Abort(ProxyError),
}

/// The plain-value form of a [`Decision`].
pub enum Verdict {
    Reject,
    Connect(Seq<char>, u16, Seq<u8>),
    Abort(ProxyError),
}

impl Decision {
    pub open spec fn view(&self) -> Verdict {
        match self {
            Decision::Reject => Verdict::Reject,
            Decision::Connect(d, replay) => Verdict::Connect(d.host@, d.port, replay@),
            Decision::Abort(e) => Verdict::Abort(*e),
        }
    }
}

/// The bytes of `HTTP/1.1 403 Forbidden\r\n\r\n`, in ASCII.
pub open spec fn rejection_bytes() -> Seq<u8> {
    seq![
        72u8, 84u8, 84u8, 80u8, 47u8, 49u8, 46u8, 49u8, 32u8, 52u8, 48u8, 51u8, 32u8,
        70u8, 111u8, 114u8, 98u8, 105u8, 100u8, 100u8, 101u8, 110u8, 13u8, 10u8, 13u8, 10u8,
    ]
}

/// The reply a client gets when its destination is not allowed.
pub fn rejection_response() -> (r: Vec<u8>)
    ensures
        r@ == rejection_bytes(),
{
    let r = vec![
        72u8, 84u8, 84u8, 80u8, 47u8, 49u8, 46u8, 49u8, 32u8, 52u8, 48u8, 51u8, 32u8,
        70u8, 111u8, 114u8, 98u8, 105u8, 100u8, 100u8, 101u8, 110u8, 13u8, 10u8, 13u8, 10u8,
    ];
    assert(r@ =~= rejection_bytes());
    r
}

/// The decision for a target that the URL parser read into `p`.
pub open spec fn verdict_for_parts(
    p: UrlPartsView,
    allow: Set<Seq<char>>,
    replay: Seq<u8>,
) -> Verdict {
    match resolved(p) {
        None => Verdict::Abort(ProxyError::UnresolvableDestination),
        Some(d) => if allow.contains(d.0) {
            Verdict::Connect(d.0, d.1, replay)
        } else {
            Verdict::Reject
        },
    }
}

/// The decision for the opening bytes `buf` of a connection.
pub open spec fn verdict_for(buf: Seq<u8>, allow: Set<Seq<char>>) -> Verdict {
    if !valid_utf8(buf) || tokens(decode_utf8(buf)).len() < 3 {
        Verdict::Abort(ProxyError::MalformedHandshake)
    } else {
        match url_parts_of(tokens(decode_utf8(buf))[1]) {
            None => Verdict::Abort(ProxyError::UnresolvableDestination),
            Some(p) => verdict_for_parts(p, allow, buf),
        }
    }
}

/// Opening bytes that are not text with three tokens never lead to a
/// connection: the session is aborted as malformed.
pub proof fn lemma_malformed_never_connects(buf: Seq<u8>, allow: Set<Seq<char>>)
    requires
        !valid_utf8(buf) || tokens(decode_utf8(buf)).len() < 3,
    ensures
        verdict_for(buf, allow) == Verdict::Abort(ProxyError::MalformedHandshake),
{
}

/// A handshake whose target resolves to a host outside the allowlist is
/// answered with the rejection and never leads to a connection.
pub proof fn lemma_denied_host_rejected(buf: Seq<u8>, allow: Set<Seq<char>>)
    requires
        valid_utf8(buf),
        tokens(decode_utf8(buf)).len() >= 3,
        url_parts_of(tokens(decode_utf8(buf))[1]) matches Some(p) && resolved(p) matches Some(
            d,
        ) && !allow.contains(d.0),
    ensures
        verdict_for(buf, allow) == Verdict::Reject,
{
}

/// A connection is only ever made to an allowed host, and the bytes to send
/// it first are exactly the opening bytes.
pub proof fn lemma_connect_only_when_allowed(buf: Seq<u8>, allow: Set<Seq<char>>)
    ensures
        verdict_for(buf, allow) matches Verdict::Connect(host, port, replay) ==> allow.contains(
            host,
        ) && replay == buf && port != 0,
{
}

proof fn lemma_lower_idempotent(s: Seq<char>)
    ensures
        ascii_lower(ascii_lower(s)) == ascii_lower(s),
{
    assert(ascii_lower(ascii_lower(s)) =~= ascii_lower(s));
}

/// Resolves parsed URL parts and applies the allowlist.
pub fn decide_destination(parts: &UrlParts, allow: &AllowSet, replay: Vec<u8>) -> (r: Decision)
    ensures
        r@ == verdict_for_parts(parts.view(), allow@, replay@),
{
    match resolve_parts(parts) {
        Err(e) => Decision::Abort(e),
        Ok(dest) => {
            proof {
                lemma_lower_idempotent(parts.view().1->0);
            }
            if allow.contains(dest.host.as_str()) {
                Decision::Connect(dest, replay)
            } else {
                Decision::Reject
            }
        },
    }
}

/// Reads the handshake in the opening bytes of a connection, resolves its
/// target and applies the allowlist; on success the bytes are kept to be
/// sent on to the destination unchanged.
pub fn decide(handshake: Vec<u8>, allow: &AllowSet) -> (r: Decision)
    ensures
        r@ == verdict_for(handshake@, allow@),
{
    match parse_handshake(handshake.clone()) {
        Err(e) => Decision::Abort(e),
        Ok(h) => match resolve_destination(h.target.as_str()) {
            Err(e) => Decision::Abort(e),
            Ok(dest) => {
                proof {
                    let p = url_parts_of(h.target@)->0;
                    lemma_lower_idempotent(p.1->0);
                }
                if allow.contains(dest.host.as_str()) {
                    Decision::Connect(dest, handshake)
                } else {
                    Decision::Reject
                }
            },
        },
    }
}

} // verus!
