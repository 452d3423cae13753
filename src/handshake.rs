use vstd::prelude::*;
use vstd::string::StrSliceExecFns;
use vstd::utf8::{decode_utf8, valid_utf8};

use crate::error::ProxyError;

verus! {

/// The Unicode `White_Space` property, as `char::is_whitespace` documents it.
pub open spec fn is_ws(c: char) -> bool {
    let u = c as u32;
    (0x09 <= u <= 0x0d) || u == 0x20 || u == 0x85 || u == 0xa0 || u == 0x1680
        || (0x2000 <= u <= 0x200a) || u == 0x2028 || u == 0x2029 || u == 0x202f
        || u == 0x205f || u == 0x3000
}

/// Executable form of [`is_ws`].
pub fn is_whitespace(c: char) -> (r: bool)
    ensures
        r == is_ws(c),
{
    let u = c as u32;
    (0x09 <= u && u <= 0x0d) || u == 0x20 || u == 0x85 || u == 0xa0 || u == 0x1680
        || (0x2000 <= u && u <= 0x200a) || u == 0x2028 || u == 0x2029 || u == 0x202f
        || u == 0x205f || u == 0x3000
}

/// The maximal runs of non-whitespace characters of `s`, in order.
pub open spec fn tokens(s: Seq<char>) -> Seq<Seq<char>>
    decreases s.len(),
{
    if s.len() == 0 {
        Seq::empty()
    } else {
        let prev = tokens(s.drop_last());
        let c = s.last();
        if is_ws(c) {
            prev
        } else if s.len() >= 2 && !is_ws(s[s.len() - 2]) {
            prev.update(prev.len() - 1, prev.last().push(c))
        } else {
            prev.push(seq![c])
        }
    }
}


/// The views of a list of strings.
pub open spec fn views(v: Seq<String>) -> Seq<Seq<char>> {
    v.map_values(|t: String| t@)
}

proof fn lemma_tokens_nonempty(s: Seq<char>)
    requires
        s.len() > 0,
        !is_ws(s.last()),
    ensures
        tokens(s).len() > 0,
    decreases s.len(),
{
    if s.len() >= 2 && !is_ws(s[s.len() - 2]) {
        lemma_tokens_nonempty(s.drop_last());
    }
}

/// Splits `line` into its whitespace-separated tokens.
pub fn split_tokens(line: &str) -> (r: Vec<String>)
    ensures
        views(r@) == tokens(line@),
{
    let n = line.unicode_len();
    let mut toks: Vec<String> = Vec::new();
    let mut in_tok = false;
    let mut start: usize = 0;
    let mut i: usize = 0;
    while i < n
        invariant
            n == line@.len(),
            i <= n,
            start <= i,
            in_tok ==> start < i && tokens(line@.take(i as int)) == views(toks@).push(
                line@.subrange(start as int, i as int),
            ),
            in_tok ==> !is_ws(line@[i - 1]),
            !in_tok ==> tokens(line@.take(i as int)) == views(toks@),
            !in_tok ==> (i == 0 || is_ws(line@[i - 1])),
        decreases n - i,
    {
        let c = line.get_char(i);
        let ghost s = line@.take(i + 1);
        assert(s.drop_last() == line@.take(i as int));
        assert(s.last() == c);
        if is_whitespace(c) {
            if in_tok {
                let t = line.substring_char(start, i).to_owned();
                let ghost before = toks@;
                toks.push(t);
                assert(views(toks@) =~= views(before).push(t@));
                in_tok = false;
            }
        } else {
            if in_tok {
                assert(line@.subrange(start as int, i + 1) =~= line@.subrange(
                    start as int,
                    i as int,
                ).push(c));
            } else {
                start = i;
                assert(line@.subrange(start as int, i + 1) =~= seq![c]);
            }
            in_tok = true;
        }
        i = i + 1;
    }
    assert(line@.take(n as int) =~= line@);
    if in_tok {
        let t = line.substring_char(start, n).to_owned();
        let ghost before = toks@;
        toks.push(t);
        assert(views(toks@) =~= views(before).push(t@));
    }
    toks
}


/// Every character of `s` is whitespace.
pub open spec fn all_ws(s: Seq<char>) -> bool {
    forall|i: int| 0 <= i < s.len() ==> is_ws(#[trigger] s[i])
}

/// `s` is a single token: not empty, with no whitespace.
pub open spec fn is_word(s: Seq<char>) -> bool {
    s.len() > 0 && forall|i: int| 0 <= i < s.len() ==> !is_ws(#[trigger] s[i])
}

proof fn lemma_tokens_append_ws(s: Seq<char>, w: Seq<char>)
    requires
        all_ws(w),
    ensures
        tokens(s + w) == tokens(s),
    decreases w.len(),
{
    if w.len() == 0 {
        assert(s + w =~= s);
    } else {
        assert((s + w).drop_last() =~= s + w.drop_last());
        lemma_tokens_append_ws(s, w.drop_last());
    }
}

proof fn lemma_tokens_word(x: Seq<char>)
    requires
        is_word(x),
    ensures
        tokens(x) == seq![x],
    decreases x.len(),
{
    assert(!is_ws(x[x.len() - 1]));
    if x.len() == 1 {
        assert(x.drop_last() =~= Seq::<char>::empty());
        assert(seq![x.last()] =~= x);
        assert(tokens(x.drop_last()) =~= Seq::<Seq<char>>::empty());
        assert(Seq::<Seq<char>>::empty().push(seq![x.last()]) =~= seq![x]);
    } else {
        let y = x.drop_last();
        assert forall|i: int| 0 <= i < y.len() implies !is_ws(#[trigger] y[i]) by {
            assert(y[i] == x[i]);
        }
        lemma_tokens_word(y);
        assert(!is_ws(x[x.len() - 2]));
        assert(y.push(x.last()) =~= x);
        assert(seq![y].update(0, x) =~= seq![x]);
    }
}

proof fn lemma_tokens_concat(s: Seq<char>, t: Seq<char>)
    requires
        s.len() == 0 || is_ws(s.last()),
    ensures
        tokens(s + t) == tokens(s) + tokens(t),
    decreases t.len(),
{
    if t.len() == 0 {
        assert(s + t =~= s);
        assert(tokens(s) + tokens(t) =~= tokens(s));
    } else {
        let u = s + t;
        assert(u.drop_last() =~= s + t.drop_last());
        lemma_tokens_concat(s, t.drop_last());
        let c = t.last();
        if is_ws(c) {
        } else if t.len() >= 2 && !is_ws(t[t.len() - 2]) {
            assert(u[u.len() - 2] == t[t.len() - 2]);
            lemma_tokens_nonempty(t.drop_last());
            assert(tokens(u) =~= tokens(s) + tokens(t));
        } else {
            if t.len() >= 2 {
                assert(u[u.len() - 2] == t[t.len() - 2]);
            } else if s.len() > 0 {
                assert(u[u.len() - 2] == s.last());
            }
            assert(tokens(u) =~= tokens(s) + tokens(t));
        }
    }
}

/// A line made of a method, a target and a protocol token, separated by
/// whitespace runs of any length, with any leading whitespace and anything
/// after whitespace that follows the protocol, splits into exactly those three
/// tokens first: so `parse_handshake_text` returns them.
pub proof fn lemma_handshake_tokens_recovered(
    w0: Seq<char>,
    method: Seq<char>,
    w1: Seq<char>,
    target: Seq<char>,
    w2: Seq<char>,
    protocol: Seq<char>,
    w3: Seq<char>,
    rest: Seq<char>,
)
    requires
        all_ws(w0),
        all_ws(w1),
        all_ws(w2),
        all_ws(w3),
        w1.len() > 0,
        w2.len() > 0,
        w3.len() > 0 || rest.len() == 0,
        is_word(method),
        is_word(target),
        is_word(protocol),
    ensures
        ({
            let toks = tokens(w0 + method + w1 + target + w2 + protocol + w3 + rest);
            &&& toks.len() >= 3
            &&& toks[0] == method
            &&& toks[1] == target
            &&& toks[2] == protocol
        }),
{
    lemma_tokens_append_ws(Seq::empty(), w0);
    assert(Seq::<char>::empty() + w0 =~= w0);
    lemma_tokens_word(method);
    lemma_tokens_word(target);
    lemma_tokens_word(protocol);
    if w0.len() > 0 {
        assert(is_ws(w0[w0.len() - 1]));
    }
    lemma_tokens_concat(w0, method);
    lemma_tokens_append_ws(w0 + method, w1);
    let a = w0 + method + w1;
    assert(is_ws(a.last())) by {
        assert(a.last() == w1[w1.len() - 1]);
    }
    lemma_tokens_append_ws(target, w2);
    let b = target + w2;
    assert(is_ws(b.last())) by {
        assert(b.last() == w2[w2.len() - 1]);
    }
    let p = protocol + w3;
    lemma_tokens_append_ws(protocol, w3);
    let tail = tokens(rest);
    if w3.len() > 0 {
        assert(is_ws(p.last())) by {
            assert(p.last() == w3[w3.len() - 1]);
        }
        lemma_tokens_concat(p, rest);
    } else {
        assert(p + rest =~= protocol);
    }
    lemma_tokens_concat(b, p + rest);
    lemma_tokens_concat(a, b + (p + rest));
    assert(w0 + method + w1 + target + w2 + protocol + w3 + rest =~= a + (b + (p + rest)));
}

/// The three tokens of an opening request line.
pub struct Handshake {
    pub method: String,
    pub target: String,
    pub protocol: String,
}

/// Whether `h` holds the three tokens `toks` starts with.
pub open spec fn holds_first_three(h: Handshake, toks: Seq<Seq<char>>) -> bool {
    &&& toks.len() >= 3
    &&& h.method@ == toks[0]
    &&& h.target@ == toks[1]
    &&& h.protocol@ == toks[2]
}

/// Reads the method, target and protocol tokens of `line`; tokens after the
/// third are ignored.
pub fn parse_handshake_text(line: &str) -> (r: Result<Handshake, ProxyError>)
    ensures
        r is Ok <==> tokens(line@).len() >= 3,
        r matches Ok(h) ==> holds_first_three(h, tokens(line@)),
        r matches Err(e) ==> e == ProxyError::MalformedHandshake,
{
    let mut toks = split_tokens(line);
    if toks.len() < 3 {
        return Err(ProxyError::MalformedHandshake);
    }
    let ghost all = views(toks@);
    toks.truncate(3);
    assert(views(toks@) =~= all.take(3));
    let protocol = toks.pop().unwrap();
    let target = toks.pop().unwrap();
    let method = toks.pop().unwrap();
    Ok(Handshake { method, target, protocol })
}

/// Relies on `String::from_utf8`: it succeeds exactly on valid UTF-8 and then
/// holds the characters that the bytes encode.
#[verifier::external_body]
fn text_from_utf8(bytes: Vec<u8>) -> (r: Option<String>)
    ensures
        r is Some <==> valid_utf8(bytes@),
        r matches Some(t) ==> t@ == decode_utf8(bytes@),
{
    String::from_utf8(bytes).ok()
}

/// Decodes the opening bytes of a connection as text and reads its three
/// tokens.
pub fn parse_handshake(buf: Vec<u8>) -> (r: Result<Handshake, ProxyError>)
    ensures
        r is Ok <==> valid_utf8(buf@) && tokens(decode_utf8(buf@)).len() >= 3,
        r matches Ok(h) ==> holds_first_three(h, tokens(decode_utf8(buf@))),
        r matches Err(e) ==> e == ProxyError::MalformedHandshake,
{
    match text_from_utf8(buf) {
        None => Err(ProxyError::MalformedHandshake),
        Some(line) => parse_handshake_text(line.as_str()),
    }
}

} // verus!
