//! Calendar sign-in: the providers, the query of the browser's callback
//! request and what the callback page and result are.

use vstd::prelude::*;
use vstd::utf8::{valid_utf8, decode_utf8, encode_utf8, encode_scalar, is_ascii_chars, is_ascii_chars_encode_utf8, is_ascii_chars_concat};
use vstd::string::*;
use crate::error::ParaError;
use crate::hexcodec::{pair_val, pair_value, hex_byte_val};
use crate::oauth::{url_encoded, unreserved, hex_upper};
use crate::text::{str_eq, char_pieces, split_on_char, words, split_whitespace, views, chars_vec, string_from_chars};

verus! {

/// `String::from_utf8_lossy` of a byte sequence.
pub uninterp spec fn utf8_lossy(bytes: Seq<u8>) -> Seq<char>;

/// `String::from_utf8_lossy(..).to_string()`: the bytes as text, invalid
/// sequences replaced by U+FFFD. Valid UTF-8 is decoded as it is.
#[verifier::external_body]
fn from_utf8_lossy(bytes: &[u8]) -> (s: String)
    ensures
        s@ == utf8_lossy(bytes@),
        valid_utf8(bytes@) ==> s@ == decode_utf8(bytes@),
{
    String::from_utf8_lossy(bytes).to_string()
}

/// The supported calendar providers.
pub fn normalize_provider(provider: &str) -> (r: Result<String, ParaError>)
    ensures
        (provider@ == "google"@ || provider@ == "microsoft"@) ==> match r {
            Ok(p) => p@ == provider@,
            Err(_) => false,
        },
        !(provider@ == "google"@ || provider@ == "microsoft"@) ==> match r {
            Err(ParaError::InvalidState(m)) => m@ == "unsupported calendar provider: "@ + provider@,
            _ => false,
        },
{
    if str_eq(provider, "google") || str_eq(provider, "microsoft") {
        Ok(String::from_str(provider))
    } else {
        let mut m = String::from_str("unsupported calendar provider: ");
        m.append(provider);
        Err(ParaError::InvalidState(m))
    }
}

/// What `u8::from_str_radix(.., 16)` reads from a two-byte text: two hex
/// digits of either case, or a plus sign and one hex digit; anything else
/// is not a number.
pub open spec fn radix16_pair(h: u8, l: u8) -> Option<u8> {
    if h == 43 {
        match hex_byte_val(l) {
            Some(v) => Some(v as u8),
            None => None,
        }
    } else {
        pair_val(h, l)
    }
}

fn radix16_pair_value(h: u8, l: u8) -> (r: Option<u8>)
    ensures
        r == radix16_pair(h, l),
{
    if h == 43 {
        assert(hex_byte_val(48) == Some(0nat));
        pair_value(48, l)
    } else {
        pair_value(h, l)
    }
}

/// Form decoding of bytes from offset `i`: `+` is a space, `%` followed by
/// two bytes that read as a base-16 number (see `radix16_pair`) is that
/// byte, anything else stays.
pub open spec fn pct_from(b: Seq<u8>, i: nat) -> Seq<u8>
    decreases b.len() - i,
{
    if i >= b.len() {
        Seq::empty()
    } else if b[i as int] == 43 {
        seq![32u8] + pct_from(b, i + 1)
    } else if b[i as int] == 37 && i + 2 < b.len() && radix16_pair(b[i + 1int], b[i + 2int]) is Some {
        seq![radix16_pair(b[i + 1int], b[i + 2int])->0] + pct_from(b, i + 3)
    } else {
        seq![b[i as int]] + pct_from(b, i + 1)
    }
}

/// Form decoding of a query component (`+` and `%XX`), the result read as
/// UTF-8 with invalid sequences replaced.
pub fn percent_decode(input: &str) -> (r: String)
    ensures
        r@ == utf8_lossy(pct_from(input.spec_bytes(), 0)),
        valid_utf8(pct_from(input.spec_bytes(), 0)) ==> r@ == decode_utf8(pct_from(input.spec_bytes(), 0)),
{
    let b = input.as_bytes();
    let n = b.len();
    let mut out: Vec<u8> = Vec::new();
    let mut i: usize = 0;
    while i < n
        invariant
            n == b@.len(),
            b@ == input.spec_bytes(),
            i <= n,
            out@ + pct_from(b@, i as nat) == pct_from(b@, 0),
        decreases n - i,
    {
        let ghost before = out@;
        if b[i] == 43 {
            out.push(32);
            assert(before + pct_from(b@, i as nat) =~= out@ + pct_from(b@, (i + 1) as nat));
            i += 1;
        } else if b[i] == 37 && n - i > 2 {
            match radix16_pair_value(b[i + 1], b[i + 2]) {
                Some(v) => {
                    out.push(v);
                    assert(before + pct_from(b@, i as nat) =~= out@ + pct_from(b@, (i + 3) as nat));
                    i += 3;
                },
                None => {
                    out.push(b[i]);
                    assert(before + pct_from(b@, i as nat) =~= out@ + pct_from(b@, (i + 1) as nat));
                    i += 1;
                },
            }
        } else {
            out.push(b[i]);
            assert(before + pct_from(b@, i as nat) =~= out@ + pct_from(b@, (i + 1) as nat));
            i += 1;
        }
    }
    assert(pct_from(b@, n as nat) =~= Seq::<u8>::empty());
    assert(out@ =~= pct_from(b@, 0));
    from_utf8_lossy(out.as_slice())
}

/// Position of the first `c`.
pub open spec fn index_of(s: Seq<char>, c: char) -> Option<int>
    decreases s.len(),
{
    if s.len() == 0 {
        None
    } else {
        match index_of(s.drop_last(), c) {
            Some(k) => Some(k),
            None => if s.last() == c { Some(s.len() - 1) } else { None },
        }
    }
}

/// `key=value` split at the first `=`; without one the value is empty.
pub open spec fn split_pair(p: Seq<char>) -> (Seq<char>, Seq<char>) {
    match index_of(p, '=') {
        Some(k) => (p.subrange(0, k), p.subrange(k + 1, p.len() as int)),
        None => (p, Seq::empty()),
    }
}

/// The non-empty `&`-separated pieces of a query.
pub open spec fn query_pieces(q: Seq<char>) -> Seq<Seq<char>>
    decreases q.len(),
{
    nonempty(char_pieces(q, '&'))
}

pub open spec fn nonempty(ps: Seq<Seq<char>>) -> Seq<Seq<char>>
    decreases ps.len(),
{
    if ps.len() == 0 {
        Seq::empty()
    } else if ps.last().len() == 0 {
        nonempty(ps.drop_last())
    } else {
        nonempty(ps.drop_last()).push(ps.last())
    }
}

/// The decoded `(key, value)` pairs of a query, in order.
pub open spec fn spec_query_pairs(q: Seq<char>) -> Seq<(Seq<char>, Seq<char>)> {
    Seq::new(
        query_pieces(q).len(),
        |i: int|
            (
                utf8_lossy(pct_from(encode_utf8(split_pair(query_pieces(q)[i]).0), 0)),
                utf8_lossy(pct_from(encode_utf8(split_pair(query_pieces(q)[i]).1), 0)),
            ),
    )
}

pub open spec fn pair_views(v: Seq<(String, String)>) -> Seq<(Seq<char>, Seq<char>)> {
    Seq::new(v.len(), |i: int| (v[i].0@, v[i].1@))
}

fn split_at_eq(p: &str) -> (r: (String, String))
    ensures
        r.0@ == split_pair(p@).0,
        r.1@ == split_pair(p@).1,
{
    let v = chars_vec(p);
    let mut k: usize = 0;
    while k < v.len() && v[k] != '='
        invariant
            v@ == p@,
            k <= v@.len(),
            index_of(v@.subrange(0, k as int), '=') is None,
        decreases v@.len() - k,
    {
        assert(v@.subrange(0, k + 1).drop_last() =~= v@.subrange(0, k as int));
        k += 1;
    }
    if k < v.len() {
        assert(v@.subrange(0, k + 1).drop_last() =~= v@.subrange(0, k as int));
        assert(index_of(v@.subrange(0, k + 1), '=') == Some(k as int));
        proof {
            lemma_index_of_prefix(v@, (k + 1) as int);
        }
        let key = string_from_chars(slice_chars(&v, 0, k).as_slice());
        let val = string_from_chars(slice_chars(&v, k + 1, v.len()).as_slice());
        (key, val)
    } else {
        assert(v@.subrange(0, k as int) =~= v@);
        (string_from_chars(v.as_slice()), String::new())
    }
}

proof fn lemma_index_of_prefix(s: Seq<char>, k: int)
    requires
        0 <= k <= s.len(),
        index_of(s.subrange(0, k), '=') is Some,
    ensures
        index_of(s, '=') == index_of(s.subrange(0, k), '='),
    decreases s.len() - k,
{
    if k < s.len() {
        assert(s.subrange(0, k + 1).drop_last() =~= s.subrange(0, k));
        lemma_index_of_prefix(s, k + 1);
    } else {
        assert(s.subrange(0, k) =~= s);
    }
}

fn slice_chars(v: &Vec<char>, from: usize, to: usize) -> (r: Vec<char>)
    requires
        from <= to <= v@.len(),
    ensures
        r@ == v@.subrange(from as int, to as int),
{
    let mut r: Vec<char> = Vec::new();
    let mut i: usize = from;
    while i < to
        invariant
            from <= i <= to,
            to <= v@.len(),
            r@ == v@.subrange(from as int, i as int),
        decreases to - i,
    {
        r.push(v[i]);
        i += 1;
    }
    r
}

/// The decoded parameters of a query string, in order; a later repeat of
/// a key is the one that counts (see `query_param`).
pub fn parse_query(query: &str) -> (pairs: Vec<(String, String)>)
    ensures
        pair_views(pairs@) == spec_query_pairs(query@),
{
    let pieces = split_on_char(query, '&');
    let ghost all = views(pieces@);
    let ghost qp = query_pieces(query@);
    let mut out: Vec<(String, String)> = Vec::new();
    let mut i: usize = 0;
    while i < pieces.len()
        invariant
            all == views(pieces@),
            all == char_pieces(query@, '&'),
            qp == query_pieces(query@),
            i <= pieces@.len(),
            nonempty(all.subrange(0, i as int)).len() == out@.len(),
            forall|k: int|
                0 <= k < out@.len() ==> pair_views(out@)[k] == (
                    utf8_lossy(pct_from(encode_utf8(split_pair(#[trigger] nonempty(all.subrange(0, i as int))[k]).0), 0)),
                    utf8_lossy(pct_from(encode_utf8(split_pair(nonempty(all.subrange(0, i as int))[k]).1), 0)),
                ),
            forall|k: int| 0 <= k < nonempty(all.subrange(0, i as int)).len() ==> #[trigger] nonempty(all.subrange(0, i as int))[k] == qp[k],
            nonempty(all.subrange(0, i as int)).len() <= qp.len(),
        decreases pieces@.len() - i,
    {
        let ghost prev = nonempty(all.subrange(0, i as int));
        proof {
            assert(all.subrange(0, i + 1).drop_last() =~= all.subrange(0, i as int));
            lemma_nonempty_prefix(all, i + 1);
        }
        if !pieces[i].as_str().is_empty() {
            let (k, v) = split_at_eq(pieces[i].as_str());
            let ghost cur = nonempty(all.subrange(0, i + 1));
            proof {
                assert(cur == prev.push(pieces@[i as int]@));
                assert(cur[prev.len() as int] == qp[prev.len() as int]);
            }
            let dk = percent_decode(k.as_str());
            let dv = percent_decode(v.as_str());
            let ghost before = out@;
            out.push((dk, dv));
            proof {
                assert forall|j: int| 0 <= j < out@.len() implies pair_views(out@)[j] == (
                    utf8_lossy(pct_from(encode_utf8(split_pair(#[trigger] cur[j]).0), 0)),
                    utf8_lossy(pct_from(encode_utf8(split_pair(cur[j]).1), 0)),
                ) by {
                    if j < before.len() {
                        assert(out@[j] == before[j]);
                        assert(cur[j] == prev[j]);
                        assert(pair_views(before)[j] == pair_views(out@)[j]);
                    }
                }
            }
        } else {
            proof {
                assert(nonempty(all.subrange(0, i + 1)) == prev);
            }
        }
        i += 1;
    }
    proof {
        assert(all.subrange(0, pieces@.len() as int) =~= all);
        assert(pair_views(out@) =~= spec_query_pairs(query@));
    }
    out
}

proof fn lemma_nonempty_prefix(all: Seq<Seq<char>>, k: int)
    requires
        0 <= k <= all.len(),
    ensures
        nonempty(all.subrange(0, k)).len() <= nonempty(all).len(),
        forall|j: int| 0 <= j < nonempty(all.subrange(0, k)).len() ==> #[trigger] nonempty(all.subrange(0, k))[j] == nonempty(all)[j],
    decreases all.len() - k,
{
    if k < all.len() {
        lemma_nonempty_prefix(all, k + 1);
        assert(all.subrange(0, k + 1).drop_last() =~= all.subrange(0, k));
        let a = nonempty(all.subrange(0, k));
        let b = nonempty(all.subrange(0, k + 1));
        assert forall|j: int| 0 <= j < a.len() implies #[trigger] a[j] == nonempty(all)[j] by {
            assert(b[j] == a[j]);
        }
    } else {
        assert(all.subrange(0, k) =~= all);
    }
}

/// The value of the last parameter named `key`.
pub open spec fn spec_query_param(pairs: Seq<(Seq<char>, Seq<char>)>, key: Seq<char>) -> Option<Seq<char>>
    decreases pairs.len(),
{
    if pairs.len() == 0 {
        None
    } else if pairs.last().0 == key {
        Some(pairs.last().1)
    } else {
        spec_query_param(pairs.drop_last(), key)
    }
}

pub fn query_param(pairs: &Vec<(String, String)>, key: &str) -> (r: Option<String>)
    ensures
        match r {
            Some(v) => spec_query_param(pair_views(pairs@), key@) == Some(v@),
            None => spec_query_param(pair_views(pairs@), key@) is None,
        },
{
    let mut i: usize = pairs.len();
    assert(pair_views(pairs@).subrange(0, pairs@.len() as int) =~= pair_views(pairs@));
    while i > 0
        invariant
            i <= pairs@.len(),
            spec_query_param(pair_views(pairs@), key@) == spec_query_param(pair_views(pairs@).subrange(0, i as int), key@),
        decreases i,
    {
        let ghost pre = pair_views(pairs@).subrange(0, i as int);
        assert(pre.drop_last() =~= pair_views(pairs@).subrange(0, i - 1));
        if str_eq(pairs[i - 1].0.as_str(), key) {
            return Some(crate::text::to_owned_string(pairs[i - 1].1.as_str()));
        }
        i -= 1;
    }
    None
}

/// The first line of a request: up to the first line feed, without a
/// carriage return before it; `None` for an empty request.
pub open spec fn first_line(s: Seq<char>) -> Option<Seq<char>> {
    if s.len() == 0 {
        None
    } else {
        match index_of(s, '\n') {
            Some(k) => if k > 0 && s[k - 1] == '\r' {
                Some(s.subrange(0, k - 1))
            } else {
                Some(s.subrange(0, k))
            },
            None => Some(s),
        }
    }
}

/// The query of a request target: what follows the first `?`, up to a
/// second one.
pub open spec fn target_query(path: Seq<char>) -> Seq<char> {
    if char_pieces(path, '?').len() > 1 {
        char_pieces(path, '?')[1]
    } else {
        Seq::empty()
    }
}

/// The query string of a callback request, once it has a request line
/// and a target.
pub open spec fn callback_query(request: Seq<char>) -> Option<Seq<char>> {
    match first_line(request) {
        Some(line) => if words(line).len() > 1 { Some(target_query(words(line)[1])) } else { None },
        None => None,
    }
}

/// The page shown in the browser after the callback.
pub open spec fn callback_page(body: Seq<char>) -> Seq<char> {
    "HTTP/1.1 200 OK\r\nContent-Type: text/html; charset=utf-8\r\nConnection: close\r\n\r\n<html><body style=\"font-family: sans-serif; padding: 24px; background: #1f1f21; color: #f5f2e8;\">"@
        + body + "</body></html>"@
}

/// What the callback gives: the page to answer with (none when the request
/// could not be read) and the authorization code or the error.
pub struct OAuthCallback {
    pub response: Option<String>,
    pub result: Result<String, ParaError>,
}

fn first_line_of(request: &str) -> (r: Option<String>)
    ensures
        match r {
            Some(l) => first_line(request@) == Some(l@),
            None => first_line(request@) is None,
        },
{
    let v = chars_vec(request);
    if v.len() == 0 {
        return None;
    }
    let mut k: usize = 0;
    while k < v.len() && v[k] != '\n'
        invariant
            v@ == request@,
            k <= v@.len(),
            index_of(v@.subrange(0, k as int), '\n') is None,
        decreases v@.len() - k,
    {
        assert(v@.subrange(0, k + 1).drop_last() =~= v@.subrange(0, k as int));
        k += 1;
    }
    if k < v.len() {
        assert(v@.subrange(0, k + 1).drop_last() =~= v@.subrange(0, k as int));
        assert(index_of(v@.subrange(0, k + 1), '\n') == Some(k as int));
        proof {
            lemma_index_of_prefix_c(v@, (k + 1) as int, '\n');
        }
        let end = if k > 0 && v[k - 1] == '\r' { k - 1 } else { k };
        Some(string_from_chars(slice_chars(&v, 0, end).as_slice()))
    } else {
        assert(v@.subrange(0, k as int) =~= v@);
        Some(string_from_chars(v.as_slice()))
    }
}

proof fn lemma_index_of_prefix_c(s: Seq<char>, k: int, c: char)
    requires
        0 <= k <= s.len(),
        index_of(s.subrange(0, k), c) is Some,
    ensures
        index_of(s, c) == index_of(s.subrange(0, k), c),
    decreases s.len() - k,
{
    if k < s.len() {
        assert(s.subrange(0, k + 1).drop_last() =~= s.subrange(0, k));
        lemma_index_of_prefix_c(s, k + 1, c);
    } else {
        assert(s.subrange(0, k) =~= s);
    }
}

/// The query of a callback request, if it has a request line and target.
pub fn callback_query_of(request: &str) -> (r: Option<String>)
    ensures
        match r {
            Some(q) => callback_query(request@) == Some(q@),
            None => callback_query(request@) is None,
        },
{
    match first_line_of(request) {
        Some(line) => {
            let ws = split_whitespace(line.as_str());
            if ws.len() > 1 {
                assert(views(ws@)[1] == ws@[1]@);
                let parts = split_on_char(ws[1].as_str(), '?');
                if parts.len() > 1 {
                    assert(views(parts@)[1] == parts@[1]@);
                    Some(crate::text::to_owned_string(parts[1].as_str()))
                } else {
                    Some(String::new())
                }
            } else {
                None
            }
        },
        None => None,
    }
}

/// Reads the browser's callback request to the local listener: answers
/// with a page saying whether sign-in worked, and gives the authorization
/// code when the request carries no error, the expected state and a code.
pub fn oauth_callback(request: &str, expected_state: &str) -> (r: OAuthCallback)
    ensures
        first_line(request@) is None ==> r.response is None && match r.result {
            Err(ParaError::Other(m)) => m@ == "oauth callback missing request line"@,
            _ => false,
        },
        first_line(request@) is Some && callback_query(request@) is None ==> r.response is None && match r.result {
            Err(ParaError::Other(m)) => m@ == "oauth callback missing path"@,
            _ => false,
        },
        callback_query(request@) matches Some(q) ==> {
            let params = spec_query_pairs(q);
            let error = spec_query_param(params, "error"@);
            let state = spec_query_param(params, "state"@);
            let code = spec_query_param(params, "code"@);
            &&& match r.response {
                Some(page) => page@ == callback_page(
                    match error {
                        Some(e) => "Authentication failed: "@ + e,
                        None => "You can close this window and return to Audire."@,
                    },
                ),
                None => false,
            }
            &&& match r.result {
                Ok(c) => error is None && state == Some(expected_state@) && code == Some(c@),
                Err(ParaError::Other(m)) => match error {
                    Some(e) => m@ == "oauth failed: "@ + e,
                    None => match state {
                        None => m@ == "oauth callback missing state"@,
                        Some(s) => if s != expected_state@ {
                            m@ == "oauth callback state mismatch"@
                        } else {
                            code is None && m@ == "oauth callback missing code"@
                        },
                    },
                },
                Err(_) => false,
            }
        },
{
    let line = first_line_of(request);
    if line.is_none() {
        return OAuthCallback {
            response: None,
            result: Err(ParaError::Other(String::from_str("oauth callback missing request line"))),
        };
    }
    let query = match callback_query_of(request) {
        Some(q) => q,
        None => {
            return OAuthCallback {
                response: None,
                result: Err(ParaError::Other(String::from_str("oauth callback missing path"))),
            };
        },
    };
    let params = parse_query(query.as_str());
    let error = query_param(&params, "error");
    let body = match &error {
        Some(e) => {
            let mut b = String::from_str("Authentication failed: ");
            b.append(e.as_str());
            b
        },
        None => String::from_str("You can close this window and return to Audire."),
    };
    let mut page = String::from_str(
        "HTTP/1.1 200 OK\r\nContent-Type: text/html; charset=utf-8\r\nConnection: close\r\n\r\n<html><body style=\"font-family: sans-serif; padding: 24px; background: #1f1f21; color: #f5f2e8;\">",
    );
    page.append(body.as_str());
    page.append("</body></html>");
    let result = match error {
        Some(e) => {
            let mut m = String::from_str("oauth failed: ");
            m.append(e.as_str());
            Err(ParaError::Other(m))
        },
        None => match query_param(&params, "state") {
            None => Err(ParaError::Other(String::from_str("oauth callback missing state"))),
            Some(s) => {
                if !str_eq(s.as_str(), expected_state) {
                    Err(ParaError::Other(String::from_str("oauth callback state mismatch")))
                } else {
                    match query_param(&params, "code") {
                        Some(c) => Ok(c),
                        None => Err(ParaError::Other(String::from_str("oauth callback missing code"))),
                    }
                }
            },
        },
    };
    OAuthCallback { response: Some(page), result }
}

// ---- Decoding what URL-encoding produced ----

/// The bytes of one URL-encoded byte.
spec fn unit_bytes(x: u8) -> Seq<u8> {
    if unreserved(x) {
        seq![x]
    } else {
        seq![37u8, hex_upper(x as int / 16) as u8, hex_upper(x as int % 16) as u8]
    }
}

proof fn lemma_encode_concat(a: Seq<char>, b: Seq<char>)
    ensures
        encode_utf8(a + b) == encode_utf8(a) + encode_utf8(b),
    decreases a.len(),
{
    if a.len() == 0 {
        assert(a + b =~= b);
        assert(encode_utf8(a) =~= Seq::<u8>::empty());
        assert(encode_utf8(a) + encode_utf8(b) =~= encode_utf8(b));
    } else {
        assert((a + b).drop_first() =~= a.drop_first() + b);
        assert((a + b)[0] == a[0]);
        lemma_encode_concat(a.drop_first(), b);
        assert(encode_utf8(a + b) =~= encode_scalar(a[0] as u32) + (encode_utf8(a.drop_first()) + encode_utf8(b)));
        assert(encode_utf8(a) + encode_utf8(b) =~= encode_scalar(a[0] as u32) + (encode_utf8(a.drop_first()) + encode_utf8(b)));
    }
}

proof fn lemma_hex_upper(d: int)
    requires
        0 <= d < 16,
    ensures
        (hex_upper(d) as u32) < 128,
        hex_upper(d) as u8 != 43,
        hex_byte_val(hex_upper(d) as u8) == Some(d as nat),
        (((hex_upper(d) as u8) as u32) as char) == hex_upper(d),
{
    let c = hex_upper(d);
    if d < 10 {
        assert((c as u32) == 48 + d);
    } else {
        assert((c as u32) == 55 + d);
    }
    assert(((c as u8) as u32) == (c as u32));
    vstd::utf8::char_u32_cast(c, c as u32);
}

proof fn lemma_unit_chars(x: u8)
    ensures
        is_ascii_chars(if unreserved(x) {
            seq![(x as u32) as char]
        } else {
            seq!['%', hex_upper(x as int / 16), hex_upper(x as int % 16)]
        }),
        encode_utf8(if unreserved(x) {
            seq![(x as u32) as char]
        } else {
            seq!['%', hex_upper(x as int / 16), hex_upper(x as int % 16)]
        }) == unit_bytes(x),
{
    broadcast use is_ascii_chars_encode_utf8;
    let u = if unreserved(x) {
        seq![(x as u32) as char]
    } else {
        seq!['%', hex_upper(x as int / 16), hex_upper(x as int % 16)]
    };
    if unreserved(x) {
        assert(((x as u32) as char) as u32 == x as u32);
        assert(is_ascii_chars(u));
        assert(encode_utf8(u)[0] == ((x as u32) as char) as u8);
        assert(encode_utf8(u) =~= unit_bytes(x));
    } else {
        lemma_hex_upper(x as int / 16);
        lemma_hex_upper(x as int % 16);
        assert(('%' as u32) == 37);
        assert(is_ascii_chars(u));
        assert(encode_utf8(u)[0] == '%' as u8);
        assert(encode_utf8(u)[1] == hex_upper(x as int / 16) as u8);
        assert(encode_utf8(u)[2] == hex_upper(x as int % 16) as u8);
        assert(encode_utf8(u) =~= unit_bytes(x));
    }
}

proof fn lemma_url_ascii(b: Seq<u8>)
    ensures
        is_ascii_chars(url_encoded(b)),
    decreases b.len(),
{
    if b.len() > 0 {
        lemma_url_ascii(b.drop_last());
        lemma_unit_chars(b.last());
        let u = if unreserved(b.last()) {
            seq![(b.last() as u32) as char]
        } else {
            seq!['%', hex_upper(b.last() as int / 16), hex_upper(b.last() as int % 16)]
        };
        assert(url_encoded(b) =~= url_encoded(b.drop_last()) + u);
        is_ascii_chars_concat(url_encoded(b), url_encoded(b.drop_last()), u);
    }
}

proof fn lemma_url_bytes(b: Seq<u8>)
    ensures
        b.len() > 0 ==> encode_utf8(url_encoded(b)) == encode_utf8(url_encoded(b.drop_last())) + unit_bytes(b.last()),
{
    if b.len() > 0 {
        let u = if unreserved(b.last()) {
            seq![(b.last() as u32) as char]
        } else {
            seq!['%', hex_upper(b.last() as int / 16), hex_upper(b.last() as int % 16)]
        };
        assert(url_encoded(b) =~= url_encoded(b.drop_last()) + u);
        lemma_encode_concat(url_encoded(b.drop_last()), u);
        lemma_unit_chars(b.last());
    }
}

/// Decoding from an offset into the second of two byte runs looks only at
/// the second run.
proof fn lemma_pct_shift(p: Seq<u8>, y: Seq<u8>, j: nat)
    requires
        j <= y.len(),
    ensures
        pct_from(p + y, (p.len() + j) as nat) == pct_from(y, j),
    decreases y.len() - j,
{
    let q = p + y;
    let i = (p.len() + j) as nat;
    if j < y.len() {
        assert(q[i as int] == y[j as int]);
        lemma_pct_shift(p, y, j + 1);
        assert((p.len() + (j + 1)) as nat == i + 1);
        if j + 2 < y.len() {
            assert(q[i + 1int] == y[j + 1int]);
            assert(q[i + 2int] == y[j + 2int]);
            lemma_pct_shift(p, y, j + 3);
            assert((p.len() + (j + 3)) as nat == i + 3);
        }
    }
}

proof fn lemma_pct_unit(x: u8, y: Seq<u8>)
    ensures
        pct_from(unit_bytes(x) + y, 0) == seq![x] + pct_from(y, 0),
{
    let u = unit_bytes(x);
    let q = u + y;
    lemma_pct_shift(u, y, 0);
    if unreserved(x) {
        assert(q[0] == x);
        assert(pct_from(q, 0) == seq![x] + pct_from(q, 1));
    } else {
        lemma_hex_upper(x as int / 16);
        lemma_hex_upper(x as int % 16);
        assert(q[0] == 37u8);
        assert(q[1] == hex_upper(x as int / 16) as u8);
        assert(q[2] == hex_upper(x as int % 16) as u8);
        assert(pair_val(q[1], q[2]) == Some(x));
        assert(radix16_pair(q[1], q[2]) == Some(x));
        assert(pct_from(q, 0) == seq![x] + pct_from(q, 3));
    }
}

proof fn lemma_pct_url(b: Seq<u8>, y: Seq<u8>)
    ensures
        pct_from(encode_utf8(url_encoded(b)) + y, 0) == b + pct_from(y, 0),
    decreases b.len(),
{
    if b.len() == 0 {
        assert(encode_utf8(url_encoded(b)) =~= Seq::<u8>::empty());
        assert(encode_utf8(url_encoded(b)) + y =~= y);
        assert(b + pct_from(y, 0) =~= pct_from(y, 0));
    } else {
        let p = b.drop_last();
        let x = b.last();
        lemma_url_bytes(b);
        let rest = unit_bytes(x) + y;
        assert(encode_utf8(url_encoded(b)) + y =~= encode_utf8(url_encoded(p)) + rest);
        lemma_pct_url(p, rest);
        lemma_pct_unit(x, y);
        assert(p + (seq![x] + pct_from(y, 0)) =~= b + pct_from(y, 0));
    }
}

/// What the calendar sign-in URL-encodes, the callback decoding gives back:
/// the encoded text of any string decodes to the string's UTF-8 bytes, and
/// those bytes read back as the string.
pub proof fn law_url_decode_round_trip(s: Seq<char>)
    ensures
        pct_from(encode_utf8(url_encoded(encode_utf8(s))), 0) == encode_utf8(s),
        valid_utf8(encode_utf8(s)),
        decode_utf8(encode_utf8(s)) == s,
{
    broadcast use vstd::utf8::encode_utf8_valid_utf8, vstd::utf8::encode_utf8_decode_utf8;
    let b = encode_utf8(s);
    lemma_pct_url(b, Seq::empty());
    assert(encode_utf8(url_encoded(b)) + Seq::<u8>::empty() =~= encode_utf8(url_encoded(b)));
    assert(b + pct_from(Seq::<u8>::empty(), 0) =~= b);
}

} // verus!
