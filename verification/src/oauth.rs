//! Calendar accounts: sign-in addresses and token requests, where a
//! provider's settings and tokens are kept, and how provider events become
//! upcoming-event rows.

use vstd::prelude::*;
use vstd::utf8::encode_utf8;
use vstd::string::*;
use crate::calendar::pair_views;
use crate::error::ParaError;
use crate::keys::{KeyVault, pick_key};
use crate::text::{str_eq, trim, trim_seq, to_owned_string, u64_to_decimal, dec_digits, contains_seq, starts_with_seq, lemma_contains_self, lemma_contains_concat};
use base64::Engine;

verus! {

// ---- Percent-encoding of URL components ----

/// Bytes left as they are: ASCII letters and digits and `-._~`.
pub open spec fn unreserved(b: u8) -> bool {
    (48 <= b <= 57) || (65 <= b <= 90) || (97 <= b <= 122) || b == 45 || b == 46 || b == 95 || b == 126
}

/// Upper-case hex digit of a value below sixteen.
pub open spec fn hex_upper(d: int) -> char {
    if d < 10 { ((48 + d) as u32) as char } else { ((55 + d) as u32) as char }
}

/// URL-encoding of bytes: unreserved bytes as themselves, every other
/// byte as `%` and two upper-case hex digits.
pub open spec fn url_encoded(b: Seq<u8>) -> Seq<char>
    decreases b.len(),
{
    if b.len() == 0 {
        Seq::empty()
    } else {
        url_encoded(b.drop_last()) + if unreserved(b.last()) {
            seq![(b.last() as u32) as char]
        } else {
            seq!['%', hex_upper(b.last() as int / 16), hex_upper(b.last() as int % 16)]
        }
    }
}

/// `urlencoding::encode`: every byte of the text's UTF-8 except ASCII
/// letters, digits and `-._~` becomes `%` and two upper-case hex digits.
#[verifier::external_body]
fn url_encode(s: &str) -> (r: String)
    ensures
        r@ == url_encoded(encode_utf8(s@)),
{
    urlencoding::encode(s).into_owned()
}

// ---- Sign-in addresses ----

pub open spec fn google_scope() -> Seq<char> {
    "openid email profile https://www.googleapis.com/auth/calendar.readonly"@
}

pub open spec fn microsoft_scope() -> Seq<char> {
    "offline_access openid profile email User.Read Calendars.Read"@
}

pub open spec fn enc(s: Seq<char>) -> Seq<char> {
    url_encoded(encode_utf8(s))
}

/// Address the browser is sent back to after sign-in.
pub open spec fn spec_redirect_uri(port: u16, provider: Seq<char>) -> Seq<char> {
    "http://127.0.0.1:"@ + dec_digits(port as nat) + "/"@ + provider + "/callback"@
}

pub fn redirect_uri(port: u16, provider: &str) -> (r: String)
    ensures
        r@ == spec_redirect_uri(port, provider@),
{
    let mut r = String::from_str("http://127.0.0.1:");
    let p = u64_to_decimal(port as u64);
    r.append(p.as_str());
    r.append("/");
    r.append(provider);
    r.append("/callback");
    r
}

/// Google's sign-in address for a PKCE authorization-code request.
pub open spec fn spec_google_auth_url(client_id: Seq<char>, redirect: Seq<char>, state: Seq<char>, challenge: Seq<char>) -> Seq<char> {
    "https://accounts.google.com/o/oauth2/v2/auth?client_id="@ + enc(client_id) + "&redirect_uri="@ + enc(redirect)
        + "&response_type=code&scope="@ + enc(google_scope()) + "&access_type=offline&prompt=consent&state="@
        + enc(state) + "&code_challenge="@ + enc(challenge) + "&code_challenge_method=S256"@
}

pub fn google_auth_url(client_id: &str, redirect: &str, state: &str, challenge: &str) -> (r: String)
    ensures
        r@ == spec_google_auth_url(client_id@, redirect@, state@, challenge@),
{
    let mut u = String::from_str("https://accounts.google.com/o/oauth2/v2/auth?client_id=");
    u.append(url_encode(client_id).as_str());
    u.append("&redirect_uri=");
    u.append(url_encode(redirect).as_str());
    u.append("&response_type=code&scope=");
    u.append(url_encode("openid email profile https://www.googleapis.com/auth/calendar.readonly").as_str());
    u.append("&access_type=offline&prompt=consent&state=");
    u.append(url_encode(state).as_str());
    u.append("&code_challenge=");
    u.append(url_encode(challenge).as_str());
    u.append("&code_challenge_method=S256");
    u
}

/// Microsoft's sign-in address for a PKCE authorization-code request.
pub open spec fn spec_microsoft_auth_url(
    tenant: Seq<char>,
    client_id: Seq<char>,
    redirect: Seq<char>,
    state: Seq<char>,
    challenge: Seq<char>,
) -> Seq<char> {
    "https://login.microsoftonline.com/"@ + enc(tenant) + "/oauth2/v2.0/authorize?client_id="@ + enc(client_id)
        + "&response_type=code&redirect_uri="@ + enc(redirect) + "&response_mode=query&scope="@ + enc(
        microsoft_scope(),
    ) + "&state="@ + enc(state) + "&code_challenge="@ + enc(challenge) + "&code_challenge_method=S256"@
}

pub fn microsoft_auth_url(tenant: &str, client_id: &str, redirect: &str, state: &str, challenge: &str) -> (r: String)
    ensures
        r@ == spec_microsoft_auth_url(tenant@, client_id@, redirect@, state@, challenge@),
{
    let mut u = String::from_str("https://login.microsoftonline.com/");
    u.append(url_encode(tenant).as_str());
    u.append("/oauth2/v2.0/authorize?client_id=");
    u.append(url_encode(client_id).as_str());
    u.append("&response_type=code&redirect_uri=");
    u.append(url_encode(redirect).as_str());
    u.append("&response_mode=query&scope=");
    u.append(url_encode("offline_access openid profile email User.Read Calendars.Read").as_str());
    u.append("&state=");
    u.append(url_encode(state).as_str());
    u.append("&code_challenge=");
    u.append(url_encode(challenge).as_str());
    u.append("&code_challenge_method=S256");
    u
}

/// A character that cannot end or split a query parameter: not `&`, `=`,
/// `?` or `#`.
pub open spec fn param_safe(c: char) -> bool {
    c != '&' && c != '=' && c != '?' && c != '#'
}

/// URL-encoding yields only unreserved characters and `%XX` escapes, so an
/// encoded component never holds a character that ends or splits a query
/// parameter.
pub proof fn lemma_url_encoded_param_safe(b: Seq<u8>)
    ensures
        forall|i: int| 0 <= i < url_encoded(b).len() ==> param_safe(#[trigger] url_encoded(b)[i]),
    decreases b.len(),
{
    if b.len() > 0 {
        lemma_url_encoded_param_safe(b.drop_last());
        let x = b.last();
        let prev = url_encoded(b.drop_last());
        let unit = if unreserved(x) {
            seq![(x as u32) as char]
        } else {
            seq!['%', hex_upper(x as int / 16), hex_upper(x as int % 16)]
        };
        assert(url_encoded(b) == prev + unit);
        if unreserved(x) {
            assert(((x as u32) as char) as u32 == x as u32);
        } else {
            let d1 = x as int / 16;
            let d2 = x as int % 16;
            assert((hex_upper(d1) as u32) == if d1 < 10 { 48 + d1 } else { 55 + d1 });
            assert((hex_upper(d2) as u32) == if d2 < 10 { 48 + d2 } else { 55 + d2 });
        }
        assert forall|i: int| 0 <= i < url_encoded(b).len() implies param_safe(#[trigger] url_encoded(b)[i]) by {
            if i < prev.len() {
                assert(url_encoded(b)[i] == prev[i]);
            } else {
                assert(url_encoded(b)[i] == unit[i - prev.len()]);
            }
        }
    }
}

proof fn lemma_occurs_between(a: Seq<char>, x: Seq<char>, b: Seq<char>)
    ensures
        contains_seq(a + x + b, x),
{
    lemma_contains_self(x);
    lemma_contains_concat(a, x, x);
    lemma_contains_concat(b, a + x, x);
}

/// Microsoft's sign-in address carries the request's parameters, each
/// URL-encoded between its name and the next `&`: the client id right
/// after `?`, the redirect address, the state the callback must echo, and
/// last the PKCE challenge with method S256. No encoded value holds a
/// character that would end or split its parameter.
pub proof fn law_microsoft_url_parameters(
    tenant: Seq<char>,
    client_id: Seq<char>,
    redirect: Seq<char>,
    state: Seq<char>,
    challenge: Seq<char>,
)
    ensures
        contains_seq(
            spec_microsoft_auth_url(tenant, client_id, redirect, state, challenge),
            "/oauth2/v2.0/authorize?client_id="@ + enc(client_id) + "&response_type=code&redirect_uri="@,
        ),
        contains_seq(
            spec_microsoft_auth_url(tenant, client_id, redirect, state, challenge),
            "&response_type=code&redirect_uri="@ + enc(redirect) + "&response_mode=query&scope="@,
        ),
        contains_seq(
            spec_microsoft_auth_url(tenant, client_id, redirect, state, challenge),
            "&state="@ + enc(state) + "&code_challenge="@,
        ),
        contains_seq(
            spec_microsoft_auth_url(tenant, client_id, redirect, state, challenge),
            "&code_challenge="@ + enc(challenge) + "&code_challenge_method=S256"@,
        ),
        forall|i: int| 0 <= i < enc(state).len() ==> param_safe(#[trigger] enc(state)[i]),
        forall|i: int| 0 <= i < enc(client_id).len() ==> param_safe(#[trigger] enc(client_id)[i]),
        forall|i: int| 0 <= i < enc(redirect).len() ==> param_safe(#[trigger] enc(redirect)[i]),
        forall|i: int| 0 <= i < enc(challenge).len() ==> param_safe(#[trigger] enc(challenge)[i]),
{
    let u = spec_microsoft_auth_url(tenant, client_id, redirect, state, challenge);
    let l0 = "https://login.microsoftonline.com/"@;
    let l1 = "/oauth2/v2.0/authorize?client_id="@;
    let l2 = "&response_type=code&redirect_uri="@;
    let l3 = "&response_mode=query&scope="@;
    let l4 = "&state="@;
    let l5 = "&code_challenge="@;
    let l6 = "&code_challenge_method=S256"@;
    let (t, c, r, sc, st, ch) = (enc(tenant), enc(client_id), enc(redirect), enc(microsoft_scope()), enc(state), enc(challenge));
    assert(u == l0 + t + l1 + c + l2 + r + l3 + sc + l4 + st + l5 + ch + l6);
    assert(u =~= (l0 + t) + (l1 + c + l2) + (r + l3 + sc + l4 + st + l5 + ch + l6)) by {
        lemma_concat_shapes_1(l0, t, l1, c, l2, r, l3, sc, l4, st, l5, ch, l6);
    }
    lemma_occurs_between(l0 + t, l1 + c + l2, r + l3 + sc + l4 + st + l5 + ch + l6);
    assert(u =~= (l0 + t + l1 + c) + (l2 + r + l3) + (sc + l4 + st + l5 + ch + l6)) by {
        lemma_concat_shapes_2(l0, t, l1, c, l2, r, l3, sc, l4, st, l5, ch, l6);
    }
    lemma_occurs_between(l0 + t + l1 + c, l2 + r + l3, sc + l4 + st + l5 + ch + l6);
    assert(u =~= (l0 + t + l1 + c + l2 + r + l3 + sc) + (l4 + st + l5) + (ch + l6)) by {
        lemma_concat_shapes_3(l0, t, l1, c, l2, r, l3, sc, l4, st, l5, ch, l6);
    }
    lemma_occurs_between(l0 + t + l1 + c + l2 + r + l3 + sc, l4 + st + l5, ch + l6);
    assert(u =~= (l0 + t + l1 + c + l2 + r + l3 + sc + l4 + st) + (l5 + ch + l6) + Seq::<char>::empty());
    lemma_occurs_between(l0 + t + l1 + c + l2 + r + l3 + sc + l4 + st, l5 + ch + l6, Seq::<char>::empty());
    lemma_url_encoded_param_safe(encode_utf8(state));
    lemma_url_encoded_param_safe(encode_utf8(client_id));
    lemma_url_encoded_param_safe(encode_utf8(redirect));
    lemma_url_encoded_param_safe(encode_utf8(challenge));
}

/// Google's sign-in address carries the request's parameters, each
/// URL-encoded between its name and the next `&`: the client id first
/// after `?`, the redirect address, the state the callback must echo, and
/// last the PKCE challenge with method S256.
pub proof fn law_google_url_parameters(client_id: Seq<char>, redirect: Seq<char>, state: Seq<char>, challenge: Seq<char>)
    ensures
        starts_with_seq(
            spec_google_auth_url(client_id, redirect, state, challenge),
            "https://accounts.google.com/o/oauth2/v2/auth?client_id="@ + enc(client_id) + "&redirect_uri="@,
        ),
        contains_seq(
            spec_google_auth_url(client_id, redirect, state, challenge),
            "&redirect_uri="@ + enc(redirect) + "&response_type=code&scope="@,
        ),
        contains_seq(
            spec_google_auth_url(client_id, redirect, state, challenge),
            "&access_type=offline&prompt=consent&state="@ + enc(state) + "&code_challenge="@,
        ),
        contains_seq(
            spec_google_auth_url(client_id, redirect, state, challenge),
            "&code_challenge="@ + enc(challenge) + "&code_challenge_method=S256"@,
        ),
        forall|i: int| 0 <= i < enc(state).len() ==> param_safe(#[trigger] enc(state)[i]),
{
    let u = spec_google_auth_url(client_id, redirect, state, challenge);
    let g0 = "https://accounts.google.com/o/oauth2/v2/auth?client_id="@;
    let g1 = "&redirect_uri="@;
    let g2 = "&response_type=code&scope="@;
    let g3 = "&access_type=offline&prompt=consent&state="@;
    let g4 = "&code_challenge="@;
    let g5 = "&code_challenge_method=S256"@;
    let (c, r, sc, st, ch) = (enc(client_id), enc(redirect), enc(google_scope()), enc(state), enc(challenge));
    let e = Seq::<char>::empty();
    assert(u == g0 + c + g1 + r + g2 + sc + g3 + st + g4 + ch + g5);
    assert(u.subrange(0, (g0 + c + g1).len() as int) =~= g0 + c + g1);
    assert(u =~= (g0 + c) + (g1 + r + g2) + (sc + g3 + st + g4 + ch + g5));
    lemma_occurs_between(g0 + c, g1 + r + g2, sc + g3 + st + g4 + ch + g5);
    assert(u =~= (g0 + c + g1 + r + g2 + sc) + (g3 + st + g4) + (ch + g5));
    lemma_occurs_between(g0 + c + g1 + r + g2 + sc, g3 + st + g4, ch + g5);
    assert(u =~= (g0 + c + g1 + r + g2 + sc + g3 + st) + (g4 + ch + g5) + e);
    lemma_occurs_between(g0 + c + g1 + r + g2 + sc + g3 + st, g4 + ch + g5, e);
    lemma_url_encoded_param_safe(encode_utf8(state));
}

proof fn lemma_concat_shapes_1(
    a0: Seq<char>, a1: Seq<char>, a2: Seq<char>, a3: Seq<char>, a4: Seq<char>, a5: Seq<char>, a6: Seq<char>,
    a7: Seq<char>, a8: Seq<char>, a9: Seq<char>, a10: Seq<char>, a11: Seq<char>, a12: Seq<char>,
)
    ensures
        a0 + a1 + a2 + a3 + a4 + a5 + a6 + a7 + a8 + a9 + a10 + a11 + a12 =~= (a0 + a1) + (a2 + a3 + a4) + (a5 + a6 + a7
            + a8 + a9 + a10 + a11 + a12),
{
}

proof fn lemma_concat_shapes_2(
    a0: Seq<char>, a1: Seq<char>, a2: Seq<char>, a3: Seq<char>, a4: Seq<char>, a5: Seq<char>, a6: Seq<char>,
    a7: Seq<char>, a8: Seq<char>, a9: Seq<char>, a10: Seq<char>, a11: Seq<char>, a12: Seq<char>,
)
    ensures
        a0 + a1 + a2 + a3 + a4 + a5 + a6 + a7 + a8 + a9 + a10 + a11 + a12 =~= (a0 + a1 + a2 + a3) + (a4 + a5 + a6) + (a7
            + a8 + a9 + a10 + a11 + a12),
{
}

proof fn lemma_concat_shapes_3(
    a0: Seq<char>, a1: Seq<char>, a2: Seq<char>, a3: Seq<char>, a4: Seq<char>, a5: Seq<char>, a6: Seq<char>,
    a7: Seq<char>, a8: Seq<char>, a9: Seq<char>, a10: Seq<char>, a11: Seq<char>, a12: Seq<char>,
)
    ensures
        a0 + a1 + a2 + a3 + a4 + a5 + a6 + a7 + a8 + a9 + a10 + a11 + a12 =~= (a0 + a1 + a2 + a3 + a4 + a5 + a6 + a7) + (a8
            + a9 + a10) + (a11 + a12),
{
}

/// Microsoft's token endpoint for a tenant.
pub open spec fn spec_microsoft_token_url(tenant: Seq<char>) -> Seq<char> {
    "https://login.microsoftonline.com/"@ + tenant + "/oauth2/v2.0/token"@
}

pub fn microsoft_token_url(tenant: &str) -> (r: String)
    ensures
        r@ == spec_microsoft_token_url(tenant@),
{
    let mut u = String::from_str("https://login.microsoftonline.com/");
    u.append(tenant);
    u.append("/oauth2/v2.0/token");
    u
}

// ---- PKCE ----

/// SHA-256 of a byte sequence.
pub uninterp spec fn sha256_of(data: Seq<u8>) -> Seq<u8>;

/// Unpadded URL-safe base64 of a byte sequence.
pub uninterp spec fn base64_url_nopad(data: Seq<u8>) -> Seq<char>;

/// `ring::digest::digest(&SHA256, data)`: the 32-byte digest.
#[verifier::external_body]
fn sha256(data: &[u8]) -> (d: Vec<u8>)
    ensures
        d@ == sha256_of(data@),
        d@.len() == 32,
{
    ring::digest::digest(&ring::digest::SHA256, data).as_ref().to_vec()
}

/// `base64::engine::general_purpose::URL_SAFE_NO_PAD.encode`.
#[verifier::external_body]
fn base64_url(data: &[u8]) -> (s: String)
    ensures
        s@ == base64_url_nopad(data@),
{
    base64::engine::general_purpose::URL_SAFE_NO_PAD.encode(data)
}

/// A fresh PKCE verifier: 32 random bytes, base64url-encoded; `None` when
/// the system's random source fails.
pub fn generate_code_verifier() -> (v: Option<String>)
    ensures
        v matches Some(s) ==> exists|b: Seq<u8>| b.len() == 32 && s@ == base64_url_nopad(b),
{
    match crate::crypto::random_array::<32>() {
        Ok(bytes) => {
            let s = base64_url(bytes.as_slice());
            assert(bytes@.len() == 32);
            Some(s)
        },
        Err(_) => None,
    }
}

/// The PKCE challenge of a verifier: base64url of its SHA-256.
pub fn generate_pkce_challenge(verifier: &str) -> (c: String)
    ensures
        c@ == base64_url_nopad(sha256_of(encode_utf8(verifier@))),
{
    let d = sha256(verifier.as_bytes());
    base64_url(d.as_slice())
}

// ---- Token requests ----

pub open spec fn secret_param(client_secret: Option<Seq<char>>) -> Seq<(Seq<char>, Seq<char>)> {
    match client_secret {
        Some(s) => if s.len() > 0 { seq![("client_secret"@, s)] } else { Seq::empty() },
        None => Seq::empty(),
    }
}

pub open spec fn opt_view(o: Option<&str>) -> Option<Seq<char>> {
    match o {
        Some(s) => Some(s@),
        None => None,
    }
}

fn param(k: &str, v: &str) -> (p: (String, String))
    ensures
        p.0@ == k@,
        p.1@ == v@,
{
    (String::from_str(k), String::from_str(v))
}

fn push_secret(params: &mut Vec<(String, String)>, client_secret: Option<&str>)
    ensures
        pair_views(final(params)@) == pair_views(old(params)@) + secret_param(opt_view(client_secret)),
{
    let ghost before = params@;
    match client_secret {
        Some(s) => {
            if !s.is_empty() {
                params.push(param("client_secret", s));
                assert(pair_views(params@) =~= pair_views(before) + secret_param(opt_view(client_secret)));
            } else {
                assert(pair_views(params@) =~= pair_views(before) + secret_param(opt_view(client_secret)));
            }
        },
        None => {
            assert(pair_views(params@) =~= pair_views(before) + secret_param(opt_view(client_secret)));
        },
    }
}

/// Form of Google's code exchange; the client secret is sent only when
/// one is set and not empty.
pub fn google_token_params(
    client_id: &str,
    code: &str,
    verifier: &str,
    redirect: &str,
    client_secret: Option<&str>,
) -> (p: Vec<(String, String)>)
    ensures
        pair_views(p@) == seq![
            ("client_id"@, client_id@),
            ("code"@, code@),
            ("code_verifier"@, verifier@),
            ("grant_type"@, "authorization_code"@),
            ("redirect_uri"@, redirect@),
        ] + secret_param(opt_view(client_secret)),
{
    let mut p: Vec<(String, String)> = Vec::new();
    p.push(param("client_id", client_id));
    p.push(param("code", code));
    p.push(param("code_verifier", verifier));
    p.push(param("grant_type", "authorization_code"));
    p.push(param("redirect_uri", redirect));
    let ghost base = p@;
    assert(pair_views(base) =~= seq![
        ("client_id"@, client_id@),
        ("code"@, code@),
        ("code_verifier"@, verifier@),
        ("grant_type"@, "authorization_code"@),
        ("redirect_uri"@, redirect@),
    ]);
    push_secret(&mut p, client_secret);
    p
}

/// Form of Google's token refresh.
pub fn google_refresh_params(client_id: &str, refresh_token: &str, client_secret: Option<&str>) -> (p: Vec<(String, String)>)
    ensures
        pair_views(p@) == seq![
            ("client_id"@, client_id@),
            ("grant_type"@, "refresh_token"@),
            ("refresh_token"@, refresh_token@),
        ] + secret_param(opt_view(client_secret)),
{
    let mut p: Vec<(String, String)> = Vec::new();
    p.push(param("client_id", client_id));
    p.push(param("grant_type", "refresh_token"));
    p.push(param("refresh_token", refresh_token));
    assert(pair_views(p@) =~= seq![
        ("client_id"@, client_id@),
        ("grant_type"@, "refresh_token"@),
        ("refresh_token"@, refresh_token@),
    ]);
    push_secret(&mut p, client_secret);
    p
}

/// Form of Microsoft's code exchange.
pub fn microsoft_token_params(client_id: &str, code: &str, redirect: &str, verifier: &str) -> (p: Vec<(String, String)>)
    ensures
        pair_views(p@) == seq![
            ("client_id"@, client_id@),
            ("grant_type"@, "authorization_code"@),
            ("code"@, code@),
            ("redirect_uri"@, redirect@),
            ("code_verifier"@, verifier@),
            ("scope"@, microsoft_scope()),
        ],
{
    let mut p: Vec<(String, String)> = Vec::new();
    p.push(param("client_id", client_id));
    p.push(param("grant_type", "authorization_code"));
    p.push(param("code", code));
    p.push(param("redirect_uri", redirect));
    p.push(param("code_verifier", verifier));
    p.push(param("scope", "offline_access openid profile email User.Read Calendars.Read"));
    assert(pair_views(p@) =~= seq![
        ("client_id"@, client_id@),
        ("grant_type"@, "authorization_code"@),
        ("code"@, code@),
        ("redirect_uri"@, redirect@),
        ("code_verifier"@, verifier@),
        ("scope"@, microsoft_scope()),
    ]);
    p
}

/// Form of Microsoft's token refresh.
pub fn microsoft_refresh_params(client_id: &str, refresh_token: &str) -> (p: Vec<(String, String)>)
    ensures
        pair_views(p@) == seq![
            ("client_id"@, client_id@),
            ("grant_type"@, "refresh_token"@),
            ("refresh_token"@, refresh_token@),
            ("scope"@, microsoft_scope()),
        ],
{
    let mut p: Vec<(String, String)> = Vec::new();
    p.push(param("client_id", client_id));
    p.push(param("grant_type", "refresh_token"));
    p.push(param("refresh_token", refresh_token));
    p.push(param("scope", "offline_access openid profile email User.Read Calendars.Read"));
    assert(pair_views(p@) =~= seq![
        ("client_id"@, client_id@),
        ("grant_type"@, "refresh_token"@),
        ("refresh_token"@, refresh_token@),
        ("scope"@, microsoft_scope()),
    ]);
    p
}

// ---- Tokens ----

/// A provider's tokens as kept in the credential store.
pub struct CalendarTokenBundle {
    pub access_token: String,
    pub refresh_token: Option<String>,
    pub expires_at: i64,
}

/// A token is used as it is while it has more than thirty seconds left.
pub fn token_is_fresh(expires_at: i64, now_secs: i64) -> (r: bool)
    ensures
        r == (expires_at > now_secs + 30),
{
    (expires_at as i128) > (now_secs as i128) + 30
}

/// When a token issued now for `expires_in` seconds is treated as expired:
/// thirty seconds early.
pub open spec fn spec_token_expiry(now_secs: int, expires_in: int) -> int {
    let early = if expires_in - 30 < i64::MIN { i64::MIN as int } else { expires_in - 30 };
    now_secs + early
}

pub fn token_expiry(now_secs: i64, expires_in: i64) -> (r: i64)
    requires
        -8_000_000_000_000 <= spec_token_expiry(now_secs as int, expires_in as int) <= 8_000_000_000_000,
    ensures
        r == spec_token_expiry(now_secs as int, expires_in as int),
{
    let early: i64 = if expires_in < i64::MIN + 30 { i64::MIN } else { expires_in - 30 };
    now_secs + early
}

/// Tokens after a refresh: the new access token and expiry; the refresh
/// token is replaced only when a new one was issued.
pub fn refreshed_bundle(
    old: CalendarTokenBundle,
    access_token: String,
    expires_at: i64,
    refresh_token: Option<String>,
) -> (b: CalendarTokenBundle)
    ensures
        b.access_token == access_token,
        b.expires_at == expires_at,
        b.refresh_token == (if refresh_token is Some { refresh_token } else { old.refresh_token }),
{
    let refresh = match refresh_token {
        Some(r) => Some(r),
        None => old.refresh_token,
    };
    CalendarTokenBundle { access_token, refresh_token: refresh, expires_at }
}

// ---- Provider settings in the credential store ----

/// Name under which a provider setting is stored.
pub open spec fn spec_secret_name(provider: Seq<char>, what: Seq<char>) -> Seq<char> {
    "calendar:"@ + provider + ":"@ + what
}

pub fn secret_name(provider: &str, what: &str) -> (r: String)
    ensures
        r@ == spec_secret_name(provider@, what@),
{
    let mut n = String::from_str("calendar:");
    n.append(provider);
    n.append(":");
    n.append(what);
    n
}

/// Environment variables that override a provider's settings: client
/// ID, client secret and (Microsoft only) tenant.
pub open spec fn spec_calendar_env_vars(provider: Seq<char>) -> Option<(Seq<char>, Seq<char>, Option<Seq<char>>)> {
    if provider == "google"@ {
        Some(("AUDIRE_GOOGLE_CALENDAR_CLIENT_ID"@, "AUDIRE_GOOGLE_CALENDAR_CLIENT_SECRET"@, None))
    } else if provider == "microsoft"@ {
        Some(("AUDIRE_MICROSOFT_CALENDAR_CLIENT_ID"@, "AUDIRE_MICROSOFT_CALENDAR_CLIENT_SECRET"@, Some("AUDIRE_MICROSOFT_CALENDAR_TENANT_ID"@)))
    } else {
        None
    }
}

pub fn calendar_env_vars(provider: &str) -> (r: Option<(&'static str, &'static str, Option<&'static str>)>)
    ensures
        match r {
            Some((a, b, c)) => spec_calendar_env_vars(provider@) == Some((a@, b@, opt_view(c))),
            None => spec_calendar_env_vars(provider@) is None,
        },
{
    if str_eq(provider, "google") {
        Some(("AUDIRE_GOOGLE_CALENDAR_CLIENT_ID", "AUDIRE_GOOGLE_CALENDAR_CLIENT_SECRET", None))
    } else if str_eq(provider, "microsoft") {
        Some(("AUDIRE_MICROSOFT_CALENDAR_CLIENT_ID", "AUDIRE_MICROSOFT_CALENDAR_CLIENT_SECRET", Some("AUDIRE_MICROSOFT_CALENDAR_TENANT_ID")))
    } else {
        None
    }
}

/// The values of a provider's environment variables, read by the caller.
pub struct CalendarEnv {
    pub client_id: Option<String>,
    pub client_secret: Option<String>,
    pub tenant_id: Option<String>,
}

/// A provider's OAuth client settings.
pub struct ProviderConfig {
    pub client_id: String,
    pub client_secret: Option<String>,
    pub tenant_id: Option<String>,
}

/// A provider's client settings: each from its environment variable when
/// set, else from the credential store. Without a client ID there are no
/// settings; Microsoft's tenant defaults to `common`.
pub fn get_provider_config(keyvault: &KeyVault, provider: &str, env: CalendarEnv) -> (r: Option<ProviderConfig>)
    ensures
        !(provider@ == "google"@ || provider@ == "microsoft"@) ==> r is None,
        (provider@ == "google"@ || provider@ == "microsoft"@) && env.client_id is Some ==> match r {
            Some(c) => c.client_id == env.client_id->0,
            None => false,
        },
        r matches Some(c) ==> (env.client_secret is Some ==> c.client_secret == env.client_secret),
        r matches Some(c) ==> (provider@ == "google"@ ==> c.tenant_id is None),
        r matches Some(c) ==> (provider@ == "microsoft"@ ==> c.tenant_id is Some && (env.tenant_id is Some
            ==> c.tenant_id == env.tenant_id)),
{
    proof {
        reveal_strlit("google");
        reveal_strlit("microsoft");
        assert("google"@.len() == 6);
        assert("microsoft"@.len() == 9);
        assert("google"@ != "microsoft"@);
    }
    let google = str_eq(provider, "google");
    let microsoft = str_eq(provider, "microsoft");
    if !google && !microsoft {
        return None;
    }
    let id_name = secret_name(provider, "client_id");
    let stored_id = if env.client_id.is_some() { None } else { keyvault.get_secret(id_name.as_str()) };
    let client_id = match pick_key(env.client_id, stored_id) {
        Some(id) => id,
        None => return None,
    };
    let secret_name_s = secret_name(provider, "client_secret");
    let stored_secret = if env.client_secret.is_some() { None } else { keyvault.get_secret(secret_name_s.as_str()) };
    let client_secret = pick_key(env.client_secret, stored_secret);
    let tenant_id = if microsoft {
        let tenant_name = secret_name(provider, "tenant_id");
        let stored_tenant = if env.tenant_id.is_some() { None } else { keyvault.get_secret(tenant_name.as_str()) };
        match pick_key(env.tenant_id, stored_tenant) {
            Some(t) => Some(t),
            None => Some(String::from_str("common")),
        }
    } else {
        None
    };
    Some(ProviderConfig { client_id, client_secret, tenant_id })
}

/// A change to the credential store.
pub enum SecretWrite {
    Put { name: String, value: String },
    Delete { name: String },
}

pub open spec fn write_view(w: SecretWrite) -> (bool, Seq<char>, Seq<char>) {
    match w {
        SecretWrite::Put { name, value } => (true, name@, value@),
        SecretWrite::Delete { name } => (false, name@, Seq::empty()),
    }
}

pub open spec fn write_views(ws: Seq<SecretWrite>) -> Seq<(bool, Seq<char>, Seq<char>)> {
    Seq::new(ws.len(), |i: int| write_view(ws[i]))
}

/// The changes saving a provider's client settings makes: the trimmed
/// client ID; the trimmed secret when one is given and not blank, the
/// stored secret removed when none is given; and for Microsoft the trimmed
/// tenant, `common` by default.
pub open spec fn spec_config_writes(provider: Seq<char>, client_id: Seq<char>, client_secret: Option<Seq<char>>, tenant_id: Option<Seq<char>>) -> Seq<(bool, Seq<char>, Seq<char>)> {
    seq![(true, spec_secret_name(provider, "client_id"@), trim_seq(client_id))] + match client_secret {
        Some(s) => if trim_seq(s).len() > 0 {
            seq![(true, spec_secret_name(provider, "client_secret"@), trim_seq(s))]
        } else {
            Seq::empty()
        },
        None => seq![(false, spec_secret_name(provider, "client_secret"@), Seq::<char>::empty())],
    } + if provider == "microsoft"@ {
        seq![(true, spec_secret_name(provider, "tenant_id"@), trim_seq(match tenant_id { Some(t) => t, None => "common"@ }))]
    } else {
        Seq::empty()
    }
}

/// Validates a provider's client settings and lists the store changes
/// that save them.
pub fn plan_provider_config(
    provider: &str,
    client_id: &str,
    client_secret: Option<&str>,
    tenant_id: Option<&str>,
) -> (r: Result<Vec<SecretWrite>, ParaError>)
    ensures
        !(provider@ == "google"@ || provider@ == "microsoft"@) ==> match r {
            Err(ParaError::InvalidState(m)) => m@ == "unsupported calendar provider: "@ + provider@,
            _ => false,
        },
        (provider@ == "google"@ || provider@ == "microsoft"@) && trim_seq(client_id@).len() == 0 ==> match r {
            Err(ParaError::InvalidState(m)) => m@ == "client ID is required"@,
            _ => false,
        },
        (provider@ == "google"@ || provider@ == "microsoft"@) && trim_seq(client_id@).len() > 0 ==> match r {
            Ok(ws) => write_views(ws@) == spec_config_writes(provider@, client_id@, opt_view(client_secret), opt_view(tenant_id)),
            Err(_) => false,
        },
{
    let p = match crate::calendar::normalize_provider(provider) {
        Ok(p) => p,
        Err(e) => return Err(e),
    };
    let id = trim(client_id);
    if id.as_str().is_empty() {
        return Err(ParaError::InvalidState(String::from_str("client ID is required")));
    }
    let mut ws: Vec<SecretWrite> = Vec::new();
    ws.push(SecretWrite::Put { name: secret_name(p.as_str(), "client_id"), value: id });
    let ghost w1 = write_views(ws@);
    match client_secret {
        Some(s) => {
            let t = trim(s);
            if !t.as_str().is_empty() {
                ws.push(SecretWrite::Put { name: secret_name(p.as_str(), "client_secret"), value: t });
            }
        },
        None => {
            ws.push(SecretWrite::Delete { name: secret_name(p.as_str(), "client_secret") });
        },
    }
    let ghost w2 = write_views(ws@);
    if str_eq(p.as_str(), "microsoft") {
        let tenant = match tenant_id {
            Some(t) => trim(t),
            None => trim("common"),
        };
        ws.push(SecretWrite::Put { name: secret_name(p.as_str(), "tenant_id"), value: tenant });
    }
    proof {
        let spec = spec_config_writes(provider@, client_id@, opt_view(client_secret), opt_view(tenant_id));
        assert(write_views(ws@) =~= spec);
    }
    Ok(ws)
}

/// Saves a provider's client settings in the credential store. The
/// validation errors are those of `plan_provider_config`; a store failure
/// is a key-vault error, and removing a secret that is not there is no
/// failure.
pub fn save_provider_config(
    keyvault: &KeyVault,
    provider: &str,
    client_id: &str,
    client_secret: Option<&str>,
    tenant_id: Option<&str>,
) -> (r: Result<(), ParaError>)
    ensures
        !(provider@ == "google"@ || provider@ == "microsoft"@) ==> match r {
            Err(ParaError::InvalidState(m)) => m@ == "unsupported calendar provider: "@ + provider@,
            _ => false,
        },
        (provider@ == "google"@ || provider@ == "microsoft"@) && trim_seq(client_id@).len() == 0 ==> match r {
            Err(ParaError::InvalidState(m)) => m@ == "client ID is required"@,
            _ => false,
        },
        (provider@ == "google"@ || provider@ == "microsoft"@) && trim_seq(client_id@).len() > 0 ==> match r {
            Ok(()) => true,
            Err(ParaError::KeyVault(_)) => true,
            Err(_) => false,
        },
{
    let writes = match plan_provider_config(provider, client_id, client_secret, tenant_id) {
        Ok(ws) => ws,
        Err(e) => return Err(e),
    };
    let mut i: usize = 0;
    while i < writes.len()
        invariant
            i <= writes@.len(),
            (provider@ == "google"@ || provider@ == "microsoft"@) && trim_seq(client_id@).len() > 0,
        decreases writes@.len() - i,
    {
        match &writes[i] {
            SecretWrite::Put { name, value } => {
                match keyvault.set_secret(name.as_str(), value.as_str()) {
                    Ok(()) => {},
                    Err(ParaError::KeyVault(m)) => return Err(ParaError::KeyVault(m)),
                    Err(_) => return Err(ParaError::KeyVault(String::from_str("credential store failure"))),
                }
            },
            SecretWrite::Delete { name } => {
                let _ = keyvault.delete_secret(name.as_str());
            },
        }
        i += 1;
    }
    Ok(())
}

/// Names removed when a provider is disconnected: its tokens and client
/// settings, and for Microsoft the tenant.
pub open spec fn spec_disconnect_names(provider: Seq<char>) -> Seq<Seq<char>> {
    seq![
        spec_secret_name(provider, "tokens"@),
        spec_secret_name(provider, "client_id"@),
        spec_secret_name(provider, "client_secret"@),
    ] + if provider == "microsoft"@ { seq![spec_secret_name(provider, "tenant_id"@)] } else { Seq::empty() }
}

pub fn disconnect_names(provider: &str) -> (v: Vec<String>)
    ensures
        crate::text::views(v@) == spec_disconnect_names(provider@),
{
    let mut v: Vec<String> = Vec::new();
    v.push(secret_name(provider, "tokens"));
    v.push(secret_name(provider, "client_id"));
    v.push(secret_name(provider, "client_secret"));
    if str_eq(provider, "microsoft") {
        v.push(secret_name(provider, "tenant_id"));
    }
    assert(crate::text::views(v@) =~= spec_disconnect_names(provider@));
    v
}

} // verus!
