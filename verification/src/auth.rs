//! OAuth 2.0 PKCE login logic: the authorization URL, the PKCE challenge, reading the
//! browser's callback, and token expiry and refresh.
use base64::Engine;
use sha2::Digest;
use vstd::prelude::*;
use vstd::string::StringSliceAdditionalSpecFns;

use crate::command::first_eq_index;
use crate::config::opt_text;
use crate::error::CrabClawError;
use crate::text::{
    append_chars, append_str, chars_eq, decimal, decimal_chars, is_white, slice_chars,
    split_chars, split_on, string_from, string_of, to_chars, trim_start, char_vecs,
};
use crate::web::{first_word, until_white};

verus! {

/// What SHA-256 gives for `bytes`.
pub uninterp spec fn sha256_of(bytes: Seq<u8>) -> Seq<u8>;

/// The SHA-256 digest of `bytes`, by the `sha2` crate; 32 bytes long.
#[verifier::external_body]
fn sha256(bytes: &[u8]) -> (r: Vec<u8>)
    ensures
        r@ == sha256_of(bytes@),
        r@.len() == 32,
{
    sha2::Sha256::digest(bytes).to_vec()
}

/// The character of a 6-bit value in the URL-safe base64 alphabet.
pub open spec fn b64_char(v: int) -> char {
    if v < 26 {
        (65 + v) as char
    } else if v < 52 {
        (97 + v - 26) as char
    } else if v < 62 {
        (48 + v - 52) as char
    } else if v == 62 {
        '-'
    } else {
        '_'
    }
}

/// URL-safe base64 without padding: each three bytes give four characters, a final one
/// or two bytes give two or three.
pub open spec fn b64url(b: Seq<u8>) -> Seq<char>
    decreases b.len(),
{
    if b.len() == 0 {
        Seq::empty()
    } else if b.len() == 1 {
        seq![b64_char((b[0] / 4) as int), b64_char(((b[0] % 4) * 16) as int)]
    } else if b.len() == 2 {
        seq![
            b64_char((b[0] / 4) as int),
            b64_char(((b[0] % 4) * 16 + b[1] / 16) as int),
            b64_char(((b[1] % 16) * 4) as int),
        ]
    } else {
        seq![
            b64_char((b[0] / 4) as int),
            b64_char(((b[0] % 4) * 16 + b[1] / 16) as int),
            b64_char(((b[1] % 16) * 4 + b[2] / 64) as int),
            b64_char((b[2] % 64) as int),
        ] + b64url(b.subrange(3, b.len() as int))
    }
}

/// Distinct 6-bit values have distinct characters.
proof fn lemma_b64_char_injective(v: int, w: int)
    requires
        0 <= v < 64,
        0 <= w < 64,
        b64_char(v) == b64_char(w),
    ensures
        v == w,
{
    let cv = b64_char(v) as int;
    let cw = b64_char(w) as int;
    assert(cv == cw);
}

/// The length of an encoding: four characters for each three bytes, and two or three for
/// a final one or two.
proof fn lemma_b64url_len(b: Seq<u8>)
    ensures
        b64url(b).len() == (b.len() / 3) * 4 + (if b.len() % 3 == 0 {
            0int
        } else if b.len() % 3 == 1 {
            2int
        } else {
            3int
        }),
    decreases b.len(),
{
    if b.len() >= 3 {
        lemma_b64url_len(b.subrange(3, b.len() as int));
    }
}

/// Distinct bytes have distinct encodings.
pub proof fn lemma_b64url_injective(a: Seq<u8>, b: Seq<u8>)
    requires
        b64url(a) == b64url(b),
    ensures
        a == b,
    decreases a.len(),
{
    lemma_b64url_len(a);
    lemma_b64url_len(b);
    assert(a.len() == b.len());
    let e = b64url(a);
    let f = b64url(b);
    if a.len() == 0 {
        assert(a =~= b);
    } else if a.len() == 1 {
        assert(e[0] == f[0] && e[1] == f[1]);
        lemma_b64_char_injective((a[0] / 4) as int, (b[0] / 4) as int);
        lemma_b64_char_injective(((a[0] % 4) * 16) as int, ((b[0] % 4) * 16) as int);
        assert(a[0] == b[0]);
        assert(a =~= b);
    } else if a.len() == 2 {
        assert(e[0] == f[0] && e[1] == f[1] && e[2] == f[2]);
        lemma_b64_char_injective((a[0] / 4) as int, (b[0] / 4) as int);
        lemma_b64_char_injective(((a[0] % 4) * 16 + a[1] / 16) as int, ((b[0] % 4) * 16 + b[1] / 16) as int);
        lemma_b64_char_injective(((a[1] % 16) * 4) as int, ((b[1] % 16) * 4) as int);
        assert(a[0] == b[0]);
        assert(a[1] == b[1]);
        assert(a =~= b);
    } else {
        let ra = a.subrange(3, a.len() as int);
        let rb = b.subrange(3, b.len() as int);
        let ha = seq![
            b64_char((a[0] / 4) as int),
            b64_char(((a[0] % 4) * 16 + a[1] / 16) as int),
            b64_char(((a[1] % 16) * 4 + a[2] / 64) as int),
            b64_char((a[2] % 64) as int),
        ];
        let hb = seq![
            b64_char((b[0] / 4) as int),
            b64_char(((b[0] % 4) * 16 + b[1] / 16) as int),
            b64_char(((b[1] % 16) * 4 + b[2] / 64) as int),
            b64_char((b[2] % 64) as int),
        ];
        assert(e == ha + b64url(ra));
        assert(f == hb + b64url(rb));
        assert(e[0] == ha[0] && e[1] == ha[1] && e[2] == ha[2] && e[3] == ha[3]);
        assert(f[0] == hb[0] && f[1] == hb[1] && f[2] == hb[2] && f[3] == hb[3]);
        lemma_b64_char_injective((a[0] / 4) as int, (b[0] / 4) as int);
        lemma_b64_char_injective(((a[0] % 4) * 16 + a[1] / 16) as int, ((b[0] % 4) * 16 + b[1] / 16) as int);
        lemma_b64_char_injective(((a[1] % 16) * 4 + a[2] / 64) as int, ((b[1] % 16) * 4 + b[2] / 64) as int);
        lemma_b64_char_injective((a[2] % 64) as int, (b[2] % 64) as int);
        assert(a[0] == b[0]);
        assert(a[1] == b[1]);
        assert(a[2] == b[2]);
        assert(b64url(ra) =~= e.subrange(4, e.len() as int));
        assert(b64url(rb) =~= f.subrange(4, f.len() as int));
        lemma_b64url_injective(ra, rb);
        assert forall|i: int| 0 <= i < a.len() implies a[i] == b[i] by {
            if i >= 3 {
                assert(a[i] == ra[i - 3]);
                assert(b[i] == rb[i - 3]);
            }
        }
        assert(a =~= b);
    }
}

/// URL-safe base64 without padding, by the `base64` crate.
#[verifier::external_body]
fn base64_url(bytes: &[u8]) -> (r: String)
    requires
        bytes@.len() <= usize::MAX / 2,
    ensures
        r@ == b64url(bytes@),
{
    base64::engine::general_purpose::URL_SAFE_NO_PAD.encode(bytes)
}

/// Decodes URL-safe base64 without padding, by the `base64` crate, whose decoder for this
/// alphabet takes exactly the texts that its encoder gives: bytes whose encoding is the
/// text, or `None` when no bytes encode to it.
#[verifier::external_body]
pub(crate) fn base64_url_decode(text: &str) -> (r: Option<Vec<u8>>)
    ensures
        match r {
            Some(b) => b64url(b@) == text@,
            None => forall|b: Seq<u8>| #[trigger] b64url(b) != text@,
        },
{
    base64::engine::general_purpose::URL_SAFE_NO_PAD.decode(text).ok()
}

/// The PKCE code challenge of a verifier: its SHA-256 digest in URL-safe base64.
pub fn generate_code_challenge(verifier: &str) -> (r: String)
    ensures
        r@ == b64url(sha256_of(verifier.spec_bytes())),
        r@.len() == 43,
{
    let digest = sha256(verifier.as_bytes());
    proof {
        lemma_b64url_len(digest@);
    }
    base64_url(digest.as_slice())
}

/// The text of `s` with spaces, colons and slashes percent-encoded.
pub open spec fn min_url_encoded(s: Seq<char>) -> Seq<char>
    decreases s.len(),
{
    if s.len() == 0 {
        Seq::empty()
    } else {
        let c = s.last();
        min_url_encoded(s.drop_last()) + if c == ' ' {
            "%20"@
        } else if c == ':' {
            "%3A"@
        } else if c == '/' {
            "%2F"@
        } else {
            seq![c]
        }
    }
}

/// Minimal percent-encoding for URL parameters.
pub fn urlencoding(s: &str) -> (r: String)
    ensures
        r@ == min_url_encoded(s@),
{
    let v = to_chars(s);
    let mut out: Vec<char> = Vec::new();
    let mut i: usize = 0;
    while i < v.len()
        invariant
            i <= v.len(),
            v@ == s@,
            out@ == min_url_encoded(s@.take(i as int)),
        decreases v.len() - i,
    {
        assert(s@.take(i + 1).drop_last() =~= s@.take(i as int));
        let c = v[i];
        if c == ' ' {
            append_str(&mut out, "%20");
        } else if c == ':' {
            append_str(&mut out, "%3A");
        } else if c == '/' {
            append_str(&mut out, "%2F");
        } else {
            out.push(c);
            assert(out@ =~= min_url_encoded(s@.take(i as int)) + seq![c]);
        }
        i += 1;
    }
    assert(s@.take(v.len() as int) =~= s@);
    string_of(&out)
}

/// The browser URL that starts the login.
pub open spec fn authorize_url_text(challenge: Seq<char>, state: Seq<char>) -> Seq<char> {
    "https://auth.openai.com/oauth/authorize"@ + "?client_id="@ + "app_EMoamEEZ73f0CkXaXp7hrann"@
        + "&redirect_uri="@ + min_url_encoded("http://localhost:1455/auth/callback"@)
        + "&response_type=code&scope="@ + min_url_encoded(
        "openid profile email offline_access"@,
    ) + "&code_challenge="@ + challenge + "&code_challenge_method=S256&state="@ + state
}

/// The browser URL that starts the login for a PKCE challenge and a state value.
pub fn authorize_url(code_challenge: &str, state: &str) -> (r: String)
    ensures
        r@ == authorize_url_text(code_challenge@, state@),
{
    let mut v: Vec<char> = Vec::new();
    append_str(&mut v, "https://auth.openai.com/oauth/authorize");
    append_str(&mut v, "?client_id=");
    append_str(&mut v, "app_EMoamEEZ73f0CkXaXp7hrann");
    append_str(&mut v, "&redirect_uri=");
    let r = urlencoding("http://localhost:1455/auth/callback");
    append_str(&mut v, r.as_str());
    append_str(&mut v, "&response_type=code&scope=");
    let sc = urlencoding("openid profile email offline_access");
    append_str(&mut v, sc.as_str());
    append_str(&mut v, "&code_challenge=");
    append_str(&mut v, code_challenge);
    append_str(&mut v, "&code_challenge_method=S256&state=");
    append_str(&mut v, state);
    string_of(&v)
}

/// The value of `key` among `&`-separated pairs: the first pair whose key (the text
/// before its first `=`, or the whole pair) is `key` decides; a pair without `=` gives no
/// value.
pub open spec fn pair_value(pairs: Seq<Seq<char>>, key: Seq<char>) -> Option<Seq<char>>
    decreases pairs.len(),
{
    if pairs.len() == 0 {
        None
    } else {
        let p = pairs[0];
        match first_eq_index(p) {
            Some(i) => if p.subrange(0, i) == key {
                Some(p.subrange(i + 1, p.len() as int))
            } else {
                pair_value(pairs.drop_first(), key)
            },
            None => if p == key {
                None
            } else {
                pair_value(pairs.drop_first(), key)
            },
        }
    }
}

/// The second whitespace-separated word of `s`, if there is one.
pub open spec fn second_word(s: Seq<char>) -> Seq<char> {
    let t = trim_start(s);
    first_word(t.subrange(until_white(t).len() as int, t.len() as int))
}

/// The value of query parameter `key` in the request target of an HTTP request: the
/// second word of the first line, after its first `?`, up to any second `?`.
pub open spec fn query_param(request: Seq<char>, key: Seq<char>) -> Option<Seq<char>> {
    let line = split_on(request, '\n')[0];
    let path = second_word(line);
    let parts = split_on(path, '?');
    if path.len() == 0 || parts.len() < 2 {
        None
    } else {
        pair_value(split_on(parts[1], '&'), key)
    }
}

proof fn lemma_until_white_prefix(s: Seq<char>)
    ensures
        until_white(s).len() <= s.len(),
        until_white(s) == s.subrange(0, until_white(s).len() as int),
    decreases s.len(),
{
    if s.len() > 0 && !is_white(s[0]) {
        lemma_until_white_prefix(s.drop_first());
        assert(until_white(s) =~= s.subrange(0, until_white(s).len() as int));
    }
}

/// The second whitespace-separated word of `v`.
fn second_word_exec(v: &Vec<char>) -> (r: Vec<char>)
    ensures
        r@ == second_word(v@),
{
    let t = crate::text::trim_start_chars(v);
    let mut j: usize = 0;
    assert(t@.subrange(0, t@.len() as int) =~= t@);
    assert(t@.subrange(0, 0) + until_white(t@) =~= until_white(t@));
    while j < t.len() && !crate::text::is_whitespace(t[j])
        invariant
            j <= t.len(),
            until_white(t@) == t@.subrange(0, j as int) + until_white(t@.subrange(j as int, t@.len() as int)),
        decreases t.len() - j,
    {
        let ghost rest = t@.subrange(j as int, t@.len() as int);
        assert(rest.drop_first() =~= t@.subrange(j + 1, t@.len() as int));
        assert(t@.subrange(0, j + 1) =~= t@.subrange(0, j as int) + seq![rest[0]]);
        j += 1;
    }
    assert(until_white(t@.subrange(j as int, t@.len() as int)) =~= Seq::<char>::empty());
    assert(until_white(t@) =~= t@.subrange(0, j as int));
    let rest = slice_chars(&t, j, t.len());
    let w = crate::web::first_word_exec(&rest);
    w
}

/// Extract a query parameter from an HTTP request.
pub fn extract_query_param(request: &str, key: &str) -> (r: Option<String>)
    ensures
        opt_text(r) == query_param(request@, key@),
{
    let req = to_chars(request);
    let lines = split_chars(&req, '\n');
    assert(char_vecs(lines@)[0] == lines@[0]@);
    let path = second_word_exec(&lines[0]);
    if path.len() == 0 {
        return None;
    }
    let parts = split_chars(&path, '?');
    if parts.len() < 2 {
        return None;
    }
    assert(char_vecs(parts@)[1] == parts@[1]@);
    let pairs = split_chars(&parts[1], '&');
    let ghost ps = char_vecs(pairs@);
    assert(query_param(request@, key@) == pair_value(ps, key@));
    let k = to_chars(key);
    let mut i: usize = 0;
    assert(ps.subrange(0, ps.len() as int) =~= ps);
    while i < pairs.len()
        invariant
            i <= pairs.len(),
            ps == char_vecs(pairs@),
            k@ == key@,
            query_param(request@, key@) == pair_value(ps, key@),
            pair_value(ps, key@) == pair_value(ps.subrange(i as int, ps.len() as int), key@),
        decreases pairs.len() - i,
    {
        let ghost sub = ps.subrange(i as int, ps.len() as int);
        assert(sub[0] == pairs@[i as int]@);
        assert(sub.drop_first() =~= ps.subrange(i + 1, ps.len() as int));
        let p = &pairs[i];
        let mut e: usize = 0;
        while e < p.len() && p[e] != '='
            invariant
                e <= p.len(),
                forall|j: int| 0 <= j < e ==> p@[j] != '=',
            decreases p.len() - e,
        {
            e += 1;
        }
        if e < p.len() {
            proof {
                let c = choose|x: int|
                    0 <= x < p@.len() && p@[x] == '=' && forall|j: int| 0 <= j < x ==> p@[j] != '=';
                assert(0 <= e < p@.len() && p@[e as int] == '=' && forall|j: int|
                    0 <= j < e ==> p@[j] != '=');
                assert(c == e) by {
                    if c < e {
                        assert(p@[c] != '=');
                    }
                    if c > e {
                        assert(p@[e as int] != '=');
                    }
                }
            }
            let name = slice_chars(p, 0, e);
            if chars_eq(&name, &k) {
                let value = slice_chars(p, e + 1, p.len());
                return Some(string_of(&value));
            }
        } else {
            if chars_eq(p, &k) {
                return None;
            }
        }
        i += 1;
    }
    None
}

/// Stored OAuth tokens.
#[derive(Debug, Clone)]
pub struct TokenData {
    pub access_token: String,
    pub refresh_token: Option<String>,
    pub id_token: Option<String>,
    /// Unix timestamp when the access token expires.
    pub expires_at: Option<i64>,
}

/// Whether a token that expires at `expires_at` counts as expired at time `now`: sixty
/// seconds early; a token without expiry never does.
pub open spec fn expired_at(expires_at: Option<i64>, now: i64) -> bool {
    match expires_at {
        Some(exp) => now >= exp - 60,
        None => false,
    }
}

impl TokenData {
    /// Whether the access token counts as expired at time `now` (a Unix timestamp).
    pub fn is_expired_at(&self, now: i64) -> (r: bool)
        ensures
            r == expired_at(self.expires_at, now),
    {
        match self.expires_at {
            Some(exp) => (now as i128) >= (exp as i128) - 60,
            None => false,
        }
    }
}

/// The token endpoint's answer.
#[derive(Debug, Clone)]
pub struct TokenResponse {
    pub access_token: String,
    pub refresh_token: Option<String>,
    pub id_token: Option<String>,
    pub expires_in: Option<i64>,
    pub token_type: Option<String>,
}

/// The expiry time of a token granted at `now` for `expires_in` seconds; none when the
/// sum does not fit in an `i64`.
pub open spec fn expiry_of(expires_in: Option<i64>, now: i64) -> Option<i64> {
    match expires_in {
        Some(secs) => if i64::MIN <= now + secs <= i64::MAX {
            Some((now + secs) as i64)
        } else {
            None
        },
        None => None,
    }
}

fn expiry(expires_in: Option<i64>, now: i64) -> (r: Option<i64>)
    ensures
        r == expiry_of(expires_in, now),
{
    match expires_in {
        Some(secs) => now.checked_add(secs),
        None => None,
    }
}

/// The tokens that a login's token response gives at time `now`.
pub fn tokens_from_response(resp: TokenResponse, now: i64) -> (r: TokenData)
    ensures
        r.access_token == resp.access_token,
        r.refresh_token == resp.refresh_token,
        r.id_token == resp.id_token,
        r.expires_at == expiry_of(resp.expires_in, now),
{
    let expires_at = expiry(resp.expires_in, now);
    TokenData {
        access_token: resp.access_token,
        refresh_token: resp.refresh_token,
        id_token: resp.id_token,
        expires_at,
    }
}

/// The tokens after a refresh at time `now`: the new access token, and the new refresh and
/// id tokens where the response has them, else the old ones.
pub fn refreshed_tokens(old: &TokenData, resp: TokenResponse, now: i64) -> (r: TokenData)
    ensures
        r.access_token == resp.access_token,
        r.refresh_token == (if resp.refresh_token is Some {
            resp.refresh_token
        } else {
            old.refresh_token
        }),
        r.id_token == (if resp.id_token is Some {
            resp.id_token
        } else {
            old.id_token
        }),
        r.expires_at == expiry_of(resp.expires_in, now),
{
    let expires_at = expiry(resp.expires_in, now);
    let refresh_token = match resp.refresh_token {
        Some(t) => Some(t),
        None => old.refresh_token.clone(),
    };
    let id_token = match resp.id_token {
        Some(t) => Some(t),
        None => old.id_token.clone(),
    };
    TokenData { access_token: resp.access_token, refresh_token, id_token, expires_at }
}

/// `s` with every `+` read as a space.
pub open spec fn plus_as_space(s: Seq<char>) -> Seq<char> {
    s.map_values(|c: char| if c == '+' { ' ' } else { c })
}

/// What the login callback request means: an `error` parameter is a failed login (with its
/// description, `+` read as space), a missing `code` is an error, a `state` that differs
/// from the expected one is refused, and otherwise the code is the result.
pub open spec fn callback_outcome(request: Seq<char>, expected_state: Seq<char>) -> Result<
    Seq<char>,
    Seq<char>,
> {
    match query_param(request, "error"@) {
        Some(err) => Err(
            "OAuth error: "@ + err + " \u{2014} "@ + match query_param(
                request,
                "error_description"@,
            ) {
                Some(d) => plus_as_space(d),
                None => Seq::empty(),
            },
        ),
        None => match query_param(request, "code"@) {
            None => Err("no authorization code in callback"@),
            Some(code) => match query_param(request, "state"@) {
                Some(st) => if st != expected_state {
                    Err("state mismatch \u{2014} possible CSRF"@)
                } else {
                    Ok(code)
                },
                None => Ok(code),
            },
        },
    }
}

/// Decide what the login callback request means; errors are authentication errors.
pub fn read_callback(request: &str, expected_state: &str) -> (r: Result<String, CrabClawError>)
    ensures
        match r {
            Ok(code) => callback_outcome(request@, expected_state@) == Ok::<Seq<char>, Seq<char>>(
                code@,
            ),
            Err(e) => e is Auth && callback_outcome(request@, expected_state@) == Err::<
                Seq<char>,
                Seq<char>,
            >(e->Auth_0@),
        },
{
    if let Some(error) = extract_query_param(request, "error") {
        let desc = match extract_query_param(request, "error_description") {
            Some(d) => {
                let dv = to_chars(d.as_str());
                let mut out: Vec<char> = Vec::new();
                let mut i: usize = 0;
                while i < dv.len()
                    invariant
                        i <= dv.len(),
                        out@ == plus_as_space(dv@.take(i as int)),
                    decreases dv.len() - i,
                {
                    out.push(
                        if dv[i] == '+' {
                            ' '
                        } else {
                            dv[i]
                        },
                    );
                    assert(out@ =~= plus_as_space(dv@.take(i + 1)));
                    i += 1;
                }
                assert(dv@.take(dv.len() as int) =~= dv@);
                out
            },
            None => Vec::new(),
        };
        let mut v: Vec<char> = Vec::new();
        append_str(&mut v, "OAuth error: ");
        append_str(&mut v, error.as_str());
        append_str(&mut v, " \u{2014} ");
        append_chars(&mut v, &desc);
        return Err(CrabClawError::Auth(string_of(&v)));
    }
    let code = match extract_query_param(request, "code") {
        Some(c) => c,
        None => {
            return Err(CrabClawError::Auth(string_from("no authorization code in callback")));
        },
    };
    if let Some(returned_state) = extract_query_param(request, "state") {
        let a = to_chars(returned_state.as_str());
        let b = to_chars(expected_state);
        if !chars_eq(&a, &b) {
            return Err(CrabClawError::Auth(string_from("state mismatch \u{2014} possible CSRF")));
        }
    }
    Ok(code)
}


/// The page the browser is shown after a successful login.
pub open spec fn login_ok_html() -> Seq<char> {
    "<html><body><h2>\u{2705} Login successful!</h2><p>You can close this tab and return to the terminal.</p><script>window.close()</script></body></html>"@
}

/// The page the browser is shown after a failed login, with the error and its description.
pub open spec fn login_failed_html(error: Seq<char>, desc: Seq<char>) -> Seq<char> {
    "<html><body><h2>\u{274c} Login failed</h2><p>"@ + error + ": "@ + desc + "</p></body></html>"@
}

/// An HTTP response that serves `html`, with its length in bytes.
pub open spec fn http_page(html: Seq<char>) -> Seq<char> {
    "HTTP/1.1 200 OK\r\nContent-Type: text/html\r\nContent-Length: "@ + decimal(
        (crate::utils::utf8_len(html) as usize) as nat,
    ) + "\r\n\r\n"@ + html
}

/// What the browser is answered on the login callback: the failure page when the request
/// carries an `error`, the success page when it yields a code, and no answer when the code
/// is missing or the state does not match.
pub open spec fn callback_reply(request: Seq<char>, expected_state: Seq<char>) -> Option<Seq<char>> {
    match query_param(request, "error"@) {
        Some(err) => Some(
            http_page(
                login_failed_html(
                    err,
                    match query_param(request, "error_description"@) {
                        Some(d) => plus_as_space(d),
                        None => Seq::empty(),
                    },
                ),
            ),
        ),
        None => match callback_outcome(request, expected_state) {
            Ok(_) => Some(http_page(login_ok_html())),
            Err(_) => None,
        },
    }
}

/// An HTTP response that serves `html`.
fn http_page_exec(html: &str) -> (r: String)
    ensures
        r@ == http_page(html@),
{
    let mut v: Vec<char> = Vec::new();
    append_str(&mut v, "HTTP/1.1 200 OK\r\nContent-Type: text/html\r\nContent-Length: ");
    let d = decimal_chars(html.len() as u64);
    append_chars(&mut v, &d);
    append_str(&mut v, "\r\n\r\n");
    append_str(&mut v, html);
    string_of(&v)
}

/// The answer to the browser on the login callback (see `callback_reply`).
pub fn callback_page(request: &str, expected_state: &str) -> (r: Option<String>)
    ensures
        opt_text(r) == callback_reply(request@, expected_state@),
{
    if let Some(error) = extract_query_param(request, "error") {
        let mut v: Vec<char> = Vec::new();
        append_str(&mut v, "<html><body><h2>\u{274c} Login failed</h2><p>");
        append_str(&mut v, error.as_str());
        append_str(&mut v, ": ");
        match extract_query_param(request, "error_description") {
            Some(d) => {
                let dv = to_chars(d.as_str());
                let mut i: usize = 0;
                let ghost start = v@;
                while i < dv.len()
                    invariant
                        i <= dv.len(),
                        v@ == start + plus_as_space(dv@.take(i as int)),
                    decreases dv.len() - i,
                {
                    v.push(
                        if dv[i] == '+' {
                            ' '
                        } else {
                            dv[i]
                        },
                    );
                    assert(plus_as_space(dv@.take(i + 1)) =~= plus_as_space(dv@.take(i as int)).push(
                        if dv@[i as int] == '+' { ' ' } else { dv@[i as int] },
                    ));
                    i += 1;
                }
                assert(dv@.take(dv.len() as int) =~= dv@);
            },
            None => {},
        }
        append_str(&mut v, "</p></body></html>");
        let html = string_of(&v);
        return Some(http_page_exec(html.as_str()));
    }
    match read_callback(request, expected_state) {
        Ok(_) => Some(
            http_page_exec(
                "<html><body><h2>\u{2705} Login successful!</h2><p>You can close this tab and return to the terminal.</p><script>window.close()</script></body></html>",
            ),
        ),
        Err(_) => None,
    }
}

/// The error when the token endpoint refuses a code exchange (`refresh` false) or a token
/// refresh, with the reply's status and body.
pub fn token_endpoint_error(refresh: bool, status: &str, body: &str) -> (r: CrabClawError)
    ensures
        r matches CrabClawError::Auth(m) && m@ == if refresh {
            "token refresh failed (HTTP "@ + status@ + "): "@ + body@
                + ". Please run `crabclaw auth login` again."@
        } else {
            "token exchange failed (HTTP "@ + status@ + "): "@ + body@
        },
{
    let mut v: Vec<char> = Vec::new();
    if refresh {
        append_str(&mut v, "token refresh failed (HTTP ");
    } else {
        append_str(&mut v, "token exchange failed (HTTP ");
    }
    append_str(&mut v, status);
    append_str(&mut v, "): ");
    append_str(&mut v, body);
    if refresh {
        append_str(&mut v, ". Please run `crabclaw auth login` again.");
    }
    CrabClawError::Auth(string_of(&v))
}

/// Token expiry is monotone: a token expired at one time stays expired later.
pub proof fn law_expiry_is_monotone(expires_at: Option<i64>, earlier: i64, later: i64)
    requires
        earlier <= later,
        expired_at(expires_at, earlier),
    ensures
        expired_at(expires_at, later),
{
}

/// A token without an expiry time never counts as expired.
pub proof fn law_no_expiry_never_expires(now: i64)
    ensures
        !expired_at(None, now),
{
}

} // verus!
