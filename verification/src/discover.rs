//! tone3000 sign-in (OAuth with PKCE) and the state it keeps between the
//! browser round trip and the callback.
use base64::engine::general_purpose::URL_SAFE_NO_PAD;
use base64::Engine;
use rand::Rng;
use sha2::{Digest, Sha256};
use vstd::prelude::*;
use vstd::utf8::encode_utf8;

verus! {

/// Identifies the app to tone3000; a publishable key, not a secret.
pub const TONE3000_CLIENT_ID: &'static str = "t3k_pub_5Wf8b5OvqtEZMxMHfKrjt2oriDf7-2zW";
pub const TONE3000_BASE_URL: &'static str = "https://www.tone3000.com/api/v1";
/// Where tone3000 sends the browser back to.
pub const OAUTH_REDIRECT_URI: &'static str = "daisy://oauth-callback";

/// An ASCII letter or digit.
pub open spec fn is_ascii_alnum(c: char) -> bool {
    ('0' <= c && c <= '9') || ('A' <= c && c <= 'Z') || ('a' <= c && c <= 'z')
}

/// `n` characters drawn by `rand` from the 62 ASCII letters and digits
/// (`thread_rng().sample_iter(&Alphanumeric).take(n)`). Which ones is chance.
#[verifier::external_body]
fn random_alphanumeric(n: usize) -> (r: String)
    ensures
        r@.len() == n,
        forall|i: int| 0 <= i < n ==> is_ascii_alnum(#[trigger] r@[i]),
{
    rand::thread_rng().sample_iter(&rand::distributions::Alphanumeric).take(n).map(char::from).collect()
}

/// The SHA-256 digest of `data`.
pub uninterp spec fn sha256(data: Seq<u8>) -> Seq<u8>;

/// SHA-256 of `data` with `sha2::Sha256`; the digest is 32 bytes.
#[verifier::external_body]
fn sha256_digest(data: &[u8]) -> (r: Vec<u8>)
    ensures
        r@ == sha256(data@),
        r@.len() == 32,
{
    let mut hasher = Sha256::new();
    hasher.update(data);
    hasher.finalize().to_vec()
}

/// The URL-safe base64 character of a 6-bit value: `A`-`Z`, `a`-`z`,
/// `0`-`9`, `-`, `_`.
pub open spec fn b64_char(v: int) -> char {
    if v < 26 {
        (65 + v) as char
    } else if v < 52 {
        (71 + v) as char
    } else if v < 62 {
        (v - 4) as char
    } else if v == 62 {
        '-'
    } else {
        '_'
    }
}

/// Unpadded URL-safe base64 of `d`: four characters per three bytes, two
/// or three for a last group of one or two bytes.
pub open spec fn base64_url_nopad(d: Seq<u8>) -> Seq<char>
    decreases d.len(),
{
    if d.len() == 0 {
        Seq::empty()
    } else if d.len() == 1 {
        seq![b64_char(d[0] as int / 4), b64_char((d[0] as int % 4) * 16)]
    } else if d.len() == 2 {
        seq![
            b64_char(d[0] as int / 4),
            b64_char((d[0] as int % 4) * 16 + d[1] as int / 16),
            b64_char((d[1] as int % 16) * 4),
        ]
    } else {
        seq![
            b64_char(d[0] as int / 4),
            b64_char((d[0] as int % 4) * 16 + d[1] as int / 16),
            b64_char((d[1] as int % 16) * 4 + d[2] as int / 64),
            b64_char(d[2] as int % 64),
        ] + base64_url_nopad(d.skip(3))
    }
}

/// Unpadded base64 of `n` bytes is `(4 n + 2) / 3` characters long.
pub proof fn lemma_base64_len(d: Seq<u8>)
    ensures
        base64_url_nopad(d).len() == (4 * d.len() + 2) / 3,
    decreases d.len(),
{
    if d.len() >= 3 {
        lemma_base64_len(d.skip(3));
    }
}

/// `base64`'s `URL_SAFE_NO_PAD` engine: the URL-safe alphabet without
/// padding. Its `encode` panics only when the output length overflows.
#[verifier::external_body]
fn base64_url_encode(data: &[u8]) -> (r: String)
    requires
        (data@.len() / 3) * 4 + 4 <= usize::MAX,
    ensures
        r@ == base64_url_nopad(data@),
{
    URL_SAFE_NO_PAD.encode(data)
}

/// The PKCE challenge of a verifier: base64url(SHA-256(verifier)).
pub open spec fn pkce_challenge(verifier: Seq<char>) -> Seq<char> {
    base64_url_nopad(sha256(encode_utf8(verifier)))
}

/// A fresh PKCE pair: a 43-character random verifier of ASCII letters and
/// digits, and its S256 challenge.
pub fn generate_pkce() -> (r: (String, String))
    ensures
        r.0@.len() == 43,
        forall|i: int| 0 <= i < 43 ==> is_ascii_alnum(#[trigger] r.0@[i]),
        r.1@ == pkce_challenge(r.0@),
        r.1@.len() == 43,
{
    let verifier = random_alphanumeric(43);
    let hash = sha256_digest(verifier.as_str().as_bytes());
    let challenge = base64_url_encode(hash.as_slice());
    proof {
        lemma_base64_len(hash@);
    }
    (verifier, challenge)
}

/// A fresh 32-character state token of ASCII letters and digits.
pub fn generate_state_token() -> (r: String)
    ensures
        r@.len() == 32,
        forall|i: int| 0 <= i < 32 ==> is_ascii_alnum(#[trigger] r@[i]),
{
    random_alphanumeric(32)
}

/// The browser address that starts sign-in.
pub open spec fn auth_url_text(challenge: Seq<char>, state_token: Seq<char>) -> Seq<char> {
    TONE3000_BASE_URL@ + "/oauth/authorize?client_id="@ + TONE3000_CLIENT_ID@
        + "&redirect_uri=daisy://oauth-callback&response_type=code&code_challenge="@ + challenge
        + "&code_challenge_method=S256&state="@ + state_token + "&platform=nam"@
}

/// Builds the sign-in address for a challenge and state token.
pub fn auth_url(challenge: &str, state_token: &str) -> (r: String)
    ensures
        r@ == auth_url_text(challenge@, state_token@),
{
    let mut s = String::from_str(TONE3000_BASE_URL);
    s.append("/oauth/authorize?client_id=");
    s.append(TONE3000_CLIENT_ID);
    s.append("&redirect_uri=daisy://oauth-callback&response_type=code&code_challenge=");
    s.append(challenge);
    s.append("&code_challenge_method=S256&state=");
    s.append(state_token);
    s.append("&platform=nam");
    s
}

/// A sign-in waiting for its callback.
pub struct PendingAuth {
    pub verifier: String,
    pub state_token: String,
}

/// The sign-in in flight, if any.
pub struct DiscoverState {
    pub pending: Option<PendingAuth>,
}

impl DiscoverState {
    /// No sign-in in flight.
    pub fn new() -> (r: DiscoverState)
        ensures
            r.pending is None,
    {
        DiscoverState { pending: None }
    }

    /// Starts a sign-in: draws a PKCE pair and a state token, remembers them
    /// (dropping any earlier sign-in) and returns the address to open.
    pub fn start_auth(&mut self) -> (url: String)
        ensures
            final(self).pending matches Some(p) && {
                &&& p.verifier@.len() == 43
                &&& p.state_token@.len() == 32
                &&& url@ == auth_url_text(pkce_challenge(p.verifier@), p.state_token@)
            },
    {
        let (verifier, challenge) = generate_pkce();
        let state_token = generate_state_token();
        let url = auth_url(challenge.as_str(), state_token.as_str());
        self.pending = Some(PendingAuth { verifier, state_token });
        url
    }

    /// Drops the sign-in in flight.
    pub fn cancel_auth(&mut self)
        ensures
            final(self).pending is None,
    {
        self.pending = None;
    }
}

/// The query of a callback address, decoded into (key, value) pairs in
/// order, or the text of the parse error.
pub uninterp spec fn callback_query(url: Seq<char>) -> Result<Seq<(Seq<char>, Seq<char>)>, Seq<char>>;

/// The view of a parsed query.
pub open spec fn query_view(r: Result<Vec<(String, String)>, String>) -> Result<Seq<(Seq<char>, Seq<char>)>, Seq<char>> {
    match r {
        Ok(v) => Ok(v.deep_view()),
        Err(e) => Err(e@),
    }
}

/// Parses a callback address with `url::Url::parse` and decodes its query
/// with `query_pairs`; on a parse error, the error's text.
#[verifier::external_body]
fn parse_query_pairs(url: &str) -> (r: Result<Vec<(String, String)>, String>)
    ensures
        query_view(r) == callback_query(url@),
{
    match url::Url::parse(url) {
        Ok(u) => Ok(u.query_pairs().into_owned().collect()),
        Err(e) => Err(e.to_string()),
    }
}

/// The value of the last pair with key `key`: the one a map built from the
/// pairs keeps.
pub open spec fn query_get(q: Seq<(Seq<char>, Seq<char>)>, key: Seq<char>) -> Option<Seq<char>>
    decreases q.len(),
{
    if q.len() == 0 {
        None
    } else if q.last().0 == key {
        Some(q.last().1)
    } else {
        query_get(q.drop_last(), key)
    }
}

/// The view of an optional string.
pub open spec fn opt_text(s: Option<String>) -> Option<Seq<char>> {
    match s {
        Some(x) => Some(x@),
        None => None,
    }
}

/// The value of the last pair with key `key`.
pub fn query_lookup(pairs: &Vec<(String, String)>, key: &str) -> (r: Option<String>)
    ensures
        opt_text(r) == query_get(pairs.deep_view(), key@),
{
    let ghost q = pairs.deep_view();
    let k = String::from_str(key);
    let mut i: usize = pairs.len();
    assert(q.take(i as int) =~= q);
    while i > 0
        invariant
            i <= pairs@.len(),
            q.len() == pairs@.len(),
            q == pairs.deep_view(),
            k@ == key@,
            query_get(q, key@) == query_get(q.take(i as int), key@),
        decreases i,
    {
        assert(q.take(i as int).drop_last() =~= q.take(i - 1));
        assert(q.take(i as int).last() == q[i - 1]);
        if pairs[i - 1].0 == k {
            return Some(pairs[i - 1].1.clone());
        }
        i -= 1;
    }
    None
}

/// What a callback with query `q` gives: the authorization code and the
/// PKCE verifier to exchange it with, or why it is refused.
pub open spec fn callback_result(pending: Option<PendingAuth>, q: Seq<(Seq<char>, Seq<char>)>) -> Result<(Seq<char>, Seq<char>), Seq<char>> {
    match query_get(q, "error"@) {
        Some(e) => Err("OAuth error: "@ + e),
        None => match query_get(q, "code"@) {
            None => Err("Missing code in callback"@),
            Some(code) => match query_get(q, "state"@) {
                None => Err("Missing state in callback"@),
                Some(st) => match pending {
                    None => Err("No pending auth — unexpected callback"@),
                    Some(p) => if p.state_token@ != st {
                        Err("OAuth state mismatch — possible CSRF"@)
                    } else {
                        Ok((code, p.verifier@))
                    },
                },
            },
        },
    }
}

/// Whether handling the callback gets as far as taking the pending sign-in,
/// which is then gone whatever follows.
pub open spec fn callback_takes_pending(q: Seq<(Seq<char>, Seq<char>)>) -> bool {
    query_get(q, "error"@) is None && query_get(q, "code"@) is Some && query_get(q, "state"@) is Some
}

/// The view of a (code, verifier) result.
pub open spec fn pair_res_view(r: Result<(String, String), String>) -> Result<(Seq<char>, Seq<char>), Seq<char>> {
    match r {
        Ok((a, b)) => Ok((a@, b@)),
        Err(e) => Err(e@),
    }
}

/// The refusal of a callback address that does not parse.
pub open spec fn invalid_url_error(e: Seq<char>) -> Result<(Seq<char>, Seq<char>), Seq<char>> {
    Err("Invalid callback URL: "@ + e)
}

impl DiscoverState {
    /// Checks the query of a sign-in callback against the pending sign-in:
    /// an error reported by tone3000, a missing code or state, no sign-in
    /// in flight, or a state token that does not match are refused; else
    /// the code and the verifier to exchange it with.
    pub fn accept_callback(&mut self, pairs: &Vec<(String, String)>) -> (r: Result<(String, String), String>)
        ensures
            pair_res_view(r) == callback_result(old(self).pending, pairs.deep_view()),
            final(self).pending == if callback_takes_pending(pairs.deep_view()) {
                None
            } else {
                old(self).pending
            },
    {
        if let Some(e) = query_lookup(pairs, "error") {
            let mut msg = String::from_str("OAuth error: ");
            msg.append(e.as_str());
            return Err(msg);
        }
        let code = match query_lookup(pairs, "code") {
            Some(c) => c,
            None => return Err(String::from_str("Missing code in callback")),
        };
        let state = match query_lookup(pairs, "state") {
            Some(s) => s,
            None => return Err(String::from_str("Missing state in callback")),
        };
        let pending = match self.pending.take() {
            Some(p) => p,
            None => return Err(String::from_str("No pending auth — unexpected callback")),
        };
        if pending.state_token != state {
            return Err(String::from_str("OAuth state mismatch — possible CSRF"));
        }
        Ok((code, pending.verifier))
    }

    /// Handles the sign-in callback address: parses its query and checks it
    /// with `accept_callback`; an address that does not parse is refused
    /// and leaves the pending sign-in alone.
    pub fn handle_callback_url(&mut self, url: &str) -> (r: Result<(String, String), String>)
        ensures
            callback_query(url@) matches Err(e) ==> pair_res_view(r) == invalid_url_error(e)
                && final(self).pending == old(self).pending,
            callback_query(url@) matches Ok(q) ==> {
                &&& pair_res_view(r) == callback_result(old(self).pending, q)
                &&& final(self).pending == if callback_takes_pending(q) {
                    None
                } else {
                    old(self).pending
                }
            },
    {
        match parse_query_pairs(url) {
            Err(e) => {
                let mut msg = String::from_str("Invalid callback URL: ");
                msg.append(e.as_str());
                Err(msg)
            },
            Ok(pairs) => self.accept_callback(&pairs),
        }
    }
}

/// The tokens kept after sign-in.
pub struct StoredTokens {
    pub access_token: String,
    pub refresh_token: String,
    /// Unix time, in seconds, at which the access token expires.
    pub expires_at: i64,
    pub username: String,
    pub avatar_url: Option<String>,
}

/// Whether the user is signed in, and as whom.
pub struct AuthStatus {
    pub authenticated: bool,
    pub username: Option<String>,
    pub avatar_url: Option<String>,
}

/// The sign-in status given the stored tokens, if any.
pub fn auth_status(tokens: Option<StoredTokens>) -> (r: AuthStatus)
    ensures
        tokens matches Some(t) ==> r == (AuthStatus {
            authenticated: true,
            username: Some(t.username),
            avatar_url: t.avatar_url,
        }),
        tokens is None ==> r == (AuthStatus { authenticated: false, username: None, avatar_url: None }),
{
    match tokens {
        Some(t) => AuthStatus { authenticated: true, username: Some(t.username), avatar_url: t.avatar_url },
        None => AuthStatus { authenticated: false, username: None, avatar_url: None },
    }
}

/// The tokens to store after a code exchange answered at time `now` with
/// tokens valid for `expires_in` seconds.
pub fn new_tokens(
    access_token: String,
    refresh_token: String,
    expires_in: i64,
    now: i64,
    username: String,
    avatar_url: Option<String>,
) -> (r: StoredTokens)
    requires
        i64::MIN <= now + expires_in <= i64::MAX,
    ensures
        r == (StoredTokens {
            access_token,
            refresh_token,
            expires_at: (now + expires_in) as i64,
            username,
            avatar_url,
        }),
{
    StoredTokens { access_token, refresh_token, expires_at: now + expires_in, username, avatar_url }
}

/// The access token expires within a minute of `now` (or has expired).
pub open spec fn refresh_due(tokens: StoredTokens, now: i64) -> bool {
    tokens.expires_at - now < 60
}

/// Whether the access token must be refreshed before use at time `now`.
pub fn needs_refresh(tokens: &StoredTokens, now: i64) -> (r: bool)
    requires
        i64::MIN <= tokens.expires_at - now <= i64::MAX,
    ensures
        r == refresh_due(*tokens, now),
{
    tokens.expires_at - now < 60
}

/// Takes in refreshed tokens, valid for `expires_in` seconds from `now`;
/// the user stays the same.
pub fn apply_refresh(tokens: &mut StoredTokens, access_token: String, refresh_token: String, expires_in: i64, now: i64)
    requires
        i64::MIN <= now + expires_in <= i64::MAX,
    ensures
        *final(tokens) == (StoredTokens {
            access_token,
            refresh_token,
            expires_at: (now + expires_in) as i64,
            ..*old(tokens)
        }),
{
    tokens.access_token = access_token;
    tokens.refresh_token = refresh_token;
    tokens.expires_at = now + expires_in;
}

fn pair(k: &str, v: &str) -> (r: (String, String))
    ensures
        r.0@ == k@,
        r.1@ == v@,
{
    (String::from_str(k), String::from_str(v))
}

/// The form that exchanges an authorization code for tokens.
pub open spec fn exchange_form_fields(code: Seq<char>, verifier: Seq<char>) -> Seq<(Seq<char>, Seq<char>)> {
    seq![
        ("grant_type"@, "authorization_code"@),
        ("code"@, code),
        ("code_verifier"@, verifier),
        ("redirect_uri"@, OAUTH_REDIRECT_URI@),
        ("client_id"@, TONE3000_CLIENT_ID@),
    ]
}

/// Builds the code-exchange form.
pub fn exchange_form(code: &str, verifier: &str) -> (r: Vec<(String, String)>)
    ensures
        r.deep_view() == exchange_form_fields(code@, verifier@),
{
    let mut v: Vec<(String, String)> = Vec::new();
    v.push(pair("grant_type", "authorization_code"));
    v.push(pair("code", code));
    v.push(pair("code_verifier", verifier));
    v.push(pair("redirect_uri", OAUTH_REDIRECT_URI));
    v.push(pair("client_id", TONE3000_CLIENT_ID));
    assert(v.deep_view() =~= exchange_form_fields(code@, verifier@));
    v
}

/// The form that refreshes the tokens.
pub open spec fn refresh_form_fields(refresh_token: Seq<char>) -> Seq<(Seq<char>, Seq<char>)> {
    seq![
        ("grant_type"@, "refresh_token"@),
        ("refresh_token"@, refresh_token),
        ("client_id"@, TONE3000_CLIENT_ID@),
    ]
}

/// Builds the token-refresh form.
pub fn refresh_form(refresh_token: &str) -> (r: Vec<(String, String)>)
    ensures
        r.deep_view() == refresh_form_fields(refresh_token@),
{
    let mut v: Vec<(String, String)> = Vec::new();
    v.push(pair("grant_type", "refresh_token"));
    v.push(pair("refresh_token", refresh_token));
    v.push(pair("client_id", TONE3000_CLIENT_ID));
    assert(v.deep_view() =~= refresh_form_fields(refresh_token@));
    v
}

/// Whether a deep-link address is the sign-in callback.
pub fn is_oauth_callback(url: &str) -> (r: bool)
    ensures
        r == (OAUTH_REDIRECT_URI@.len() <= url@.len() && url@.take(OAUTH_REDIRECT_URI@.len() as int)
            == OAUTH_REDIRECT_URI@),
{
    let u = crate::text::chars_of(url);
    let p = crate::text::chars_of(OAUTH_REDIRECT_URI);
    if p.len() > u.len() {
        return false;
    }
    let mut i: usize = 0;
    while i < p.len()
        invariant
            u@ == url@,
            p@ == OAUTH_REDIRECT_URI@,
            p@.len() <= u@.len(),
            i <= p@.len(),
            forall|k: int| 0 <= k < i ==> u@[k] == p@[k],
        decreases p@.len() - i,
    {
        if u[i] != p[i] {
            assert(url@.take(p@.len() as int)[i as int] != p@[i as int]);
            return false;
        }
        i += 1;
    }
    assert(url@.take(p@.len() as int) =~= p@);
    true
}

/// A callback is accepted only while a sign-in is pending and only with
/// that sign-in's state token; what it yields is the pending verifier.
pub proof fn law_callback_needs_matching_state(pending: Option<PendingAuth>, q: Seq<(Seq<char>, Seq<char>)>)
    ensures
        callback_result(pending, q) is Ok ==> {
            &&& pending matches Some(p)
            &&& query_get(q, "state"@) == Some(p.state_token@)
            &&& query_get(q, "error"@) is None
            &&& callback_result(pending, q)->Ok_0.1 == p.verifier@
        },
{
}

/// A callback that carries the pending sign-in's state token and a code,
/// and no error, is accepted: it yields that code and the verifier whose
/// challenge went out in the sign-in address.
pub proof fn law_callback_roundtrip(p: PendingAuth, q: Seq<(Seq<char>, Seq<char>)>, code: Seq<char>)
    requires
        query_get(q, "error"@) is None,
        query_get(q, "code"@) == Some(code),
        query_get(q, "state"@) == Some(p.state_token@),
    ensures
        callback_result(Some(p), q) == Ok::<(Seq<char>, Seq<char>), Seq<char>>((code, p.verifier@)),
        callback_takes_pending(q),
{
}

/// The form `fields` has a field named `key`, and every field named `key`
/// holds `value`.
pub open spec fn field_is(fields: Seq<(Seq<char>, Seq<char>)>, key: Seq<char>, value: Seq<char>) -> bool {
    &&& exists|i: int| 0 <= i < fields.len() && (#[trigger] fields[i]).0 == key
    &&& forall|i: int| 0 <= i < fields.len() && (#[trigger] fields[i]).0 == key ==> fields[i].1 == value
}

/// The code-exchange form asks for the `authorization_code` grant and
/// carries the code, the PKCE verifier, the app's redirect address and the
/// app's client id, each under its own key, and nothing else.
pub proof fn law_exchange_form_fields(code: Seq<char>, verifier: Seq<char>)
    ensures
        exchange_form_fields(code, verifier).len() == 5,
        field_is(exchange_form_fields(code, verifier), "grant_type"@, "authorization_code"@),
        field_is(exchange_form_fields(code, verifier), "code"@, code),
        field_is(exchange_form_fields(code, verifier), "code_verifier"@, verifier),
        field_is(exchange_form_fields(code, verifier), "redirect_uri"@, "daisy://oauth-callback"@),
        field_is(exchange_form_fields(code, verifier), "client_id"@, "t3k_pub_5Wf8b5OvqtEZMxMHfKrjt2oriDf7-2zW"@),
{
    reveal_strlit("grant_type");
    reveal_strlit("code");
    reveal_strlit("code_verifier");
    reveal_strlit("redirect_uri");
    reveal_strlit("client_id");
    let f = exchange_form_fields(code, verifier);
    assert(f[0].0 == "grant_type"@);
    assert(f[1].0 == "code"@);
    assert(f[2].0 == "code_verifier"@);
    assert(f[3].0 == "redirect_uri"@);
    assert(f[4].0 == "client_id"@);
}

/// The refresh form asks for the `refresh_token` grant, never the
/// code-exchange grant, and carries the refresh token and the app's client
/// id, each under its own key, and nothing else.
pub proof fn law_refresh_form_fields(refresh_token: Seq<char>, code: Seq<char>, verifier: Seq<char>)
    ensures
        refresh_form_fields(refresh_token).len() == 3,
        field_is(refresh_form_fields(refresh_token), "grant_type"@, "refresh_token"@),
        field_is(refresh_form_fields(refresh_token), "refresh_token"@, refresh_token),
        field_is(refresh_form_fields(refresh_token), "client_id"@, "t3k_pub_5Wf8b5OvqtEZMxMHfKrjt2oriDf7-2zW"@),
        refresh_form_fields(refresh_token)[0].1 != exchange_form_fields(code, verifier)[0].1,
{
    reveal_strlit("grant_type");
    reveal_strlit("refresh_token");
    reveal_strlit("client_id");
    reveal_strlit("authorization_code");
    let f = refresh_form_fields(refresh_token);
    assert(f[0].0 == "grant_type"@);
    assert(f[1].0 == "refresh_token"@);
    assert(f[2].0 == "client_id"@);
    assert("refresh_token"@.len() != "authorization_code"@.len());
}

} // verus!
