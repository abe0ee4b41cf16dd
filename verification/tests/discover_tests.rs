use base64::engine::general_purpose::URL_SAFE_NO_PAD;
use base64::Engine;
use daisy_nam::discover::{
    auth_status, auth_url, exchange_form, generate_pkce, generate_state_token, is_oauth_callback,
    needs_refresh, new_tokens, query_lookup, refresh_form, DiscoverState, PendingAuth, StoredTokens,
};
use sha2::{Digest, Sha256};

#[test]
fn pkce_verifier_is_43_chars() {
    let (verifier, _) = generate_pkce();
    assert_eq!(verifier.len(), 43);
}

#[test]
fn pkce_challenge_is_valid_base64url() {
    let (_, challenge) = generate_pkce();
    let decoded = URL_SAFE_NO_PAD.decode(&challenge).unwrap();
    assert_eq!(decoded.len(), 32);
}

#[test]
fn pkce_challenge_is_sha256_of_verifier() {
    let (verifier, challenge) = generate_pkce();
    let mut hasher = Sha256::new();
    hasher.update(verifier.as_bytes());
    let expected = URL_SAFE_NO_PAD.encode(&hasher.finalize());
    assert_eq!(challenge, expected);
}

#[test]
fn state_token_is_32_chars() {
    let state = generate_state_token();
    assert_eq!(state.len(), 32);
}

#[test]
fn pkce_verifier_is_alphanumeric() {
    let (verifier, challenge) = generate_pkce();
    assert!(verifier.chars().all(|c| c.is_ascii_alphanumeric()));
    assert_eq!(challenge.len(), 43);
    assert_ne!(verifier, challenge);
}

#[test]
fn auth_url_has_challenge_and_state() {
    let url = auth_url("CH", "ST");
    assert_eq!(
        url,
        "https://www.tone3000.com/api/v1/oauth/authorize?client_id=t3k_pub_5Wf8b5OvqtEZMxMHfKrjt2oriDf7-2zW&redirect_uri=daisy://oauth-callback&response_type=code&code_challenge=CH&code_challenge_method=S256&state=ST&platform=nam"
    );
}

#[test]
fn start_auth_remembers_pending() {
    let mut st = DiscoverState::new();
    let url = st.start_auth();
    let p = st.pending.as_ref().unwrap();
    assert_eq!(p.verifier.len(), 43);
    assert_eq!(p.state_token.len(), 32);
    assert!(url.ends_with(&format!("&state={}&platform=nam", p.state_token)));
    st.cancel_auth();
    assert!(st.pending.is_none());
}

fn pending(state: &str) -> DiscoverState {
    DiscoverState {
        pending: Some(PendingAuth { verifier: "ver".to_string(), state_token: state.to_string() }),
    }
}

#[test]
fn callback_accepted_with_matching_state() {
    let mut st = pending("abc");
    let r = st.handle_callback_url("daisy://oauth-callback?code=the%20code&state=abc");
    assert_eq!(r, Ok(("the code".to_string(), "ver".to_string())));
    assert!(st.pending.is_none());
}

#[test]
fn callback_state_mismatch_consumes_pending() {
    let mut st = pending("abc");
    let r = st.handle_callback_url("daisy://oauth-callback?code=c&state=zzz");
    assert_eq!(r, Err("OAuth state mismatch — possible CSRF".to_string()));
    assert!(st.pending.is_none());
}

#[test]
fn callback_error_param_keeps_pending() {
    let mut st = pending("abc");
    let r = st.handle_callback_url("daisy://oauth-callback?error=access_denied&code=c&state=abc");
    assert_eq!(r, Err("OAuth error: access_denied".to_string()));
    assert!(st.pending.is_some());
}

#[test]
fn callback_missing_code_and_state() {
    let mut st = pending("abc");
    assert_eq!(
        st.handle_callback_url("daisy://oauth-callback?state=abc"),
        Err("Missing code in callback".to_string())
    );
    assert_eq!(
        st.handle_callback_url("daisy://oauth-callback?code=c"),
        Err("Missing state in callback".to_string())
    );
    assert!(st.pending.is_some());
}

#[test]
fn callback_without_pending_auth() {
    let mut st = DiscoverState::new();
    assert_eq!(
        st.handle_callback_url("daisy://oauth-callback?code=c&state=s"),
        Err("No pending auth — unexpected callback".to_string())
    );
}

#[test]
fn callback_invalid_url() {
    let mut st = pending("abc");
    let r = st.handle_callback_url("not a url");
    assert!(r.unwrap_err().starts_with("Invalid callback URL: "));
    assert!(st.pending.is_some());
}

#[test]
fn query_lookup_takes_last_value() {
    let pairs = vec![
        ("code".to_string(), "first".to_string()),
        ("x".to_string(), "y".to_string()),
        ("code".to_string(), "second".to_string()),
    ];
    assert_eq!(query_lookup(&pairs, "code"), Some("second".to_string()));
    assert_eq!(query_lookup(&pairs, "state"), None);
}

fn tokens(expires_at: i64) -> StoredTokens {
    StoredTokens {
        access_token: "acc".into(),
        refresh_token: "ref".into(),
        expires_at,
        username: "testuser".into(),
        avatar_url: None,
    }
}

#[test]
fn refresh_due_within_a_minute() {
    assert!(needs_refresh(&tokens(1059), 1000));
    assert!(!needs_refresh(&tokens(1060), 1000));
    assert!(needs_refresh(&tokens(10), 1000));
}

#[test]
fn new_tokens_expiry_is_now_plus_lifetime() {
    let t = new_tokens("a".into(), "r".into(), 3600, 1_700_000_000, "u".into(), Some("av".into()));
    assert_eq!(t.expires_at, 1_700_003_600);
    assert_eq!(t.username, "u");
    assert_eq!(t.avatar_url.as_deref(), Some("av"));
}

#[test]
fn auth_status_from_tokens() {
    let s = auth_status(Some(tokens(9999999999)));
    assert!(s.authenticated);
    assert_eq!(s.username.as_deref(), Some("testuser"));
    let n = auth_status(None);
    assert!(!n.authenticated);
    assert!(n.username.is_none() && n.avatar_url.is_none());
}

#[test]
fn token_forms() {
    let f = exchange_form("c", "v");
    assert_eq!(f[0], ("grant_type".to_string(), "authorization_code".to_string()));
    assert_eq!(f[1], ("code".to_string(), "c".to_string()));
    assert_eq!(f[2], ("code_verifier".to_string(), "v".to_string()));
    assert_eq!(f[3], ("redirect_uri".to_string(), "daisy://oauth-callback".to_string()));
    assert_eq!(f.len(), 5);
    let r = refresh_form("rt");
    assert_eq!(r[1], ("refresh_token".to_string(), "rt".to_string()));
    assert_eq!(r.len(), 3);
}

#[test]
fn oauth_callback_prefix() {
    assert!(is_oauth_callback("daisy://oauth-callback?code=1"));
    assert!(!is_oauth_callback("daisy://other"));
    assert!(!is_oauth_callback("daisy:"));
}
