use cantus::auth::{
    generate_random_string, get_authorize_url, join_scopes, pkce_challenge, token_expired,
};

#[test]
fn pkce_challenge_matches_reference_vector() {
    // The reference PKCE example: the challenge is the URL-safe
    // unpadded base64 of the verifier's SHA-256 digest.
    let verifier = b"dBjftJeZ4CVP-mB92K27uhbUJU1p1r_wW1gFWFOEjXk".to_vec();
    let challenge = pkce_challenge(&verifier);
    assert_eq!(challenge, "E9Melhoa2OwvFrEMTJguCHaoeK1t8URWbuGJSstw-cM");
    assert_eq!(challenge.len(), 43);
}

#[test]
fn random_string_picks_from_alphabet() {
    let alphabet = b"abcdef".to_vec();
    let picks = vec![0usize, 5, 2, 2];
    let s = generate_random_string(&alphabet, &picks);
    assert_eq!(s, b"afcc".to_vec());
}

#[test]
fn token_expiry_includes_grace() {
    assert!(token_expired(100, None));
    assert!(token_expired(100, Some(110)));
    assert!(!token_expired(100, Some(111)));
}

#[test]
fn scopes_join_with_spaces() {
    let scopes = vec!["user-read".to_string(), "user-modify".to_string()];
    assert_eq!(join_scopes(&scopes), "user-read user-modify");
    assert_eq!(join_scopes(&Vec::new()), "");
}

#[test]
fn authorize_url_carries_challenge_and_scopes() {
    let verifier = b"dBjftJeZ4CVP-mB92K27uhbUJU1p1r_wW1gFWFOEjXk".to_vec();
    let url = get_authorize_url(
        &"client123".to_string(),
        &vec!["user-read-playback-state".to_string(), "user-library-read".to_string()],
        &"st4te".to_string(),
        &verifier,
    )
    .expect("authorize URL should build");
    assert!(url.starts_with("https://accounts.spotify.com/authorize?"));
    assert!(url.contains("client_id=client123"));
    assert!(url.contains("response_type=code"));
    assert!(url.contains("code_challenge_method=S256"));
    assert!(url.contains("code_challenge=E9Melhoa2OwvFrEMTJguCHaoeK1t8URWbuGJSstw-cM"));
    assert!(url.contains("state=st4te"));
    assert!(url.contains("user-read-playback-state"));
}
