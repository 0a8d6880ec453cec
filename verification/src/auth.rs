//! Authorization helpers: the PKCE code challenge, the authorize URL,
//! random-string assembly from caller-supplied picks, and token-expiry
//! arithmetic.  Hashing, base64 and URL encoding come from outside
//! crates through the trusted declarations below.

use sha2::Digest;
use vstd::prelude::*;

verus! {

/// Loopback address the authorization flow redirects to.
pub const REDIRECT_HOST: &'static str = "127.0.0.1";

/// Port the authorization flow listens on.
pub const REDIRECT_PORT: u16 = 7474;

/// Bytes of randomness in a PKCE code verifier.
pub const VERIFIER_BYTES: usize = 43;

/// What SHA-256 computes for a byte sequence: a fixed function of the
/// bytes alone.
pub uninterp spec fn sha256_of(bytes: Seq<u8>) -> Seq<u8>;

/// Relies on sha2's `Sha256` via `Digest::digest`: a 32-byte digest
/// depending on the input bytes alone.
#[verifier::external_body]
fn sha256(bytes: &Vec<u8>) -> (r: Vec<u8>)
    ensures
        r@ == sha256_of(bytes@),
        r@.len() == 32,
{
    sha2::Sha256::digest(bytes.as_slice()).to_vec()
}

/// What the URL-safe unpadded base64 alphabet encodes a byte sequence
/// to: a fixed function of the bytes alone.
pub uninterp spec fn base64_url_of(bytes: Seq<u8>) -> Seq<char>;

/// Relies on base64's `Engine::encode` with the `URL_SAFE_NO_PAD`
/// engine: four output characters per three input bytes, two or three
/// for a trailing partial group, no padding.
#[verifier::external_body]
fn base64_url_encode(bytes: &Vec<u8>) -> (r: String)
    ensures
        r@ == base64_url_of(bytes@),
        r@.len() == (4 * bytes@.len() + 2) / 3,
{
    base64::Engine::encode(&base64::engine::general_purpose::URL_SAFE_NO_PAD, bytes)
}

/// What `url::Url::parse_with_params` yields for a base URL and query
/// pairs: a fixed function of both.
pub uninterp spec fn url_with_params_of(
    base: Seq<char>,
    params: Seq<(Seq<char>, Seq<char>)>,
) -> Seq<char>;

/// Relies on url's `Url::parse_with_params`: parses the base URL and
/// appends the percent-encoded query pairs; fails only on an invalid
/// base URL.
#[verifier::external_body]
fn url_parse_with_params(base: &str, params: &Vec<(String, String)>) -> (r: Option<String>)
    ensures
        r matches Some(s) ==> s@ == url_with_params_of(
            base@,
            params@.map_values(|p: (String, String)| (p.0@, p.1@)),
        ),
{
    match url::Url::parse_with_params(base, params.iter().map(|p| (&p.0, &p.1))) {
        Ok(u) => Some(u.into()),
        Err(_) => None,
    }
}

/// The PKCE code challenge for a verifier: the URL-safe unpadded base64
/// encoding of its SHA-256 digest, always 43 characters.
pub fn pkce_challenge(verifier: &Vec<u8>) -> (c: String)
    ensures
        c@ == base64_url_of(sha256_of(verifier@)),
        c@.len() == 43,
{
    let digest = sha256(verifier);
    base64_url_encode(&digest)
}

/// Assemble a string by picking bytes from an alphabet at the given
/// positions; the picks come from the caller's randomness source.
pub fn generate_random_string(alphabet: &Vec<u8>, picks: &Vec<usize>) -> (s: Vec<u8>)
    requires
        forall|k: int| 0 <= k < picks@.len() ==> #[trigger] picks@[k] < alphabet@.len(),
    ensures
        s@.len() == picks@.len(),
        forall|k: int| 0 <= k < s@.len() ==> #[trigger] s@[k] == alphabet@[picks@[k] as int],
{
    let mut s: Vec<u8> = Vec::new();
    let mut i: usize = 0;
    while i < picks.len()
        invariant
            forall|k: int| 0 <= k < picks@.len() ==> #[trigger] picks@[k] < alphabet@.len(),
            0 <= i <= picks@.len(),
            s@.len() == i,
            forall|k: int| 0 <= k < i ==> #[trigger] s@[k] == alphabet@[picks@[k] as int],
        decreases picks@.len() - i,
    {
        s.push(alphabet[picks[i]]);
        i = i + 1;
    }
    s
}

/// Whether an access token is expired: no expiry is known, or the
/// current time is within ten seconds of it.
pub fn token_expired(now_unix_s: i64, expires_at_unix_s: Option<i64>) -> (b: bool)
    requires
        -1_000_000_000_000 <= now_unix_s <= 1_000_000_000_000,
    ensures
        b == (expires_at_unix_s is None || now_unix_s + 10 >= expires_at_unix_s->0),
{
    match expires_at_unix_s {
        Some(exp) => now_unix_s + 10 >= exp,
        None => true,
    }
}

/// Scopes joined with single spaces.
pub open spec fn joined_scopes(scopes: Seq<Seq<char>>) -> Seq<char>
    decreases scopes.len(),
{
    if scopes.len() == 0 {
        Seq::empty()
    } else if scopes.len() == 1 {
        scopes[0]
    } else {
        joined_scopes(scopes.drop_last()) + " "@ + scopes.last()
    }
}

/// Join scope names with single spaces.
pub fn join_scopes(scopes: &Vec<String>) -> (r: String)
    ensures
        r@ == joined_scopes(scopes@.map_values(|s: String| s@)),
{
    let mut r = String::new();
    let mut i: usize = 0;
    proof {
        reveal_strlit(" ");
    }
    while i < scopes.len()
        invariant
            0 <= i <= scopes@.len(),
            r@ == joined_scopes(scopes@.map_values(|s: String| s@).take(i as int)),
            " "@.len() == 1,
        decreases scopes@.len() - i,
    {
        if i > 0 {
            r.append(" ");
        }
        r.append(scopes[i].as_str());
        proof {
            let views = scopes@.map_values(|s: String| s@);
            assert(views.take(i + 1).drop_last() =~= views.take(i as int));
            assert(views.take(i + 1).last() == views[i as int]);
            if i == 0 {
                assert(views.take(1) =~= seq![views[0]]);
            }
        }
        i = i + 1;
    }
    proof {
        assert(scopes@.map_values(|s: String| s@).take(scopes@.len() as int) =~= scopes@.map_values(
            |s: String| s@,
        ));
    }
    r
}

/// The query parameters of the authorization URL, at the view level.
pub open spec fn authorize_params(
    client_id: Seq<char>,
    challenge: Seq<char>,
    state: Seq<char>,
    scope: Seq<char>,
) -> Seq<(Seq<char>, Seq<char>)> {
    seq![
        ("client_id"@, client_id),
        ("response_type"@, "code"@),
        ("redirect_uri"@, "http://127.0.0.1:7474/callback"@),
        ("code_challenge_method"@, "S256"@),
        ("code_challenge"@, challenge),
        ("state"@, state),
        ("scope"@, scope),
    ]
}

/// Build the authorization URL for a PKCE flow: the verifier's challenge
/// and the joined scopes, percent-encoded onto the account service's
/// authorize endpoint.
pub fn get_authorize_url(
    client_id: &String,
    scopes: &Vec<String>,
    state: &String,
    verifier: &Vec<u8>,
) -> (r: Option<String>)
    ensures
        r matches Some(u) ==> u@ == url_with_params_of(
            "https://accounts.spotify.com/authorize"@,
            authorize_params(
                client_id@,
                base64_url_of(sha256_of(verifier@)),
                state@,
                joined_scopes(scopes@.map_values(|s: String| s@)),
            ),
        ),
{
    let challenge = pkce_challenge(verifier);
    let scope = join_scopes(scopes);
    let mut params: Vec<(String, String)> = Vec::new();
    params.push((String::from_str("client_id"), client_id.clone()));
    params.push((String::from_str("response_type"), String::from_str("code")));
    params.push(
        (String::from_str("redirect_uri"), String::from_str("http://127.0.0.1:7474/callback")),
    );
    params.push((String::from_str("code_challenge_method"), String::from_str("S256")));
    params.push((String::from_str("code_challenge"), challenge));
    params.push((String::from_str("state"), state.clone()));
    params.push((String::from_str("scope"), scope));
    let r = url_parse_with_params("https://accounts.spotify.com/authorize", &params);
    proof {
        assert(params@.map_values(|p: (String, String)| (p.0@, p.1@)) =~= authorize_params(
            client_id@,
            base64_url_of(sha256_of(verifier@)),
            state@,
            joined_scopes(scopes@.map_values(|s: String| s@)),
        ));
    }
    r
}

} // verus!
