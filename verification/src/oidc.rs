//! Google OpenID Connect: what the protocol boundary accepts and what it hands on.
use crate::avatars::{self, check_google_avatar_url};
use crate::external_identities::{self, VerifiedExternalIdentity};
use crate::oidc_attempts::{self, ClaimedOidcAttempt, NewOidcAttempt};
use crate::profiles::ProfileError;
use crate::script::{self, Ask, Outcome, Reply, Request, Run, Script, Stop, Trace};
use crate::text::{self, blank, same_text};
use crate::urls::{self, url_origin, url_parts};
use openidconnect::{
    AuthUrl, ClientId, ClientSecret, CsrfToken, IdTokenVerifier, IssuerUrl, Nonce,
    PkceCodeChallenge, PkceCodeVerifier, RedirectUrl, Scope,
};
use vstd::prelude::*;

verus! {

/// The issuer of Google identities.
pub const GOOGLE_ISSUER: &'static str = "https://accounts.google.com";

/// How old an ID token may be, in seconds.
pub const MAX_ID_TOKEN_AGE_SECS: i64 = 600;

/// How far in the future an ID token may have been issued, in seconds.
pub const MAX_ID_TOKEN_FUTURE_SKEW_SECS: i64 = 300;

/// Protocol or configuration failure; carries no secret.
#[derive(Debug, Clone, Copy, PartialEq, Eq, Structural)]
pub enum GoogleOidcError {
    Configuration,
    HttpClient,
    Discovery,
    Callback,
    TokenExchange,
    MissingIdToken,
    InvalidIdToken,
}

impl GoogleOidcError {
    pub open spec fn message_of(self) -> Seq<char> {
        match self {
            GoogleOidcError::Configuration => "Google OIDC configuration is invalid"@,
            GoogleOidcError::HttpClient => "Google OIDC HTTP client could not be constructed"@,
            GoogleOidcError::Discovery => "Google OIDC discovery failed"@,
            GoogleOidcError::Callback => "Google OIDC callback is invalid"@,
            GoogleOidcError::TokenExchange => "Google OIDC token exchange failed"@,
            GoogleOidcError::MissingIdToken => "Google OIDC response did not contain an ID token"@,
            GoogleOidcError::InvalidIdToken => "Google OIDC ID token is invalid"@,
        }
    }

    pub fn message(self) -> (message: &'static str)
        ensures
            message@ == self.message_of(),
    {
        match self {
            GoogleOidcError::Configuration => "Google OIDC configuration is invalid",
            GoogleOidcError::HttpClient => "Google OIDC HTTP client could not be constructed",
            GoogleOidcError::Discovery => "Google OIDC discovery failed",
            GoogleOidcError::Callback => "Google OIDC callback is invalid",
            GoogleOidcError::TokenExchange => "Google OIDC token exchange failed",
            GoogleOidcError::MissingIdToken => "Google OIDC response did not contain an ID token",
            GoogleOidcError::InvalidIdToken => "Google OIDC ID token is invalid",
        }
    }
}

/// A confidential web client of a discovered provider.
#[derive(Debug, Clone, PartialEq, Eq)]
pub struct GoogleOidcClient {
    pub issuer: String,
    pub client_id: String,
    pub redirect_uri: String,
    pub authorization_endpoint: String,
}

/// The mathematical content of a [`GoogleOidcClient`].
#[verifier::ext_equal]
pub struct ClientView {
    pub issuer: Seq<char>,
    pub client_id: Seq<char>,
    pub redirect_uri: Seq<char>,
    pub authorization_endpoint: Seq<char>,
}

impl View for GoogleOidcClient {
    type V = ClientView;

    open spec fn view(&self) -> ClientView {
        ClientView {
            issuer: self.issuer@,
            client_id: self.client_id@,
            redirect_uri: self.redirect_uri@,
            authorization_endpoint: self.authorization_endpoint@,
        }
    }
}

/// Whether discovery may start with this configuration.
pub open spec fn may_discover(client_id: Seq<char>, client_secret: Seq<char>, issuer: Seq<char>) -> bool {
    !text::is_blank(client_id) && !text::is_blank(client_secret) && urls::url_parts_of(
        issuer,
    ) is Some
}

/// The authorization address that `openidconnect` builds for a code flow with `scope`, state,
/// nonce and the SHA-256 challenge of a PKCE verifier; nothing where an address does not parse.
pub uninterp spec fn authorization_link(
    client: ClientView,
    scope: Seq<char>,
    state: Seq<char>,
    nonce: Seq<char>,
    verifier: Seq<char>,
) -> Option<Seq<char>>;

/// `openidconnect::Client::authorize_url` for the authorization-code flow and
/// `AuthorizationRequest::url`: a function of the client's addresses and identity, the scope, the
/// state, the nonce and the verifier. A verifier outside 43 to 128 bytes makes
/// `PkceCodeChallenge::from_code_verifier_sha256` panic.
#[verifier::external_body]
fn authorize_url(
    client: GoogleOidcClient,
    scope: String,
    state: String,
    nonce: String,
    verifier: String,
) -> (url: Option<String>)
    requires
        oidc_attempts::verifier_fits(verifier@),
    ensures
        match url {
            Some(url) => authorization_link(client@, scope@, state@, nonce@, verifier@) == Some(
                url@,
            ),
            None => authorization_link(client@, scope@, state@, nonce@, verifier@) is None,
        },
{
    let verifier = PkceCodeVerifier::new(verifier);
    let challenge = PkceCodeChallenge::from_code_verifier_sha256(&verifier);
    let issuer = IssuerUrl::new(client.issuer).ok()?;
    let endpoint = AuthUrl::new(client.authorization_endpoint).ok()?;
    let redirect = RedirectUrl::new(client.redirect_uri).ok()?;
    let id = ClientId::new(client.client_id);
    let client = openidconnect::core::CoreClient::new(id, issuer, Default::default())
        .set_auth_uri(endpoint)
        .set_redirect_uri(redirect);
    let flow = openidconnect::core::CoreAuthenticationFlow::AuthorizationCode;
    let request = client
        .authorize_url(flow, move || CsrfToken::new(state), move || Nonce::new(nonce))
        .add_scope(Scope::new(scope));
    Some(request.set_pkce_challenge(challenge).url().0.to_string())
}

impl GoogleOidcClient {
    /// Checks a configuration before any network access.
    pub fn begin_discovery(client_id: &str, client_secret: &str, issuer: &str) -> (checked: Result<
        (),
        GoogleOidcError,
    >)
        ensures
            checked == if may_discover(client_id@, client_secret@, issuer@) {
                Ok::<(), GoogleOidcError>(())
            } else {
                Err(GoogleOidcError::Configuration)
            },
    {
        if blank(client_id) || blank(client_secret) || url_parts(issuer).is_none() {
            return Err(GoogleOidcError::Configuration);
        }
        Ok(())
    }

    /// Makes a client of discovered metadata: the metadata must name the issuer that was asked,
    /// and the redirect address must be one.
    pub fn finish_discovery(
        client_id: &str,
        redirect_uri: &str,
        issuer: &str,
        discovered_issuer: &str,
        authorization_endpoint: &str,
    ) -> (client: Result<GoogleOidcClient, GoogleOidcError>)
        ensures
            match client {
                Ok(client) => discovered_issuer@ == issuer@ && urls::url_parts_of(
                    redirect_uri@,
                ) is Some && client@ == (ClientView {
                    issuer: issuer@,
                    client_id: client_id@,
                    redirect_uri: redirect_uri@,
                    authorization_endpoint: authorization_endpoint@,
                }),
                Err(error) => if discovered_issuer@ != issuer@ {
                    error == GoogleOidcError::Discovery
                } else {
                    urls::url_parts_of(redirect_uri@) is None && error
                        == GoogleOidcError::Configuration
                },
            },
    {
        if !same_text(discovered_issuer, issuer) {
            return Err(GoogleOidcError::Discovery);
        }
        if url_parts(redirect_uri).is_none() {
            return Err(GoogleOidcError::Configuration);
        }
        Ok(
            GoogleOidcClient {
                issuer: issuer.to_owned(),
                client_id: client_id.to_owned(),
                redirect_uri: redirect_uri.to_owned(),
                authorization_endpoint: authorization_endpoint.to_owned(),
            },
        )
    }

    /// The authorization address with an attempt's exact secrets; nothing where one of the
    /// client's addresses does not parse.
    pub fn authorization_url(&self, attempt: &NewOidcAttempt) -> (url: Option<String>)
        requires
            oidc_attempts::verifier_fits(attempt.pkce_verifier@),
        ensures
            text::opt_view(url) == authorization_link(
                self@,
                "profile"@,
                attempt.state@,
                attempt.nonce@,
                attempt.pkce_verifier@,
            ),
    {
        let client = GoogleOidcClient {
            issuer: self.issuer.clone(),
            client_id: self.client_id.clone(),
            redirect_uri: self.redirect_uri.clone(),
            authorization_endpoint: self.authorization_endpoint.clone(),
        };
        authorize_url(
            client,
            "profile".to_owned(),
            attempt.state.clone(),
            attempt.nonce.clone(),
            attempt.pkce_verifier.clone(),
        )
    }

    /// Checks that a verified picture may be downloaded: from Google's fixed host, or, for a
    /// development issuer, from that issuer's exact origin.
    pub fn check_avatar(&self, picture_url: &str) -> (checked: Result<(), ProfileError>)
        ensures
            checked == if may_download(self.issuer@, picture_url@) {
                Ok::<(), ProfileError>(())
            } else {
                Err(ProfileError::InvalidImageUrl)
            },
    {
        if same_text(self.issuer.as_str(), GOOGLE_ISSUER) {
            return check_google_avatar_url(picture_url);
        }
        match (url_origin(self.issuer.as_str()), url_origin(picture_url)) {
            (Some(issuer), Some(picture)) => if same_text(issuer.as_str(), picture.as_str())
                && !same_text(issuer.as_str(), "null") {
                Ok(())
            } else {
                Err(ProfileError::InvalidImageUrl)
            },
            _ => Err(ProfileError::InvalidImageUrl),
        }
    }
}

/// Where an issuer's pictures may come from. An opaque origin, which is written `null`, is no one's.
pub open spec fn may_download(issuer: Seq<char>, picture_url: Seq<char>) -> bool {
    if issuer == GOOGLE_ISSUER@ {
        avatars::allowed_avatar_url(urls::url_parts_of(picture_url))
    } else {
        urls::url_origin_of(issuer) is Some && urls::url_origin_of(issuer)
            == urls::url_origin_of(picture_url) && urls::url_origin_of(issuer) != Some("null"@)
    }
}

/// Saturating addition on signed 64-bit numbers.
pub open spec fn saturated(value: int) -> int {
    if value > i64::MAX {
        i64::MAX as int
    } else if value < i64::MIN {
        i64::MIN as int
    } else {
        value
    }
}

/// Whether an ID token issued at `issued` is accepted at `now`, both in seconds.
pub open spec fn issue_time_accepted(issued: i64, now: i64) -> bool {
    saturated(now - MAX_ID_TOKEN_AGE_SECS) <= issued <= saturated(
        now + MAX_ID_TOKEN_FUTURE_SKEW_SECS,
    )
}

/// Checks when an ID token was issued.
pub fn check_issue_time(issued: i64, now: i64) -> (checked: Result<(), &'static str>)
    ensures
        checked is Ok <==> issue_time_accepted(issued, now),
        checked matches Err(reason) ==> reason@ == (if issued > saturated(
            now + MAX_ID_TOKEN_FUTURE_SKEW_SECS,
        ) {
            "ID token issue time is in the future"@
        } else {
            "ID token issue time is too old"@
        }),
{
    let latest: i64 = match now.checked_add(MAX_ID_TOKEN_FUTURE_SKEW_SECS) {
        Some(latest) => latest,
        None => i64::MAX,
    };
    let earliest: i64 = match now.checked_sub(MAX_ID_TOKEN_AGE_SECS) {
        Some(earliest) => earliest,
        None => i64::MIN,
    };
    if issued > latest {
        return Err("ID token issue time is in the future");
    }
    if issued < earliest {
        return Err("ID token issue time is too old");
    }
    Ok(())
}

/// What a signed ID token claims.
#[derive(Debug, Clone, PartialEq, Eq)]
pub struct IdClaims {
    pub audience_count: usize,
    pub authorized_party: Option<String>,
    pub subject: String,
    pub name: Option<String>,
    pub picture: Option<String>,
}

/// The mathematical content of [`IdClaims`].
#[verifier::ext_equal]
pub struct ClaimsView {
    pub audience_count: nat,
    pub authorized_party: Option<Seq<char>>,
    pub subject: Seq<char>,
    pub name: Option<Seq<char>>,
    pub picture: Option<Seq<char>>,
}

impl View for IdClaims {
    type V = ClaimsView;

    open spec fn view(&self) -> ClaimsView {
        ClaimsView {
            audience_count: self.audience_count as nat,
            authorized_party: text::opt_view(self.authorized_party),
            subject: self.subject@,
            name: text::opt_view(self.name),
            picture: text::opt_view(self.picture),
        }
    }
}

/// Whether signed claims name this client and a usable subject.
pub open spec fn claims_accepted(client: ClientView, claims: ClaimsView) -> bool {
    &&& match claims.authorized_party {
        Some(party) => party == client.client_id,
        None => claims.audience_count <= 1,
    }
    &&& external_identities::valid_key(client.issuer)
    &&& external_identities::valid_key(claims.subject)
}

/// The identity that accepted claims stand for.
pub open spec fn claimed_identity(
    client: ClientView,
    claims: ClaimsView,
) -> external_identities::IdentityView {
    external_identities::IdentityView {
        provider: "GOOGLE"@,
        issuer: client.issuer,
        subject: claims.subject,
        display_name: match claims.name {
            Some(name) => name,
            None => "Player"@,
        },
        picture_url: claims.picture,
    }
}

/// Reads an identity from claims whose signature and nonce have been verified.
pub fn identity_from_claims(client: &GoogleOidcClient, claims: &IdClaims) -> (identity: Result<
    VerifiedExternalIdentity,
    GoogleOidcError,
>)
    ensures
        match identity {
            Ok(identity) => claims_accepted(client@, claims@) && identity@ == claimed_identity(
                client@,
                claims@,
            ),
            Err(error) => !claims_accepted(client@, claims@) && error
                == GoogleOidcError::InvalidIdToken,
        },
{
    let authorized: bool = match &claims.authorized_party {
        Some(party) => same_text(party.as_str(), client.client_id.as_str()),
        None => claims.audience_count <= 1,
    };
    if !authorized || blank(claims.subject.as_str()) {
        return Err(GoogleOidcError::InvalidIdToken);
    }
    let display_name: String = match &claims.name {
        Some(name) => name.clone(),
        None => "Player".to_owned(),
    };
    let picture_url: Option<String> = match &claims.picture {
        Some(picture) => Some(picture.clone()),
        None => None,
    };
    match VerifiedExternalIdentity::google(
        client.issuer.clone(),
        claims.subject.clone(),
        display_name,
        picture_url,
    ) {
        Ok(identity) => Ok(identity),
        Err(_) => Err(GoogleOidcError::InvalidIdToken),
    }
}

/// What a provider answers.
pub enum OidcAnswer<T> {
    Given(T),
    Failed(GoogleOidcError),
}

pub open spec fn reply_token(reply: Reply) -> Option<OidcAnswer<Seq<char>>> {
    match reply {
        Reply::Text(token) => Some(OidcAnswer::Given(token@)),
        Reply::OidcError(error) => Some(OidcAnswer::Failed(error)),
        _ => None,
    }
}

/// A provider's published keys and signing algorithms, each as JSON, and the time in seconds.
#[derive(Debug, Clone, PartialEq, Eq)]
pub struct ProviderKeys {
    pub keys: String,
    pub algorithms: String,
    pub now: i64,
}

/// The mathematical content of [`ProviderKeys`].
#[verifier::ext_equal]
pub struct KeysView {
    pub keys: Seq<char>,
    pub algorithms: Seq<char>,
    pub now: i64,
}

impl View for ProviderKeys {
    type V = KeysView;

    open spec fn view(&self) -> KeysView {
        KeysView { keys: self.keys@, algorithms: self.algorithms@, now: self.now }
    }
}

pub open spec fn reply_keys(reply: Reply) -> Option<OidcAnswer<KeysView>> {
    match reply {
        Reply::Keys(keys) => Some(OidcAnswer::Given(keys@)),
        Reply::OidcError(error) => Some(OidcAnswer::Failed(error)),
        _ => None,
    }
}

/// The last second that the verifier's calendar holds.
pub const MAX_CLOCK_SECS: i64 = 8_210_266_876_799;

/// Whether a clock can be read as a time after the epoch.
pub open spec fn clock_fits(now: i64) -> bool {
    0 <= now <= MAX_CLOCK_SECS
}

/// What `openidconnect` reads from an ID token that it accepts at `now` under a key set, the
/// allowed algorithms, an issuer, a client with its secret, and a nonce.
pub uninterp spec fn verified_claims_of(
    token: Seq<char>,
    keys: Seq<char>,
    algorithms: Seq<char>,
    issuer: Seq<char>,
    client_id: Seq<char>,
    client_secret: Seq<char>,
    nonce: Seq<char>,
    now: i64,
) -> Option<ClaimsView>;

/// When an ID token was issued, as the verifier is told.
fn issue_time_reason(issued: i64, now: i64) -> (checked: Result<(), String>)
    ensures
        checked is Ok <==> issue_time_accepted(issued, now),
{
    match check_issue_time(issued, now) {
        Ok(()) => Ok(()),
        Err(reason) => Err(reason.to_owned()),
    }
}

/// The claims that stand in a text in which `openidconnect` writes those of an ID token.
pub uninterp spec fn claims_in_text(text: Seq<char>) -> Option<ClaimsView>;

/// `serde_json::from_str` for `openidconnect::IdTokenClaims`: the claims that a text holds, or
/// nothing where it holds none.
#[verifier::external_body]
fn claims_in(text: &str) -> (claims: Option<IdClaims>)
    ensures
        opt_claims_view(claims) == claims_in_text(text@),
{
    let claims: openidconnect::core::CoreIdTokenClaims = serde_json::from_str(text).ok()?;
    Some(IdClaims {
        audience_count: claims.audiences().len(),
        authorized_party: claims.authorized_party().map(|party| party.to_string()),
        subject: claims.subject().to_string(),
        name: claims.name().and_then(|name| name.get(None)).map(|name| name.to_string()),
        picture: claims.picture().and_then(|url| url.get(None)).map(|url| url.to_string()),
    })
}

/// `openidconnect::IdTokenVerifier::new_confidential_client` and `IdToken::claims`: a text of the
/// claims of a token whose signature, issuer, audience, expiry, issue time and nonce it accepts,
/// and nothing for any other token or where a text is not what it stands for. The claims are a
/// function of the texts and the time alone, and are what is read from the text; the order in
/// which the text has them is left open. A time that its calendar does not hold makes it panic.
#[verifier::external_body]
fn verified_claims(
    token: &str,
    trusted: &ProviderKeys,
    client: GoogleOidcClient,
    client_secret: String,
    nonce: String,
) -> (text: Option<String>)
    requires
        clock_fits(trusted.now),
    ensures
        (match text {
            Some(text) => claims_in_text(text@),
            None => None,
        }) == verified_claims_of(
            token@,
            trusted.keys@,
            trusted.algorithms@,
            client.issuer@,
            client.client_id@,
            client_secret@,
            nonce@,
            trusted.now,
        ),
{
    let moment = std::time::UNIX_EPOCH + std::time::Duration::from_secs(trusted.now as u64);
    let verifier = IdTokenVerifier::<openidconnect::core::CoreJsonWebKey>::new_confidential_client(
        ClientId::new(client.client_id),
        ClientSecret::new(client_secret),
        IssuerUrl::new(client.issuer).ok()?,
        serde_json::from_str(&trusted.keys).ok()?,
    )
        .set_allowed_algs(serde_json::from_str::<Vec<_>>(&trusted.algorithms).ok()?)
        .set_time_fn(move || moment.into())
        .set_issue_time_verifier_fn(|issued| issue_time_reason(issued.timestamp(), trusted.now));
    let token: openidconnect::core::CoreIdToken = token.parse().ok()?;
    let claims = token.claims(&verifier, &Nonce::new(nonce)).ok()?;
    serde_json::to_string(claims).ok()
}

pub open spec fn opt_claims_view(claims: Option<IdClaims>) -> Option<ClaimsView> {
    match claims {
        Some(claims) => Some(claims@),
        None => None,
    }
}

/// The claims of a token that is valid for a client, at a time that can be read.
pub open spec fn token_claims(
    client: ClientView,
    client_secret: Seq<char>,
    trusted: KeysView,
    token: Seq<char>,
    nonce: Seq<char>,
) -> Option<ClaimsView> {
    if clock_fits(trusted.now) {
        verified_claims_of(
            token,
            trusted.keys,
            trusted.algorithms,
            client.issuer,
            client.client_id,
            client_secret,
            nonce,
            trusted.now,
        )
    } else {
        None
    }
}

/// The identity that a token stands for, if it is valid and its claims are accepted.
pub open spec fn token_identity(
    client: ClientView,
    client_secret: Seq<char>,
    trusted: KeysView,
    token: Seq<char>,
    nonce: Seq<char>,
) -> Option<external_identities::IdentityView> {
    match token_claims(client, client_secret, trusted, token, nonce) {
        Some(claims) => if claims_accepted(client, claims) {
            Some(claimed_identity(client, claims))
        } else {
            None
        },
        None => None,
    }
}

/// Verifies a signed ID token with a provider's keys and reads the identity that it stands for.
pub fn identity_in_token(
    client: &GoogleOidcClient,
    client_secret: &str,
    trusted: &ProviderKeys,
    token: &str,
    nonce: &str,
) -> (identity: Result<VerifiedExternalIdentity, GoogleOidcError>)
    ensures
        match identity {
            Ok(identity) => token_identity(client@, client_secret@, trusted@, token@, nonce@)
                == Some(identity@),
            Err(error) => token_identity(client@, client_secret@, trusted@, token@, nonce@) is None
                && error == GoogleOidcError::InvalidIdToken,
        },
{
    if trusted.now < 0 || trusted.now > MAX_CLOCK_SECS {
        return Err(GoogleOidcError::InvalidIdToken);
    }
    let own = GoogleOidcClient {
        issuer: client.issuer.clone(),
        client_id: client.client_id.clone(),
        redirect_uri: client.redirect_uri.clone(),
        authorization_endpoint: client.authorization_endpoint.clone(),
    };
    match verified_claims(token, trusted, own, client_secret.to_owned(), nonce.to_owned()) {
        Some(text) => match claims_in(text.as_str()) {
            Some(claims) => identity_from_claims(client, &claims),
            None => Err(GoogleOidcError::InvalidIdToken),
        },
        None => Err(GoogleOidcError::InvalidIdToken),
    }
}

/// Verify an ID token with the provider's keys, discovered anew where `fresh`.
pub open spec fn validate_run(
    trace: Trace,
    client: ClientView,
    client_secret: Seq<char>,
    token: Seq<char>,
    nonce: Seq<char>,
    fresh: bool,
) -> Run<external_identities::IdentityView, GoogleOidcError> {
    script::consult(
        trace,
        Ask::FindKeys(fresh),
        |reply: Reply| reply_keys(reply),
        |answer: Result<OidcAnswer<KeysView>, String>, trace: Trace|
            match answer {
                Ok(OidcAnswer::Given(trusted)) => match token_identity(
                    client,
                    client_secret,
                    trusted,
                    token,
                    nonce,
                ) {
                    Some(identity) => script::done(trace, identity),
                    None => script::fail(trace, GoogleOidcError::InvalidIdToken),
                },
                Ok(OidcAnswer::Failed(error)) => script::fail(trace, error),
                Err(_) => script::fail(trace, GoogleOidcError::Discovery),
            },
    )
}

/// Exchange a callback code and validate the token; an invalid token is validated once more with
/// freshly discovered keys.
pub open spec fn exchange_run(
    trace: Trace,
    client: ClientView,
    client_secret: Seq<char>,
    code: Seq<char>,
    attempt: oidc_attempts::ClaimedView,
) -> Run<external_identities::IdentityView, GoogleOidcError> {
    if text::is_blank(code) {
        script::fail(trace, GoogleOidcError::Callback)
    } else {
        script::consult(
            trace,
            Ask::ExchangeCode(code, attempt.pkce_verifier),
            |reply: Reply| reply_token(reply),
            |answer: Result<OidcAnswer<Seq<char>>, String>, trace: Trace|
                match answer {
                    Err(_) => script::fail(trace, GoogleOidcError::MissingIdToken),
                    Ok(OidcAnswer::Failed(error)) => script::fail(trace, error),
                    Ok(OidcAnswer::Given(token)) => {
                        let first = validate_run(
                            trace,
                            client,
                            client_secret,
                            token,
                            attempt.nonce,
                            false,
                        );
                        match first.outcome {
                            Outcome::Fail(GoogleOidcError::InvalidIdToken) => validate_run(
                                first.trace,
                                client,
                                client_secret,
                                token,
                                attempt.nonce,
                                true,
                            ),
                            _ => first,
                        }
                    },
                },
        )
    }
}

fn validate_id_token<'a>(
    script: &mut Script<'a>,
    client: &GoogleOidcClient,
    client_secret: &str,
    token: &str,
    nonce: &str,
    fresh: bool,
) -> (identity: Result<VerifiedExternalIdentity, Stop<'a, GoogleOidcError>>)
    ensures
        script::ran(identity, final(script)@, |identity: VerifiedExternalIdentity| identity@)
            == validate_run(old(script)@, client@, client_secret@, token@, nonce@, fresh),
{
    match script.keys(Request::FindKeys { fresh })? {
        Some(Ok(trusted)) => match identity_in_token(
            client,
            client_secret,
            trusted,
            token,
            nonce,
        ) {
            Ok(identity) => Ok(identity),
            Err(error) => Err(Stop::Fail(error)),
        },
        Some(Err(error)) => Err(Stop::Fail(error)),
        None => Err(Stop::Fail(GoogleOidcError::Discovery)),
    }
}

/// Exchanges a callback code and validates the signed ID token and nonce.
pub fn exchange_callback<'a>(
    script: &mut Script<'a>,
    client: &GoogleOidcClient,
    client_secret: &str,
    code: &str,
    attempt: &ClaimedOidcAttempt,
) -> (identity: Result<VerifiedExternalIdentity, Stop<'a, GoogleOidcError>>)
    ensures
        script::ran(identity, final(script)@, |identity: VerifiedExternalIdentity| identity@)
            == exchange_run(old(script)@, client@, client_secret@, code@, attempt@),
{
    if blank(code) {
        return Err(Stop::Fail(GoogleOidcError::Callback));
    }
    let token = match script.token(
        Request::ExchangeCode {
            code: code.to_owned(),
            verifier: attempt.pkce_verifier.clone(),
        },
    )? {
        Some(Ok(token)) => token,
        Some(Err(error)) => return Err(Stop::Fail(error)),
        None => return Err(Stop::Fail(GoogleOidcError::MissingIdToken)),
    };
    match validate_id_token(
        script,
        client,
        client_secret,
        token.as_str(),
        attempt.nonce.as_str(),
        false,
    ) {
        Err(Stop::Fail(GoogleOidcError::InvalidIdToken)) => validate_id_token(
            script,
            client,
            client_secret,
            token.as_str(),
            attempt.nonce.as_str(),
            true,
        ),
        first => first,
    }
}

/// An identity read from accepted claims is one that accounts can be linked to.
pub proof fn claimed_identities_are_valid(client: ClientView, claims: ClaimsView)
    requires
        claims_accepted(client, claims),
    ensures
        external_identities::valid_identity(claimed_identity(client, claims)),
{
}

} // verus!
