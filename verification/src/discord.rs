//! The identity client: what is sent to the provider, the shapes of its
//! replies, and how a reply is classified.

use vstd::prelude::*;
use vstd::string::*;
use crate::api::AppData;
use crate::error::{Cause, CauseView, Error, ErrorKindView};
use crate::text::{
    append_debug_opt_number, append_debug_opt_text, clone_opt, debug_opt_number, debug_opt_text,
    decimal, decimal_digits, opt_text, pair, pair_texts,
};

verus! {

/// The base of every provider endpoint.
pub const API_ENDPOINT: &'static str = "https://discord.com/api/v8";

/// The error body of the provider's resource endpoints.
#[derive(Debug, PartialEq, Eq)]
pub struct ErrorResponse {
    pub message: String,
    pub code: u64,
}

/// The mathematical value of an [`ErrorResponse`].
pub struct ErrorResponseView {
    pub message: Seq<char>,
    pub code: u64,
}

impl View for ErrorResponse {
    type V = ErrorResponseView;

    open spec fn view(&self) -> ErrorResponseView {
        ErrorResponseView { message: self.message@, code: self.code }
    }
}

/// The summary line of a provider error with a numeric code.
pub open spec fn api_error_text(code: u64, message: Seq<char>) -> Seq<char> {
    "Discord API Error "@ + decimal_digits(code as nat) + " \""@ + message + "\""@
}

fn api_error_string(code: u64, message: &str) -> (s: String)
    ensures
        s@ == api_error_text(code, message@),
{
    let mut s = String::from_str("Discord API Error ");
    s.append(decimal(code).as_str());
    s.append(" \"");
    s.append(message);
    s.append("\"");
    s
}

impl ErrorResponse {
    /// The summary line of the error.
    pub open spec fn text(self) -> Seq<char> {
        api_error_text(self.code, self.message@)
    }

    /// Renders the summary line of the error.
    pub fn to_string(&self) -> (s: String)
        ensures
            s@ == self.text(),
    {
        api_error_string(self.code, self.message.as_str())
    }
}

impl Clone for ErrorResponse {
    fn clone(&self) -> (r: Self)
        ensures
            r@ == self@,
    {
        ErrorResponse { message: self.message.clone(), code: self.code }
    }
}

/// The error body of the provider's token endpoint. Every field is optional:
/// the endpoint answers with either the pair `error`, `error_description`
/// or the pair `code`, `message`.
#[derive(Debug, PartialEq, Eq)]
pub struct OauthErrorResponse {
    pub error: Option<String>,
    pub error_description: Option<String>,
    pub message: Option<String>,
    pub code: Option<u64>,
}

/// The mathematical value of an [`OauthErrorResponse`].
pub struct OauthErrorResponseView {
    pub error: Option<Seq<char>>,
    pub error_description: Option<Seq<char>>,
    pub message: Option<Seq<char>>,
    pub code: Option<u64>,
}

impl View for OauthErrorResponse {
    type V = OauthErrorResponseView;

    open spec fn view(&self) -> OauthErrorResponseView {
        OauthErrorResponseView {
            error: opt_text(self.error),
            error_description: opt_text(self.error_description),
            message: opt_text(self.message),
            code: self.code,
        }
    }
}

/// The summary line of a token-endpoint error that names itself.
pub open spec fn oauth_error_text(error: Seq<char>, description: Seq<char>) -> Seq<char> {
    "Discord API (oauth) Error "@ + error + " \""@ + description + "\""@
}

/// The field-by-field rendering of a token-endpoint error.
pub open spec fn oauth_error_debug(v: OauthErrorResponseView) -> Seq<char> {
    "OauthErrorResponse { error: "@ + debug_opt_text(v.error) + ", error_description: "@
        + debug_opt_text(v.error_description) + ", message: "@ + debug_opt_text(v.message)
        + ", code: "@ + debug_opt_number(v.code) + " }"@
}

/// The summary line of a token-endpoint error: by its `error` pair where
/// both parts are there, else by its `code` pair, else field by field.
pub open spec fn oauth_error_summary(v: OauthErrorResponseView) -> Seq<char> {
    if v.error is Some && v.error_description is Some {
        oauth_error_text(v.error->0, v.error_description->0)
    } else if v.code is Some && v.message is Some {
        api_error_text(v.code->0, v.message->0)
    } else {
        "Discord API Error "@ + oauth_error_debug(v)
    }
}

impl OauthErrorResponse {
    /// The summary line of the error.
    pub open spec fn text(self) -> Seq<char> {
        oauth_error_summary(self@)
    }

    /// Renders the error field by field.
    pub fn debug_string(&self) -> (s: String)
        ensures
            s@ == oauth_error_debug(self@),
    {
        let mut s = String::from_str("OauthErrorResponse { error: ");
        append_debug_opt_text(&mut s, &self.error);
        s.append(", error_description: ");
        append_debug_opt_text(&mut s, &self.error_description);
        s.append(", message: ");
        append_debug_opt_text(&mut s, &self.message);
        s.append(", code: ");
        append_debug_opt_number(&mut s, &self.code);
        s.append(" }");
        s
    }

    /// Renders the summary line of the error.
    pub fn to_string(&self) -> (s: String)
        ensures
            s@ == self.text(),
    {
        match (&self.error, &self.error_description) {
            (Some(error), Some(description)) => {
                let mut s = String::from_str("Discord API (oauth) Error ");
                s.append(error.as_str());
                s.append(" \"");
                s.append(description.as_str());
                s.append("\"");
                s
            },
            _ => match (&self.code, &self.message) {
                (Some(code), Some(message)) => api_error_string(*code, message.as_str()),
                _ => {
                    let mut s = String::from_str("Discord API Error ");
                    s.append(self.debug_string().as_str());
                    s
                },
            },
        }
    }
}

impl Clone for OauthErrorResponse {
    fn clone(&self) -> (r: Self)
        ensures
            r@ == self@,
    {
        OauthErrorResponse {
            error: clone_opt(&self.error),
            error_description: clone_opt(&self.error_description),
            message: clone_opt(&self.message),
            code: self.code,
        }
    }
}

/// The success body of the token endpoint.
#[derive(Debug, PartialEq, Eq)]
pub struct OauthTokenResponse {
    pub access_token: String,
    pub token_type: String,
    pub expires_in: u32,
    pub refresh_token: String,
    pub scope: String,
}

/// The mathematical value of an [`OauthTokenResponse`].
pub struct OauthTokenResponseView {
    pub access_token: Seq<char>,
    pub token_type: Seq<char>,
    pub expires_in: u32,
    pub refresh_token: Seq<char>,
    pub scope: Seq<char>,
}

impl View for OauthTokenResponse {
    type V = OauthTokenResponseView;

    open spec fn view(&self) -> OauthTokenResponseView {
        OauthTokenResponseView {
            access_token: self.access_token@,
            token_type: self.token_type@,
            expires_in: self.expires_in,
            refresh_token: self.refresh_token@,
            scope: self.scope@,
        }
    }
}

impl Clone for OauthTokenResponse {
    fn clone(&self) -> (r: Self)
        ensures
            r@ == self@,
    {
        OauthTokenResponse {
            access_token: self.access_token.clone(),
            token_type: self.token_type.clone(),
            expires_in: self.expires_in,
            refresh_token: self.refresh_token.clone(),
            scope: self.scope.clone(),
        }
    }
}

/// The identity that the provider reports for a bearer token.
#[derive(Debug, PartialEq, Eq)]
pub struct CurrentUserResponse {
    pub id: String,
    pub username: String,
    pub avatar: Option<String>,
    pub discriminator: String,
    pub public_flags: u64,
    pub flags: u64,
}

/// The mathematical value of a [`CurrentUserResponse`].
pub struct CurrentUserResponseView {
    pub id: Seq<char>,
    pub username: Seq<char>,
    pub avatar: Option<Seq<char>>,
    pub discriminator: Seq<char>,
    pub public_flags: u64,
    pub flags: u64,
}

impl View for CurrentUserResponse {
    type V = CurrentUserResponseView;

    open spec fn view(&self) -> CurrentUserResponseView {
        CurrentUserResponseView {
            id: self.id@,
            username: self.username@,
            avatar: opt_text(self.avatar),
            discriminator: self.discriminator@,
            public_flags: self.public_flags,
            flags: self.flags,
        }
    }
}

/// One guild that the provider reports for a bearer token.
#[derive(Debug, PartialEq, Eq)]
pub struct CurrentGuildsItem {
    pub id: String,
    pub name: String,
    pub owner: bool,
}

/// The mathematical value of a [`CurrentGuildsItem`].
pub struct CurrentGuildsItemView {
    pub id: Seq<char>,
    pub name: Seq<char>,
    pub owner: bool,
}

impl View for CurrentGuildsItem {
    type V = CurrentGuildsItemView;

    open spec fn view(&self) -> CurrentGuildsItemView {
        CurrentGuildsItemView { id: self.id@, name: self.name@, owner: self.owner }
    }
}

/// The success body of the guilds endpoint.
pub type CurrentGuildsResponse = Vec<CurrentGuildsItem>;

impl Clone for CurrentGuildsItem {
    fn clone(&self) -> (r: Self)
        ensures
            r@ == self@,
    {
        CurrentGuildsItem { id: self.id.clone(), name: self.name.clone(), owner: self.owner }
    }
}

/// How a request is sent.
#[derive(Clone, Copy, Debug, PartialEq, Eq, Structural)]
pub enum Method {
    Get,
    Post,
}

/// A request to the provider: everything that the transport needs to send
/// it.
#[derive(Debug, PartialEq, Eq)]
pub struct Request {
    pub method: Method,
    pub url: String,
    /// The value of the `Authorization` header, where the request has one.
    pub authorization: Option<String>,
    /// The fields of the form body, in order; empty where the request has
    /// no body.
    pub form: Vec<(String, String)>,
}

/// The mathematical value of a [`Request`].
pub struct RequestView {
    pub method: Method,
    pub url: Seq<char>,
    pub authorization: Option<Seq<char>>,
    pub form: Seq<(Seq<char>, Seq<char>)>,
}

impl View for Request {
    type V = RequestView;

    open spec fn view(&self) -> RequestView {
        RequestView {
            method: self.method,
            url: self.url@,
            authorization: opt_text(self.authorization),
            form: pair_texts(self.form@),
        }
    }
}

/// The request that trades a one-time authorization code for a token.
pub open spec fn token_request(
    client_id: Seq<char>,
    client_secret: Seq<char>,
    code: Seq<char>,
    redirect_uri: Seq<char>,
) -> RequestView {
    RequestView {
        method: Method::Post,
        url: API_ENDPOINT@ + "/oauth2/token"@,
        authorization: None,
        form: seq![
            ("client_id"@, client_id),
            ("client_secret"@, client_secret),
            ("grant_type"@, "authorization_code"@),
            ("code"@, code),
            ("redirect_uri"@, redirect_uri),
        ],
    }
}

/// A bearer-authenticated read of a resource of the provider.
pub open spec fn resource_request(path: Seq<char>, token: Seq<char>) -> RequestView {
    RequestView {
        method: Method::Get,
        url: API_ENDPOINT@ + path,
        authorization: Some("Bearer "@ + token),
        form: Seq::empty(),
    }
}

fn resource(path: &str, token: &str) -> (r: Request)
    ensures
        r@ == resource_request(path@, token@),
{
    let mut url = String::from_str(API_ENDPOINT);
    url.append(path);
    let mut bearer = String::from_str("Bearer ");
    bearer.append(token);
    let r = Request { method: Method::Get, url, authorization: Some(bearer), form: Vec::new() };
    assert(pair_texts(r.form@) =~= Seq::empty());
    r
}

/// The request that trades a one-time authorization code, with the
/// client's credentials, for a token.
pub fn oauth_token(data: &AppData, code: &str, redirect_uri: &str) -> (r: Request)
    ensures
        r@ == token_request(data.client_id@, data.client_secret@, code@, redirect_uri@),
{
    let mut url = String::from_str(API_ENDPOINT);
    url.append("/oauth2/token");
    let mut form: Vec<(String, String)> = Vec::new();
    form.push(pair("client_id", data.client_id.as_str()));
    form.push(pair("client_secret", data.client_secret.as_str()));
    form.push(pair("grant_type", "authorization_code"));
    form.push(pair("code", code));
    form.push(pair("redirect_uri", redirect_uri));
    let r = Request { method: Method::Post, url, authorization: None, form };
    assert(pair_texts(r.form@) =~= token_request(
        data.client_id@,
        data.client_secret@,
        code@,
        redirect_uri@,
    ).form);
    r
}

/// The request for the identity behind a token.
pub fn current_user(token: &str) -> (r: Request)
    ensures
        r@ == resource_request("/users/@me"@, token@),
{
    resource("/users/@me", token)
}

/// The request for the guilds of the identity behind a token.
pub fn current_user_guilds(token: &str) -> (r: Request)
    ensures
        r@ == resource_request("/users/@me/guilds"@, token@),
{
    resource("/users/@me/guilds", token)
}

/// A body that matched one of the provider's two declared error schemas.
#[derive(Debug, PartialEq, Eq)]
pub enum ProviderFailure {
    Api(ErrorResponse),
    Oauth(OauthErrorResponse),
}

/// What came back for a request. A body is tried against the success
/// schema and against the error schema of its endpoint: `success` holds
/// the first reading where it matched, `failure` the second, or the reason
/// for which the body matched neither.
#[derive(Debug, PartialEq, Eq)]
pub enum Fetched<R> {
    /// The exchange failed before a body arrived.
    Unreachable(String),
    /// A body arrived.
    Body { success: Option<R>, failure: Result<ProviderFailure, String> },
}

/// The error that a reply without a success reading comes to: the
/// provider's rejection where the body matched the error schema, and a
/// failure of the transport otherwise.
pub open spec fn req_error<R>(fetched: Fetched<R>) -> ErrorKindView {
    match fetched {
        Fetched::Unreachable(reason) => ErrorKindView::Error(CauseView::Transport(reason@)),
        Fetched::Body { success: _, failure: Ok(ProviderFailure::Api(e)) } => ErrorKindView::Error(
            CauseView::Api(e@),
        ),
        Fetched::Body { success: _, failure: Ok(ProviderFailure::Oauth(e)) } => ErrorKindView::Error(
            CauseView::Oauth(e@),
        ),
        Fetched::Body { success: _, failure: Err(reason) } => ErrorKindView::Error(
            CauseView::Transport(reason@),
        ),
    }
}

/// Decodes a reply with fallback: the success reading wins; without one
/// the error reading is the provider's rejection; without either the
/// reply is a failure of the transport.
pub fn req<R>(fetched: Fetched<R>) -> (r: Result<R, Error>)
    ensures
        match fetched {
            Fetched::Body { success: Some(value), failure: _ } => r is Ok && r->Ok_0 == value,
            _ => r is Err && r->Err_0@ == req_error(fetched),
        },
{
    match fetched {
        Fetched::Unreachable(reason) => Err(Error::map_from(Cause::Transport(reason))),
        Fetched::Body { success: Some(value), failure: _ } => Ok(value),
        Fetched::Body { success: None, failure: Ok(ProviderFailure::Api(e)) } => Err(
            Error::map_from(Cause::Api(e)),
        ),
        Fetched::Body { success: None, failure: Ok(ProviderFailure::Oauth(e)) } => Err(
            Error::map_from(Cause::Oauth(e)),
        ),
        Fetched::Body { success: None, failure: Err(reason) } => Err(
            Error::map_from(Cause::Transport(reason)),
        ),
    }
}

} // verus!
