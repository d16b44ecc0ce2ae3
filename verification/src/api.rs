//! The request handlers: each resolves the caller's session and then
//! decides what to answer or what to ask of the provider next.

use vstd::prelude::*;
use vstd::string::*;
use crate::database::{
    bound_groups, bump, existing_groups, found, get_session, insert_refusal, inserted, issued,
    lemma_bound_groups, lemma_unissued_is_forbidden, new_session, no_rows_error, session_of,
    session_result, sessions_under, store_error, NewSession, Session, SessionView, Store,
};
use crate::discord::{
    current_user, current_user_guilds, oauth_token, req, req_error, resource_request,
    token_request, CurrentGuildsItem, CurrentGuildsItemView, CurrentUserResponse,
    CurrentUserResponseView, Fetched, OauthTokenResponse, Request, API_ENDPOINT,
};
use crate::error::{AuthError, Cause, CauseView, Error, ErrorKindView};
use crate::response::{SimpleResponse, SimpleResponseView};
use crate::text::{opt_text, pair, pair_texts, ref_texts, texts};
use crate::token::CookieToken;
use crate::types::{CreateGroupRequest, User, UserView};

verus! {

/// The configuration that the handlers share: the client's credentials
/// with the provider.
#[derive(Debug, PartialEq, Eq)]
pub struct AppData {
    pub client_id: String,
    pub client_secret: String,
}

/// A cookie to set with a response.
#[derive(Debug, PartialEq, Eq)]
pub struct Cookie {
    pub name: String,
    pub value: String,
    pub path: String,
    pub http_only: bool,
}

/// The mathematical value of a [`Cookie`].
pub struct CookieView {
    pub name: Seq<char>,
    pub value: Seq<char>,
    pub path: Seq<char>,
    pub http_only: bool,
}

impl View for Cookie {
    type V = CookieView;

    open spec fn view(&self) -> CookieView {
        CookieView {
            name: self.name@,
            value: self.value@,
            path: self.path@,
            http_only: self.http_only,
        }
    }
}

/// What a response carries.
#[derive(Debug, PartialEq, Eq)]
pub enum Body {
    Empty,
    Simple(SimpleResponse),
    User(User),
    Guilds(Vec<CurrentGuildsItem>),
}

/// The mathematical value of a [`Body`].
pub enum BodyView {
    Empty,
    Simple(SimpleResponseView),
    User(UserView),
    Guilds(Seq<CurrentGuildsItemView>),
}

/// The values of a sequence of guilds.
pub open spec fn guild_views(guilds: Seq<CurrentGuildsItem>) -> Seq<CurrentGuildsItemView> {
    guilds.map_values(|g: CurrentGuildsItem| g@)
}

impl View for Body {
    type V = BodyView;

    open spec fn view(&self) -> BodyView {
        match *self {
            Body::Empty => BodyView::Empty,
            Body::Simple(s) => BodyView::Simple(s@),
            Body::User(u) => BodyView::User(u@),
            Body::Guilds(g) => BodyView::Guilds(guild_views(g@)),
        }
    }
}

/// What a handler answers.
#[derive(Debug, PartialEq, Eq)]
pub struct Response {
    pub status: u16,
    /// The target of a redirect.
    pub location: Option<String>,
    pub cookie: Option<Cookie>,
    pub body: Body,
}

/// The mathematical value of a [`Response`].
pub struct ResponseView {
    pub status: u16,
    pub location: Option<Seq<char>>,
    pub cookie: Option<CookieView>,
    pub body: BodyView,
}

impl View for Response {
    type V = ResponseView;

    open spec fn view(&self) -> ResponseView {
        ResponseView {
            status: self.status,
            location: opt_text(self.location),
            cookie: match self.cookie {
                Some(c) => Some(c@),
                None => None,
            },
            body: self.body@,
        }
    }
}

/// The response that is an envelope under its own code.
pub open spec fn simple_view(code: u16, message: Seq<char>) -> ResponseView {
    ResponseView {
        status: code,
        location: None,
        cookie: None,
        body: BodyView::Simple(SimpleResponseView { code, message }),
    }
}

/// The response that is a status alone.
pub open spec fn empty_view(status: u16) -> ResponseView {
    ResponseView { status, location: None, cookie: None, body: BodyView::Empty }
}

/// The redirect to `url`, under the code 302.
pub open spec fn redirect_view(url: Seq<char>) -> ResponseView {
    ResponseView { status: 302, location: Some(url), cookie: None, body: BodyView::Empty }
}

/// The cookie that carries a session's token: named `sess`, for every
/// path, hidden from scripts.
pub open spec fn session_cookie(token: CookieToken) -> CookieView {
    CookieView { name: "sess"@, value: token.text(), path: "/"@, http_only: true }
}

/// The response that ends a handshake: it sets the session cookie and
/// sends the browser to the front page, under the code 307.
pub open spec fn signed_in_view(token: CookieToken) -> ResponseView {
    ResponseView {
        status: 307,
        location: Some("/"@),
        cookie: Some(session_cookie(token)),
        body: BodyView::Empty,
    }
}

/// The response that shows the identity cached in a session.
pub open spec fn user_view(session: SessionView) -> ResponseView {
    ResponseView {
        status: 200,
        location: None,
        cookie: None,
        body: BodyView::User(
            UserView {
                id: session.discord_id,
                name: session.discord_name,
                avatar: session.discord_avatar,
            },
        ),
    }
}

/// The response that lists guilds.
pub open spec fn guilds_view(guilds: Seq<CurrentGuildsItemView>) -> ResponseView {
    ResponseView { status: 200, location: None, cookie: None, body: BodyView::Guilds(guilds) }
}

/// Builds the response that is an envelope under its own code.
pub fn simple_response(code: u16, message: String) -> (r: Response)
    ensures
        r@ == simple_view(code, message@),
{
    Response {
        status: code,
        location: None,
        cookie: None,
        body: Body::Simple(SimpleResponse { code, message }),
    }
}

fn empty_response(status: u16) -> (r: Response)
    ensures
        r@ == empty_view(status),
{
    Response { status, location: None, cookie: None, body: Body::Empty }
}

/// The answer to a ping.
pub fn ping() -> (r: Response)
    ensures
        r@ == simple_view(200, "Pong!"@),
{
    simple_response(200, String::from_str("Pong!"))
}

/// The form encoding that `serde_urlencoded::to_string` gives a list of
/// pairs of texts.
pub uninterp spec fn urlencoded(pairs: Seq<(Seq<char>, Seq<char>)>) -> Seq<char>;

/// Calls `serde_urlencoded::to_string` on the pairs. The contract names
/// the result as [`urlencoded`] of the pairs, and claims that there is
/// one: the serializer takes a sequence of pairs whose keys and values are
/// strings, and fails on other shapes only.
#[verifier::external_body]
fn urlencode(pairs: &Vec<(String, String)>) -> (r: Option<String>)
    ensures
        r is Some,
        r->0@ == urlencoded(pair_texts(pairs@)),
{
    serde_urlencoded::to_string(pairs).ok()
}

/// The query of the provider's authorize page, field by field.
pub open spec fn authorize_pairs(client_id: Seq<char>, redirect_uri: Seq<char>) -> Seq<
    (Seq<char>, Seq<char>),
> {
    seq![
        ("client_id"@, client_id),
        ("redirect_uri"@, redirect_uri),
        ("response_type"@, "code"@),
        ("scope"@, "identify guilds"@),
    ]
}

/// The address of the provider's authorize page with an encoded query.
pub open spec fn authorize_url(query: Seq<char>) -> Seq<char> {
    API_ENDPOINT@ + "/oauth2/authorize?"@ + query
}

/// What the redirect to the provider comes to, given the encoded query.
pub open spec fn provider_redirect(encoded: Option<Seq<char>>) -> Result<
    ResponseView,
    ErrorKindView,
> {
    match encoded {
        Some(query) => Ok(redirect_view(authorize_url(query))),
        None => Err(ErrorKindView::Error(CauseView::Encoding)),
    }
}

/// The values of the outcome of a handler.
pub open spec fn response_result(r: Result<Response, Error>) -> Result<
    ResponseView,
    ErrorKindView,
> {
    match r {
        Ok(response) => Ok(response@),
        Err(e) => Err(e@),
    }
}

/// Builds the query of the provider's authorize page.
pub fn authorize_query(client_id: &str, redirect_uri: &str) -> (pairs: Vec<(String, String)>)
    ensures
        pair_texts(pairs@) == authorize_pairs(client_id@, redirect_uri@),
{
    let mut pairs: Vec<(String, String)> = Vec::new();
    pairs.push(pair("client_id", client_id));
    pairs.push(pair("redirect_uri", redirect_uri));
    pairs.push(pair("response_type", "code"));
    pairs.push(pair("scope", "identify guilds"));
    assert(pair_texts(pairs@) =~= authorize_pairs(client_id@, redirect_uri@));
    pairs
}

/// Builds the redirect to the provider's authorize page from the encoded
/// query, or the error of a query that could not be encoded.
pub fn redirect_to_provider(encoded: Option<String>) -> (r: Result<Response, Error>)
    ensures
        response_result(r) == provider_redirect(opt_text(encoded)),
{
    match encoded {
        Some(query) => {
            let mut url = String::from_str(API_ENDPOINT);
            url.append("/oauth2/authorize?");
            url.append(query.as_str());
            Ok(Response { status: 302, location: Some(url), cookie: None, body: Body::Empty })
        },
        None => Err(Error::map_from(Cause::Encoding)),
    }
}

/// Starts a login: sends the browser to the provider's authorize page,
/// which will send it back to `redirect_url`. Without its configuration
/// the answer is an internal error.
pub fn oauth_redirect(data: Option<&AppData>, redirect_url: &str) -> (r: Result<Response, Error>)
    ensures
        response_result(r) == Ok::<ResponseView, ErrorKindView>(
            match data {
                Some(d) => redirect_view(
                    authorize_url(urlencoded(authorize_pairs(d.client_id@, redirect_url@))),
                ),
                None => empty_view(500),
            },
        ),
{
    match data {
        Some(d) => {
            let pairs = authorize_query(d.client_id.as_str(), redirect_url);
            redirect_to_provider(urlencode(&pairs))
        },
        None => Ok(empty_response(500)),
    }
}

/// The text of an optional borrowed string.
pub open spec fn opt_str(o: Option<&str>) -> Option<Seq<char>> {
    match o {
        Some(s) => Some(s@),
        None => None,
    }
}

/// The cookie token that a request presents, or the way in which it fails
/// to present one.
pub open spec fn presented(cookie: Option<Seq<char>>) -> Result<CookieToken, AuthError> {
    match cookie {
        None => Err(AuthError::NoSession),
        Some(text) => match CookieToken::parsed(text) {
            Some(token) => Ok(token),
            None => Err(AuthError::InvalidToken),
        },
    }
}

/// The session that a request resolves to against the sessions table, or
/// the error for which it resolves to none.
pub open spec fn resolved(rows: Seq<SessionView>, cookie: Option<Seq<char>>) -> Result<
    SessionView,
    ErrorKindView,
> {
    match presented(cookie) {
        Ok(token) => found(sessions_under(rows, token)),
        Err(failure) => Err(failure.error()),
    }
}

/// What resolving a request's session does to the store: it is asked once
/// where the request presents a well-formed token, and not at all
/// otherwise. Nothing in it changes.
pub open spec fn resolving(before: &Store, after: &Store, cookie: Option<Seq<char>>) -> bool {
    &&& after.wf()
    &&& if presented(cookie) is Ok {
        before.read_once(after)
    } else {
        before.untouched(after)
    }
}

/// What presenting a cookie comes to, given the reading of its value:
/// `None` for a request without the cookie, `Some(None)` for a value that
/// is not a well-formed token.
pub fn token_outcome(reading: Option<Option<CookieToken>>) -> (r: Result<CookieToken, Error>)
    ensures
        match reading {
            Some(Some(token)) => r == Ok::<CookieToken, Error>(token),
            Some(None) => r is Err && r->Err_0@ == AuthError::InvalidToken.error(),
            None => r is Err && r->Err_0@ == AuthError::NoSession.error(),
        },
{
    match reading {
        Some(Some(token)) => Ok(token),
        Some(None) => Err(Error::from_auth(AuthError::InvalidToken)),
        None => Err(Error::from_auth(AuthError::NoSession)),
    }
}

/// Reads the cookie token that a request presents.
pub fn session_token(cookie: Option<&str>) -> (r: Result<CookieToken, Error>)
    ensures
        match presented(opt_str(cookie)) {
            Ok(token) => r == Ok::<CookieToken, Error>(token),
            Err(failure) => r is Err && r->Err_0@ == failure.error(),
        },
{
    match cookie {
        Some(text) => token_outcome(Some(CookieToken::parse_str(text))),
        None => token_outcome(None),
    }
}

/// Resolves the session of a request from the value of its `sess`
/// cookie. A request without the cookie has no session; a cookie that is
/// not a well-formed token is invalid; a token under which the store
/// holds no session is forbidden.
pub fn fetch_session(client: &mut Store, cookie: Option<&str>) -> (r: Result<Session, Error>)
    requires
        old(client).wf(),
    ensures
        resolving(old(client), final(client), opt_str(cookie)),
        session_result(r) == resolved(old(client).sessions(), opt_str(cookie)),
        r is Ok ==> old(client).sessions().contains(r->Ok_0@) && presented(opt_str(cookie))
            == Ok::<CookieToken, AuthError>(r->Ok_0@.cookie),
        r is Err ==> auth_failure(r->Err_0@),
{
    let token = session_token(cookie)?;
    get_session(client, &token)
}

/// Whether an error is one of the three authorization failures.
pub open spec fn auth_failure(e: ErrorKindView) -> bool {
    exists|failure: AuthError| e == failure.error()
}

/// Handles the creation of a group: the caller must hold a session.
pub fn create_group(client: &mut Store, cookie: Option<&str>, info: &CreateGroupRequest) -> (r:
    Result<Response, Error>)
    requires
        old(client).wf(),
    ensures
        resolving(old(client), final(client), opt_str(cookie)),
        response_result(r) == match resolved(old(client).sessions(), opt_str(cookie)) {
            Ok(_) => Ok(empty_view(200)),
            Err(e) => Err(e),
        },
{
    let session = fetch_session(client, cookie)?;
    Ok(group_reply(&session, info))
}

/// Answers a session's holder who asks for a group to be created.
pub fn group_reply(session: &Session, info: &CreateGroupRequest) -> (r: Response)
    ensures
        r@ == empty_view(200),
{
    empty_response(200)
}

/// What a session's holder is shown of a user: the own identity under
/// `@me`, and nothing under any other name.
pub open spec fn user_answer(session: SessionView, id: Seq<char>) -> ResponseView {
    if id == "@me"@ {
        user_view(session)
    } else {
        simple_view(404, "Not Found"@)
    }
}

/// Answers a session's holder who asks for a user.
pub fn user_reply(session: Session, id: &str) -> (r: Response)
    ensures
        r@ == user_answer(session@, id@),
{
    if is_me(id) {
        let user: User = User::from(session);
        Response { status: 200, location: None, cookie: None, body: Body::User(user) }
    } else {
        simple_response(404, String::from_str("Not Found"))
    }
}

fn is_me(id: &str) -> (r: bool)
    ensures
        r == (id@ == "@me"@),
{
    String::from_str(id) == String::from_str("@me")
}

/// Handles a request for a user: the caller must hold a session, and the
/// only user to ask for is `@me`.
pub fn get_user(client: &mut Store, cookie: Option<&str>, id: &str) -> (r: Result<Response, Error>)
    requires
        old(client).wf(),
    ensures
        resolving(old(client), final(client), opt_str(cookie)),
        response_result(r) == match resolved(old(client).sessions(), opt_str(cookie)) {
            Ok(session) => Ok(user_answer(session, id@)),
            Err(e) => Err(e),
        },
{
    let session = fetch_session(client, cookie)?;
    Ok(user_reply(session, id))
}

/// How the handling of a request goes on once the session is resolved.
#[derive(Debug, PartialEq, Eq)]
pub enum Step {
    /// Send the request to the provider and come back with what it
    /// answered.
    Fetch(Request),
    /// Answer the caller.
    Reply(Response),
}

/// The mathematical value of a [`Step`].
pub enum StepView {
    Fetch(crate::discord::RequestView),
    Reply(ResponseView),
}

impl View for Step {
    type V = StepView;

    open spec fn view(&self) -> StepView {
        match *self {
            Step::Fetch(request) => StepView::Fetch(request@),
            Step::Reply(response) => StepView::Reply(response@),
        }
    }
}

/// The values of the outcome of a handler that may go on.
pub open spec fn step_result(r: Result<Step, Error>) -> Result<StepView, ErrorKindView> {
    match r {
        Ok(step) => Ok(step@),
        Err(e) => Err(e@),
    }
}

/// How a request for a user's guilds goes on for a session's holder: the
/// guilds are fetched with the session's credential under `@me`, and
/// nothing is there under any other name.
pub open spec fn guilds_next(session: SessionView, id: Seq<char>) -> StepView {
    if id == "@me"@ {
        StepView::Fetch(resource_request("/users/@me/guilds"@, session.token))
    } else {
        StepView::Reply(simple_view(404, "Not Found"@))
    }
}

/// Decides how a request for a user's guilds goes on for a session's
/// holder.
pub fn guilds_step(session: &Session, id: &str) -> (step: Step)
    ensures
        step@ == guilds_next(session@, id@),
{
    if is_me(id) {
        Step::Fetch(current_user_guilds(session.token.as_str()))
    } else {
        Step::Reply(simple_response(404, String::from_str("Not Found")))
    }
}

/// Handles a request for the guilds for which the caller may still create
/// a group, up to the question to the provider: the caller must hold a
/// session, and the only user to ask for is `@me`.
pub fn get_elligible_guilds(client: &mut Store, cookie: Option<&str>, id: &str) -> (r: Result<
    Step,
    Error,
>)
    requires
        old(client).wf(),
    ensures
        resolving(old(client), final(client), opt_str(cookie)),
        step_result(r) == match resolved(old(client).sessions(), opt_str(cookie)) {
            Ok(session) => Ok(guilds_next(session, id@)),
            Err(e) => Err(e),
        },
{
    let session = fetch_session(client, cookie)?;
    Ok(guilds_step(&session, id))
}

/// The code that the provider's redirect carries, or the bad request that
/// a redirect without one is answered with.
pub fn code_of<'a>(code: Option<&'a str>) -> (r: Result<&'a str, Response>)
    ensures
        match code {
            Some(c) => r == Ok::<&str, Response>(c),
            None => r is Err && r->Err_0@ == empty_view(400),
        },
{
    match code {
        Some(c) => Ok(c),
        None => Err(empty_response(400)),
    }
}

/// How the handling of the provider's redirect starts: with the exchange
/// of the code, or with a bad request where the query has none.
pub fn oauth_code(data: &AppData, code: Option<&str>, redirect_uri: &str) -> (step: Step)
    ensures
        step@ == match code {
            Some(c) => StepView::Fetch(
                token_request(data.client_id@, data.client_secret@, c@, redirect_uri@),
            ),
            None => StepView::Reply(empty_view(400)),
        },
{
    match code_of(code) {
        Ok(c) => Step::Fetch(oauth_token(data, c, redirect_uri)),
        Err(response) => Step::Reply(response),
    }
}

/// Takes the provider's answer to the exchange of the code: with a token
/// the handshake goes on to ask for the identity behind it; a rejection or
/// a failed exchange ends it.
pub fn oauth_code_exchanged(fetched: Fetched<OauthTokenResponse>) -> (r: Result<
    (OauthTokenResponse, Request),
    Error,
>)
    ensures
        match fetched {
            Fetched::Body { success: Some(token), failure: _ } => r is Ok && r->Ok_0.0 == token
                && r->Ok_0.1@ == resource_request("/users/@me"@, token.access_token@),
            _ => r is Err && r->Err_0@ == req_error(fetched),
        },
{
    let token = req(fetched)?;
    let next = current_user(token.access_token.as_str());
    Ok((token, next))
}

/// The identity that the provider's report of a user stands for.
pub open spec fn identity_of(user: CurrentUserResponseView) -> UserView {
    UserView { id: user.id, name: user.username, avatar: user.avatar }
}

/// Builds the response that ends a handshake. The value of the cookie
/// that it sets reads back as the token.
pub fn signed_in(token: CookieToken) -> (r: Response)
    ensures
        r@ == signed_in_view(token),
        presented(Some(token.text())) == Ok::<CookieToken, AuthError>(token),
{
    let cookie = Cookie {
        name: String::from_str("sess"),
        value: token.to_simple(),
        path: String::from_str("/"),
        http_only: true,
    };
    Response {
        status: 307,
        location: Some(String::from_str("/")),
        cookie: Some(cookie),
        body: Body::Empty,
    }
}

/// The row to store for a handshake under the given cookie token, once
/// the provider has answered the question for the identity; a rejection
/// or a failed exchange is the error, and there is no row.
pub fn session_to_store(
    cookie: CookieToken,
    token: &OauthTokenResponse,
    fetched: Fetched<CurrentUserResponse>,
) -> (r: Result<NewSession, Error>)
    ensures
        match fetched {
            Fetched::Body { success: Some(user), failure: _ } => r is Ok && forall|
                id: i64,
                updated: u64,
            | #[trigger]
                r->Ok_0.stored(id, updated) == session_of(
                    cookie,
                    token@,
                    identity_of(user@),
                    id,
                    updated,
                ),
            _ => r is Err && r->Err_0@ == req_error(fetched),
        },
{
    let user: User = User::from(req(fetched)?);
    Ok(new_session(cookie, token, &user))
}

/// How a handshake under the given cookie token ends, given the store's
/// answer to the insert: with the session cookie where exactly one row
/// was affected, and with the error of the insert otherwise.
pub fn stored_outcome(affected: Result<u64, String>, cookie: CookieToken) -> (r: Result<
    Response,
    Error,
>)
    ensures
        response_result(r) == match affected {
            Ok(n) => if n == 1 {
                Ok(signed_in_view(cookie))
            } else {
                Err(no_rows_error())
            },
            Err(reason) => Err(store_error(reason@)),
        },
        r is Ok ==> presented(Some(cookie.text())) == Ok::<CookieToken, AuthError>(cookie),
{
    let issued_token = inserted(affected, cookie)?;
    Ok(signed_in(issued_token))
}

/// Ends a handshake under the given cookie token. With the identity the
/// session is stored, one row, and the cookie is set; a rejection, a
/// failed exchange or a refusal by the store ends the handshake with its
/// error and without a session.
pub fn finish_handshake(
    client: &mut Store,
    cookie: CookieToken,
    token: &OauthTokenResponse,
    fetched: Fetched<CurrentUserResponse>,
) -> (r: Result<Response, Error>)
    requires
        old(client).wf(),
    ensures
        final(client).wf(),
        final(client).grants() == old(client).grants(),
        final(client).groups() == old(client).groups(),
        final(client).now() == old(client).now(),
        match fetched {
            Fetched::Body { success: Some(user), failure: _ } => {
                &&& final(client).statements() == bump(old(client).statements())
                &&& match insert_refusal(old(client).sessions(), cookie) {
                    Some(reason) => {
                        &&& response_result(r) == Err::<ResponseView, ErrorKindView>(
                            store_error(reason),
                        )
                        &&& final(client).sessions() == old(client).sessions()
                    },
                    None => {
                        &&& response_result(r) == Ok::<ResponseView, ErrorKindView>(
                            signed_in_view(cookie),
                        )
                        &&& presented(Some(cookie.text())) == Ok::<CookieToken, AuthError>(cookie)
                        &&& final(client).sessions() == old(client).sessions().push(
                            session_of(
                                cookie,
                                token@,
                                identity_of(user@),
                                (old(client).sessions().len() + 1) as i64,
                                old(client).now(),
                            ),
                        )
                    },
                }
            },
            _ => {
                &&& response_result(r) == Err::<ResponseView, ErrorKindView>(req_error(fetched))
                &&& old(client).untouched(final(client))
            },
        },
{
    let row = session_to_store(cookie, token, fetched)?;
    assert(row.session_cookie == cookie) by {
        assert(row.stored(0, 0).cookie == cookie);
    }
    let affected = client.insert_session(row);
    stored_outcome(affected, cookie)
}

/// Ends a handshake under a fresh random cookie token. With the identity
/// the session is stored, one row, and the cookie is set; a rejection, a
/// failed exchange or the store's refusal of the drawn token ends the
/// handshake with its error and without a session. An empty store refuses
/// no token.
pub fn oauth_code_identified(
    client: &mut Store,
    token: &OauthTokenResponse,
    fetched: Fetched<CurrentUserResponse>,
) -> (r: Result<Response, Error>)
    requires
        old(client).wf(),
    ensures
        final(client).wf(),
        final(client).grants() == old(client).grants(),
        final(client).groups() == old(client).groups(),
        final(client).now() == old(client).now(),
        match fetched {
            Fetched::Body { success: Some(user), failure: _ } => {
                &&& final(client).statements() == bump(old(client).statements())
                &&& match r {
                    Ok(response) => exists|cookie: CookieToken|
                        {
                            &&& cookie.is_random_layout()
                            &&& !issued(old(client).sessions(), cookie)
                            &&& response@ == signed_in_view(cookie)
                            &&& presented(Some(cookie.text())) == Ok::<CookieToken, AuthError>(
                                cookie,
                            )
                            &&& final(client).sessions() == old(client).sessions().push(
                                #[trigger] session_of(
                                    cookie,
                                    token@,
                                    identity_of(user@),
                                    (old(client).sessions().len() + 1) as i64,
                                    old(client).now(),
                                ),
                            )
                        },
                    Err(e) => {
                        &&& final(client).sessions() == old(client).sessions()
                        &&& exists|cookie: CookieToken|
                            {
                                &&& cookie.is_random_layout()
                                &&& (#[trigger] insert_refusal(old(client).sessions(), cookie))
                                    is Some
                                &&& e@ == store_error(
                                    insert_refusal(old(client).sessions(), cookie)->0,
                                )
                            }
                    },
                }
                &&& old(client).sessions().len() == 0 ==> r is Ok
            },
            _ => {
                &&& response_result(r) == Err::<ResponseView, ErrorKindView>(req_error(fetched))
                &&& old(client).untouched(final(client))
            },
        },
{
    let cookie = CookieToken::generate();
    let ghost asked = fetched;
    let r = finish_handshake(client, cookie, token, fetched);
    proof {
        if r is Err && asked matches Fetched::Body { success: Some(_), failure: _ } {
            assert(insert_refusal(old(client).sessions(), cookie) is Some);
        }
    }
    r
}

/// The guild of each entry.
pub open spec fn guild_ids_of(guilds: Seq<CurrentGuildsItemView>) -> Seq<Seq<char>> {
    guilds.map_values(|g: CurrentGuildsItemView| g.id)
}

/// Those of the guilds that have no group yet, in their order.
pub open spec fn eligible(guilds: Seq<CurrentGuildsItemView>, groups: Seq<Seq<char>>) -> Seq<
    CurrentGuildsItemView,
> {
    guilds.filter(|g: CurrentGuildsItemView| !groups.contains(g.id))
}

/// Lists the guild of each entry.
pub fn guild_ids<'a>(guilds: &'a Vec<CurrentGuildsItem>) -> (ids: Vec<&'a String>)
    ensures
        ref_texts(ids@) == guild_ids_of(guild_views(guilds@)),
{
    let mut ids: Vec<&'a String> = Vec::new();
    let mut i: usize = 0;
    while i < guilds.len()
        invariant
            i <= guilds.len(),
            ref_texts(ids@) =~= guild_ids_of(guild_views(guilds@)).take(i as int),
        decreases guilds.len() - i,
    {
        let ghost before = ids@;
        ids.push(&guilds[i].id);
        assert(ref_texts(ids@) =~= ref_texts(before).push(guilds@[i as int].id@));
        i += 1;
    }
    assert(guild_ids_of(guild_views(guilds@)).take(i as int) =~= guild_ids_of(
        guild_views(guilds@),
    ));
    ids
}

/// Keeps those of the guilds that are not among `existing`, in their
/// order.
pub fn without_groups(guilds: Vec<CurrentGuildsItem>, existing: &Vec<String>) -> (kept: Vec<
    CurrentGuildsItem,
>)
    ensures
        guild_views(kept@) == eligible(guild_views(guilds@), texts(existing@)),
{
    let mut kept: Vec<CurrentGuildsItem> = Vec::new();
    let mut i: usize = 0;
    let ghost all = guild_views(guilds@);
    let ghost pred = |g: CurrentGuildsItemView| !texts(existing@).contains(g.id);
    assert(guild_views(kept@) =~= all.take(0).filter(pred)) by {
        reveal(Seq::filter);
    }
    while i < guilds.len()
        invariant
            i <= guilds.len(),
            all == guild_views(guilds@),
            pred == |g: CurrentGuildsItemView| !texts(existing@).contains(g.id),
            guild_views(kept@) == all.take(i as int).filter(pred),
        decreases guilds.len() - i,
    {
        proof {
            all.lemma_take_succ_push(i as int);
            all.take(i as int).lemma_filter_push(all[i as int], pred);
        }
        if !crate::text::contains_text(existing, &guilds[i].id) {
            let ghost before = kept@;
            kept.push(guilds[i].clone());
            assert(guild_views(kept@) =~= guild_views(before).push(all[i as int]));
        }
        i += 1;
    }
    assert(all.take(i as int) =~= all);
    kept
}

/// Two tests that agree on every entry of a sequence keep the same
/// entries.
pub proof fn lemma_filter_agree<A>(s: Seq<A>, p: spec_fn(A) -> bool, q: spec_fn(A) -> bool)
    requires
        forall|i: int| 0 <= i < s.len() ==> p(#[trigger] s[i]) == q(s[i]),
    ensures
        s.filter(p) == s.filter(q),
    decreases s.len(),
{
    if s.len() == 0 {
        reveal(Seq::filter);
    } else {
        let front = s.drop_last();
        assert(s =~= front.push(s.last()));
        assert forall|i: int| 0 <= i < front.len() implies p(#[trigger] front[i]) == q(
            front[i],
        ) by {
            assert(front[i] == s[i]);
        }
        lemma_filter_agree(front, p, q);
        front.lemma_filter_push(s.last(), p);
        front.lemma_filter_push(s.last(), q);
        assert(p(s[s.len() - 1]) == q(s[s.len() - 1]));
    }
}

/// To leave out the guilds that the store found among the candidates is
/// to leave out the guilds that have a group.
pub proof fn lemma_eligible(guilds: Seq<CurrentGuildsItemView>, groups: Seq<Seq<char>>)
    ensures
        eligible(guilds, bound_groups(groups, guild_ids_of(guilds))) == eligible(guilds, groups),
{
    let ids = guild_ids_of(guilds);
    let found = bound_groups(groups, ids);
    let p = |g: CurrentGuildsItemView| !found.contains(g.id);
    let q = |g: CurrentGuildsItemView| !groups.contains(g.id);
    lemma_bound_groups(groups, ids);
    assert forall|i: int| 0 <= i < guilds.len() implies p(#[trigger] guilds[i]) == q(
        guilds[i],
    ) by {
        let id = guilds[i].id;
        assert(ids[i] == id);
        assert(ids.contains(id));
        assert(found.contains(id) <==> groups.contains(id) && ids.contains(id));
    }
    lemma_filter_agree(guilds, p, q);
}

/// Takes the provider's answer to the question for the caller's guilds
/// and answers the caller with those that have no group yet. The store is
/// asked once, unless there is no guild to ask about. A rejection or a
/// failed exchange is the answer's error.
pub fn elligible_guilds_fetched(client: &mut Store, fetched: Fetched<Vec<CurrentGuildsItem>>) -> (r:
    Result<Response, Error>)
    ensures
        old(client).wf() ==> final(client).wf(),
        match fetched {
            Fetched::Body { success: Some(guilds), failure: _ } => {
                &&& response_result(r) == Ok::<ResponseView, ErrorKindView>(
                    guilds_view(eligible(guild_views(guilds@), old(client).groups())),
                )
                &&& if guilds@.len() == 0 {
                    old(client).untouched(final(client))
                } else {
                    old(client).read_once(final(client))
                }
            },
            _ => {
                &&& response_result(r) == Err::<ResponseView, ErrorKindView>(req_error(fetched))
                &&& old(client).untouched(final(client))
            },
        },
{
    let guilds = req(fetched)?;
    proof {
        lemma_eligible(guild_views(guilds@), client.groups());
    }
    let ids = guild_ids(&guilds);
    assert(ids@.len() == ref_texts(ids@).len());
    assert(guilds@.len() == guild_ids_of(guild_views(guilds@)).len());
    let existing = existing_groups(client, ids)?;
    Ok(guilds_response(without_groups(guilds, &existing)))
}

/// Builds the response that lists guilds.
pub fn guilds_response(guilds: Vec<CurrentGuildsItem>) -> (r: Response)
    ensures
        r@ == guilds_view(guild_views(guilds@)),
{
    Response { status: 200, location: None, cookie: None, body: Body::Guilds(guilds) }
}

/// What a route asks of a request before it takes it.
#[derive(Clone, Copy, Debug, PartialEq, Eq, Structural)]
pub enum Guard {
    /// The method is `GET`.
    Get,
    /// The method is `POST` and the content type is `application/json`.
    PostJson,
}

/// The handler that a route leads to.
#[derive(Clone, Copy, Debug, PartialEq, Eq, Structural)]
pub enum Handler {
    Ping,
    OauthRedirect,
    OauthCode,
    CreateGroup,
    GetUser,
    GetElligibleGuilds,
}

/// One route of the service.
#[derive(Debug, PartialEq, Eq)]
pub struct Route {
    /// The path, in which `{id}` stands for one segment.
    pub pattern: String,
    /// The name under which the route's address is looked up.
    pub name: Option<String>,
    pub guard: Guard,
    pub handler: Handler,
}

/// The mathematical value of a [`Route`].
pub struct RouteView {
    pub pattern: Seq<char>,
    pub name: Option<Seq<char>>,
    pub guard: Guard,
    pub handler: Handler,
}

impl View for Route {
    type V = RouteView;

    open spec fn view(&self) -> RouteView {
        RouteView {
            pattern: self.pattern@,
            name: opt_text(self.name),
            guard: self.guard,
            handler: self.handler,
        }
    }
}

/// The values of a sequence of routes.
pub open spec fn route_views(routes: Seq<Route>) -> Seq<RouteView> {
    routes.map_values(|r: Route| r@)
}

/// The routes of the service, in the order in which they are tried.
pub open spec fn routes() -> Seq<RouteView> {
    seq![
        RouteView { pattern: "/ping"@, name: None, guard: Guard::Get, handler: Handler::Ping },
        RouteView {
            pattern: "/oauth/redirect"@,
            name: None,
            guard: Guard::Get,
            handler: Handler::OauthRedirect,
        },
        RouteView {
            pattern: "/oauth/code"@,
            name: Some("oauth_code"@),
            guard: Guard::Get,
            handler: Handler::OauthCode,
        },
        RouteView {
            pattern: "/group"@,
            name: None,
            guard: Guard::PostJson,
            handler: Handler::CreateGroup,
        },
        RouteView {
            pattern: "/user/{id}"@,
            name: None,
            guard: Guard::Get,
            handler: Handler::GetUser,
        },
        RouteView {
            pattern: "/user/{id}/guilds"@,
            name: None,
            guard: Guard::Get,
            handler: Handler::GetElligibleGuilds,
        },
    ]
}

fn route(pattern: &str, guard: Guard, handler: Handler) -> (r: Route)
    ensures
        r@ == (RouteView { pattern: pattern@, name: None, guard, handler }),
{
    Route { pattern: String::from_str(pattern), name: None, guard, handler }
}

/// Lists the routes of the service, in the order in which they are tried.
pub fn configure() -> (table: Vec<Route>)
    ensures
        route_views(table@) == routes(),
{
    let mut table: Vec<Route> = Vec::new();
    table.push(route("/ping", Guard::Get, Handler::Ping));
    table.push(route("/oauth/redirect", Guard::Get, Handler::OauthRedirect));
    table.push(
        Route {
            pattern: String::from_str("/oauth/code"),
            name: Some(String::from_str("oauth_code")),
            guard: Guard::Get,
            handler: Handler::OauthCode,
        },
    );
    table.push(route("/group", Guard::PostJson, Handler::CreateGroup));
    table.push(route("/user/{id}", Guard::Get, Handler::GetUser));
    table.push(route("/user/{id}/guilds", Guard::Get, Handler::GetElligibleGuilds));
    assert(route_views(table@) =~= routes());
    table
}

/// A request resolves to no session in one of three ways that a caller can
/// tell apart: without a cookie it has no session, with a cookie that is
/// not a well-formed token the token is invalid, and with a well-formed
/// token under which no session was issued it is forbidden.
pub proof fn lemma_resolution_failures(rows: Seq<SessionView>, text: Seq<char>)
    ensures
        resolved(rows, None) == Err::<SessionView, ErrorKindView>(AuthError::NoSession.error()),
        CookieToken::parsed(text) is None ==> resolved(rows, Some(text)) == Err::<
            SessionView,
            ErrorKindView,
        >(AuthError::InvalidToken.error()),
        CookieToken::parsed(text) is Some && !issued(rows, CookieToken::parsed(text)->0)
            ==> resolved(rows, Some(text)) == Err::<SessionView, ErrorKindView>(
            AuthError::Forbidden.error(),
        ),
        AuthError::NoSession.error() != AuthError::InvalidToken.error(),
        AuthError::NoSession.error() != AuthError::Forbidden.error(),
        AuthError::InvalidToken.error() != AuthError::Forbidden.error(),
        AuthError::NoSession.code() == 409,
        AuthError::InvalidToken.code() == 400,
        AuthError::Forbidden.code() == 403,
{
    if CookieToken::parsed(text) is Some && !issued(rows, CookieToken::parsed(text)->0) {
        lemma_unissued_is_forbidden(rows, CookieToken::parsed(text)->0);
    }
}

} // verus!
