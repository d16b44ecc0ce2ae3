//! The error taxonomy and its mapping to what a client is shown.

use vstd::prelude::*;
use vstd::std_specs::convert::FromSpecImpl;
use vstd::string::*;
use crate::discord::{
    api_error_text, oauth_error_summary, ErrorResponse, ErrorResponseView, OauthErrorResponse,
    OauthErrorResponseView,
};
use crate::response::{SimpleResponse, SimpleResponseView};
use crate::text::{decimal, decimal_digits};

verus! {

/// The closed set of causes that an error can wrap.
#[derive(Debug, PartialEq, Eq)]
pub enum Cause {
    /// A resource endpoint of the provider rejected the request.
    Api(ErrorResponse),
    /// The token endpoint of the provider rejected the request.
    Oauth(OauthErrorResponse),
    /// The exchange with the provider failed or its body could not be read.
    Transport(String),
    /// The store failed: lost connection or violated constraint.
    Store(String),
    /// A query string could not be encoded.
    Encoding,
}

/// The mathematical value of a [`Cause`].
pub enum CauseView {
    Api(ErrorResponseView),
    Oauth(OauthErrorResponseView),
    Transport(Seq<char>),
    Store(Seq<char>),
    Encoding,
}

impl View for Cause {
    type V = CauseView;

    open spec fn view(&self) -> CauseView {
        match *self {
            Cause::Api(e) => CauseView::Api(e@),
            Cause::Oauth(e) => CauseView::Oauth(e@),
            Cause::Transport(m) => CauseView::Transport(m@),
            Cause::Store(m) => CauseView::Store(m@),
            Cause::Encoding => CauseView::Encoding,
        }
    }
}

/// The line that describes a cause.
pub open spec fn cause_text(c: CauseView) -> Seq<char> {
    match c {
        CauseView::Api(e) => api_error_text(e.code, e.message),
        CauseView::Oauth(e) => oauth_error_summary(e),
        CauseView::Transport(m) => m,
        CauseView::Store(m) => m,
        CauseView::Encoding => "could not encode the query"@,
    }
}

impl Cause {
    /// Renders the line that describes the cause.
    pub fn to_string(&self) -> (s: String)
        ensures
            s@ == cause_text(self@),
    {
        match self {
            Cause::Api(e) => e.to_string(),
            Cause::Oauth(e) => e.to_string(),
            Cause::Transport(m) => m.clone(),
            Cause::Store(m) => m.clone(),
            Cause::Encoding => String::from_str("could not encode the query"),
        }
    }
}

/// What went wrong.
#[derive(Debug, PartialEq, Eq)]
pub enum ErrorKind {
    /// A wrapped cause from the provider, the transport or the store.
    Error(Cause),
    /// The store answered, but not as an insert must.
    Database(String),
    /// An outcome that already is an envelope for the client.
    Simple(SimpleResponse),
}

/// The mathematical value of an [`ErrorKind`], and of an [`Error`].
pub enum ErrorKindView {
    Error(CauseView),
    Database(Seq<char>),
    Simple(SimpleResponseView),
}

impl View for ErrorKind {
    type V = ErrorKindView;

    open spec fn view(&self) -> ErrorKindView {
        match *self {
            ErrorKind::Error(c) => ErrorKindView::Error(c@),
            ErrorKind::Database(m) => ErrorKindView::Database(m@),
            ErrorKind::Simple(s) => ErrorKindView::Simple(s@),
        }
    }
}

/// An error of the session and authorization core.
#[derive(Debug, PartialEq, Eq)]
pub struct Error {
    pub kind: ErrorKind,
}

impl View for Error {
    type V = ErrorKindView;

    open spec fn view(&self) -> ErrorKindView {
        self.kind@
    }
}

/// The ways in which a request fails to carry a live session.
#[derive(Clone, Copy, Debug, PartialEq, Eq, Structural)]
pub enum AuthError {
    /// No cookie was presented.
    NoSession,
    /// The cookie is not a well-formed token.
    InvalidToken,
    /// The store holds no session under the token.
    Forbidden,
}

impl AuthError {
    /// The code under which the failure is shown.
    pub open spec fn code(self) -> u16 {
        match self {
            AuthError::NoSession => 409,
            AuthError::InvalidToken => 400,
            AuthError::Forbidden => 403,
        }
    }

    /// The message under which the failure is shown.
    pub open spec fn message(self) -> Seq<char> {
        match self {
            AuthError::NoSession => "No session"@,
            AuthError::InvalidToken => "Invalid token"@,
            AuthError::Forbidden => "Forbidden"@,
        }
    }

    /// The envelope of the failure.
    pub open spec fn envelope(self) -> SimpleResponseView {
        SimpleResponseView { code: self.code(), message: self.message() }
    }

    /// The failure as an error value.
    pub open spec fn error(self) -> ErrorKindView {
        ErrorKindView::Simple(self.envelope())
    }

    /// Builds the envelope of the failure.
    pub fn response(self) -> (r: SimpleResponse)
        ensures
            r@ == self.envelope(),
    {
        match self {
            AuthError::NoSession => SimpleResponse {
                code: 409,
                message: String::from_str("No session"),
            },
            AuthError::InvalidToken => SimpleResponse {
                code: 400,
                message: String::from_str("Invalid token"),
            },
            AuthError::Forbidden => SimpleResponse {
                code: 403,
                message: String::from_str("Forbidden"),
            },
        }
    }
}

/// The error of a request for a resource that does not exist.
pub open spec fn not_found_error() -> ErrorKindView {
    ErrorKindView::Simple(SimpleResponseView { code: 404, message: "Not Found"@ })
}

/// The message shown for every failure whose detail stays on the server.
pub open spec fn internal_message() -> Seq<char> {
    "Internal Server Error"@
}

/// The status code under which an error is shown.
pub open spec fn status_of(e: ErrorKindView) -> u16 {
    match e {
        ErrorKindView::Simple(s) => s.code,
        _ => 500,
    }
}

/// The envelope under which an error is shown: an envelope is shown as it
/// is, a rejection by the provider with its summary line, and every other
/// failure with the internal message alone.
pub open spec fn envelope_of(e: ErrorKindView) -> SimpleResponseView {
    match e {
        ErrorKindView::Simple(s) => s,
        ErrorKindView::Error(CauseView::Api(r)) => SimpleResponseView {
            code: 500,
            message: api_error_text(r.code, r.message),
        },
        ErrorKindView::Error(CauseView::Oauth(r)) => SimpleResponseView {
            code: 500,
            message: oauth_error_summary(r),
        },
        _ => SimpleResponseView { code: 500, message: internal_message() },
    }
}

/// The line that describes an error in full, for the server's own record.
pub open spec fn display_of(e: ErrorKindView) -> Seq<char> {
    match e {
        ErrorKindView::Database(m) => "DatabaseError: "@ + m,
        ErrorKindView::Error(c) => cause_text(c),
        ErrorKindView::Simple(s) => "SimpleError: "@ + decimal_digits(s.code as nat) + " ("@
            + s.message + ")"@,
    }
}

/// The authorization failure that an error stands for, told by its code.
pub open spec fn auth_of(e: ErrorKindView) -> Option<AuthError> {
    match e {
        ErrorKindView::Simple(s) => if s.code == 409 {
            Some(AuthError::NoSession)
        } else if s.code == 400 {
            Some(AuthError::InvalidToken)
        } else if s.code == 403 {
            Some(AuthError::Forbidden)
        } else {
            None
        },
        _ => None,
    }
}

/// Whether trying again can help: only a failed exchange is worth a retry,
/// a rejection by the provider is final.
pub open spec fn retryable(e: ErrorKindView) -> bool {
    e matches ErrorKindView::Error(CauseView::Transport(_))
}

impl Error {
    /// Wraps a cause.
    pub fn map_from(error: Cause) -> (e: Error)
        ensures
            e@ == ErrorKindView::Error(error@),
    {
        Error { kind: ErrorKind::Error(error) }
    }

    /// Wraps an envelope.
    pub fn from_simple(error: SimpleResponse) -> (e: Error)
        ensures
            e@ == ErrorKindView::Simple(error@),
    {
        Error { kind: ErrorKind::Simple(error) }
    }

    /// The error of an authorization failure.
    pub fn from_auth(failure: AuthError) -> (e: Error)
        ensures
            e@ == failure.error(),
    {
        Error::from_simple(failure.response())
    }

    /// The error of a request for a resource that does not exist.
    pub fn not_found() -> (e: Error)
        ensures
            e@ == not_found_error(),
    {
        Error::from_simple(SimpleResponse { code: 404, message: String::from_str("Not Found") })
    }

    /// The wrapped cause, if the error has one.
    pub fn source(&self) -> (r: Option<&Cause>)
        ensures
            match self.kind {
                ErrorKind::Error(c) => r == Some(&c),
                _ => r is None,
            },
    {
        match &self.kind {
            ErrorKind::Error(c) => Some(c),
            _ => None,
        }
    }

    /// The status code under which the error is shown.
    pub fn status_code(&self) -> (code: u16)
        ensures
            code == status_of(self@),
    {
        match &self.kind {
            ErrorKind::Simple(s) => s.code,
            _ => 500,
        }
    }

    /// The envelope under which the error is shown to a client. No text of
    /// the store or of the transport reaches it.
    pub fn error_response(&self) -> (r: SimpleResponse)
        ensures
            r@ == envelope_of(self@),
            r.code == status_of(self@),
    {
        match &self.kind {
            ErrorKind::Simple(s) => s.clone(),
            ErrorKind::Error(Cause::Api(e)) => SimpleResponse { code: 500, message: e.to_string() },
            ErrorKind::Error(Cause::Oauth(e)) => SimpleResponse {
                code: 500,
                message: e.to_string(),
            },
            _ => SimpleResponse { code: 500, message: String::from_str("Internal Server Error") },
        }
    }

    /// Renders the line that describes the error in full.
    pub fn to_string(&self) -> (s: String)
        ensures
            s@ == display_of(self@),
    {
        match &self.kind {
            ErrorKind::Database(m) => {
                let mut s = String::from_str("DatabaseError: ");
                s.append(m.as_str());
                s
            },
            ErrorKind::Error(c) => c.to_string(),
            ErrorKind::Simple(r) => {
                let mut s = String::from_str("SimpleError: ");
                s.append(decimal(r.code as u64).as_str());
                s.append(" (");
                s.append(r.message.as_str());
                s.append(")");
                s
            },
        }
    }

    /// The authorization failure that the error stands for, told by its code.
    pub fn auth(&self) -> (r: Option<AuthError>)
        ensures
            r == auth_of(self@),
    {
        match &self.kind {
            ErrorKind::Simple(s) => {
                if s.code == 409 {
                    Some(AuthError::NoSession)
                } else if s.code == 400 {
                    Some(AuthError::InvalidToken)
                } else if s.code == 403 {
                    Some(AuthError::Forbidden)
                } else {
                    None
                }
            },
            _ => None,
        }
    }

    /// Whether trying again can help.
    pub fn is_retryable(&self) -> (r: bool)
        ensures
            r == retryable(self@),
    {
        match &self.kind {
            ErrorKind::Error(Cause::Transport(_)) => true,
            _ => false,
        }
    }
}

impl From<Cause> for Error {
    fn from(error: Cause) -> (e: Error) {
        Error { kind: ErrorKind::Error(error) }
    }
}

impl FromSpecImpl<Cause> for Error {
    open spec fn obeys_from_spec() -> bool {
        true
    }

    open spec fn from_spec(error: Cause) -> Error {
        Error { kind: ErrorKind::Error(error) }
    }
}

/// The three authorization failures are told apart by their codes, and an
/// error made from one stands for it and for no other.
pub proof fn lemma_auth_errors_distinct(a: AuthError, b: AuthError)
    ensures
        auth_of(a.error()) == Some(a),
        status_of(a.error()) == a.code(),
        a != b ==> a.code() != b.code(),
        a != b ==> a.error() != b.error(),
        a.error() != not_found_error(),
{
}

} // verus!
