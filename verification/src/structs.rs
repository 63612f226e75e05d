//! The service's data types, its error type, and how each error is answered.

use vstd::prelude::*;

verus! {

/// Which part of a profile held inappropriate content.
#[derive(Debug, Clone, Copy, PartialEq, Eq, Structural)]
pub enum ProfanityErrorType {
    Pronouns,
    Bio,
}

/// What went wrong in a database call, as far as the answer depends on it.
#[derive(Debug, Clone, Copy, PartialEq, Eq, Structural)]
pub enum DbErrorKind {
    /// The query matched no row.
    RowNotFound,
    /// Any other failure.
    Other,
}

/// Every failure of the service. Failures that come from a library keep only
/// what decides the answer (for the database, whether a row was missing).
#[derive(Debug, Clone, Copy, PartialEq, Eq, Structural)]
pub enum GenericError {
    InvalidAuthenticationError,
    MissingAuthHeaderError,
    IOError,
    MissingEnvVarError,
    GetMysqlErr(DbErrorKind),
    EnvError,
    RocketError,
    UuidError,
    ParseIntError,
    JsonError,
    MissingFieldError,
    InvalidFieldError,
    RegexError,
    ReqwestError,
    SystemTimeError,
    InvalidPronounsError,
    ProfanityError(ProfanityErrorType),
    InvalidWebsiteError,
}

/// The message that describes an error.
pub open spec fn error_text(e: GenericError) -> Seq<char> {
    match e {
        GenericError::InvalidAuthenticationError => "invalid authentication"@,
        GenericError::MissingAuthHeaderError => "missing auth header"@,
        GenericError::IOError => "io error"@,
        GenericError::MissingEnvVarError => "missing environment variable"@,
        GenericError::GetMysqlErr(_) => "database error"@,
        GenericError::EnvError => "env error"@,
        GenericError::RocketError => "rocket error"@,
        GenericError::UuidError => "invalid uuid"@,
        GenericError::ParseIntError => "invalid digit"@,
        GenericError::JsonError => "json error"@,
        GenericError::MissingFieldError => "missing field"@,
        GenericError::InvalidFieldError => "invalid field"@,
        GenericError::RegexError => "regex error"@,
        GenericError::ReqwestError => "reqwest error"@,
        GenericError::SystemTimeError => "system time error"@,
        GenericError::InvalidPronounsError => "invalid pronouns"@,
        GenericError::ProfanityError(_) => "inappropriate content"@,
        GenericError::InvalidWebsiteError => "invalid website"@,
    }
}

/// The envelope of every JSON answer of the service.
pub struct ApiResponse<T> {
    pub success: bool,
    pub message: String,
    pub data: Option<T>,
}

impl<T> From<T> for ApiResponse<T> {
    /// A successful answer carrying `meow`.
    fn from(meow: T) -> (res: ApiResponse<T>)
        ensures
            res.success,
            res.message@ == Seq::<char>::empty(),
            res.data == Some(meow),
    {
        ApiResponse { success: true, message: String::new(), data: Some(meow) }
    }
}

impl<T> vstd::std_specs::convert::FromSpecImpl<T> for ApiResponse<T> {
    open spec fn obeys_from_spec() -> bool {
        false
    }

    open spec fn from_spec(v: T) -> ApiResponse<T> {
        arbitrary()
    }
}

/// How an error is answered.
pub enum ErrorReply {
    /// A JSON envelope with `success` false and no data, sent with this status.
    Json { status: u16, body: ApiResponse<Option<String>> },
    /// The bare status, whose body the matching catcher writes.
    Status(u16),
}

pub const STATUS_BAD_REQUEST: u16 = 400;

pub const STATUS_NOT_FOUND: u16 = 404;

pub const STATUS_INTERNAL_SERVER_ERROR: u16 = 500;

/// The status and message of the JSON answer to an error, or `None` where the
/// error is answered by its bare status, which is always 500.
pub open spec fn reply_plan(e: GenericError) -> Option<(u16, Seq<char>)> {
    match e {
        GenericError::InvalidAuthenticationError => Some((500u16, error_text(e))),
        GenericError::UuidError => Some((400u16, "invalid uuid"@)),
        GenericError::IOError => Some((500u16, error_text(e))),
        GenericError::MissingEnvVarError => Some((500u16, error_text(e))),
        GenericError::GetMysqlErr(DbErrorKind::RowNotFound) => Some((404u16, "not found"@)),
        GenericError::GetMysqlErr(DbErrorKind::Other) => Some((500u16, error_text(e))),
        _ => None,
    }
}

/// `reply` answers with the given plan.
pub open spec fn reply_matches(reply: ErrorReply, plan: Option<(u16, Seq<char>)>) -> bool {
    match plan {
        Some((status, message)) => reply matches ErrorReply::Json { status: s, body } && s
            == status && !body.success && body.message@ == message && body.data is None,
        None => reply == ErrorReply::Status(500u16),
    }
}

impl GenericError {
    /// The message that describes this error.
    pub fn to_string(&self) -> (res: String)
        ensures
            res@ == error_text(*self),
    {
        let text: &str = match self {
            GenericError::InvalidAuthenticationError => "invalid authentication",
            GenericError::MissingAuthHeaderError => "missing auth header",
            GenericError::IOError => "io error",
            GenericError::MissingEnvVarError => "missing environment variable",
            GenericError::GetMysqlErr(_) => "database error",
            GenericError::EnvError => "env error",
            GenericError::RocketError => "rocket error",
            GenericError::UuidError => "invalid uuid",
            GenericError::ParseIntError => "invalid digit",
            GenericError::JsonError => "json error",
            GenericError::MissingFieldError => "missing field",
            GenericError::InvalidFieldError => "invalid field",
            GenericError::RegexError => "regex error",
            GenericError::ReqwestError => "reqwest error",
            GenericError::SystemTimeError => "system time error",
            GenericError::InvalidPronounsError => "invalid pronouns",
            GenericError::ProfanityError(_) => "inappropriate content",
            GenericError::InvalidWebsiteError => "invalid website",
        };
        String::from_str(text)
    }

    /// A JSON answer with this error's own message.
    pub fn make_response(self, code: u16) -> (reply: ErrorReply)
        ensures
            reply_matches(reply, Some((code, error_text(self)))),
    {
        let message = self.to_string();
        self.make_response_msg(code, message)
    }

    /// A JSON answer with the given status and message.
    pub fn make_response_msg(self, code: u16, message: String) -> (reply: ErrorReply)
        ensures
            reply_matches(reply, Some((code, message@))),
    {
        let body: ApiResponse<Option<String>> = ApiResponse { success: false, message, data: None };
        ErrorReply::Json { status: code, body }
    }

    /// How this error is answered: a few errors get a JSON envelope whose
    /// status tells the client what failed; every other one is a bare 500.
    pub fn respond_to(self) -> (reply: ErrorReply)
        ensures
            reply_matches(reply, reply_plan(self)),
    {
        match self {
            GenericError::InvalidAuthenticationError => self.make_response(
                STATUS_INTERNAL_SERVER_ERROR,
            ),
            GenericError::UuidError => self.make_response_msg(
                STATUS_BAD_REQUEST,
                String::from_str("invalid uuid"),
            ),
            GenericError::IOError => self.make_response(STATUS_INTERNAL_SERVER_ERROR),
            GenericError::MissingEnvVarError => self.make_response(STATUS_INTERNAL_SERVER_ERROR),
            GenericError::GetMysqlErr(kind) => match kind {
                DbErrorKind::RowNotFound => self.make_response_msg(
                    STATUS_NOT_FOUND,
                    String::from_str("not found"),
                ),
                DbErrorKind::Other => self.make_response(STATUS_INTERNAL_SERVER_ERROR),
            },
            _ => ErrorReply::Status(STATUS_INTERNAL_SERVER_ERROR),
        }
    }
}

/// A user's public profile.
pub struct Profile {
    pub id: i64,
    pub bio: Option<String>,
    pub pronouns: Option<String>,
    pub website: Option<String>,
    pub social_github: Option<String>,
    pub social_bluesky: Option<String>,
    pub social_fediverse: Option<String>,
    pub social_discord: Option<String>,
    pub social_matrix: Option<String>,
    pub social_tumblr: Option<String>,
    pub social_myspace: Option<String>,
    pub social_facebook: Option<String>,
    pub color1: Option<i32>,
    pub color2: Option<i32>,
}

/// A row of the `users` table.
pub struct DBUser {
    pub id: i64,
    pub token: Option<String>,
    pub token_expiration: Option<i64>,
}

/// A row of the `user_misc` table.
pub struct DBUserMisc {
    pub id: i64,
    pub check_timeout: Option<i64>,
}

/// A login challenge: the account must send `challenge` to the bot account
/// `bot_account_id`. `id` is the challenge's UUID as a 128-bit number.
#[derive(Clone)]
pub struct Challenge {
    pub bot_account_id: u32,
    pub challenge: String,
    pub id: u128,
}

/// A message from a Geometry Dash inbox.
#[derive(Debug)]
pub struct GDMessage {
    /// The message's numeric id, kept as the text it came as.
    pub id: String,
    /// The account that sent it.
    pub from: i64,
    pub subject: String,
}

} // verus!
