//! The admin request/response endpoint: its messages, and the decisions
//! that turn a query into a response.
use vstd::prelude::*;
use crate::invite::{error_message, CreateInviteForUserError, CreateInviteForUserResult};
use crate::text::{
    id_error_text, id_refusal, int_error_message, lemma_id_error_exact, parsed_id, same_text, IntErrorKind,
};

verus! {

/// A query to the endpoint.
pub enum InfernoplexQuery {
    /// Creates an invite to a server, for the user of `session` if given.
    CreateInvite { session: Option<String>, guild_id: String },
}

/// A successful answer.
pub enum InfernoplexResponse {
    CreateInvite { result: CreateInviteForUserResult },
}

/// A failed answer.
pub enum InfernoplexError {
    CreateInvite { err: CreateInviteForUserError, message: String },
    GenericError { message: String },
}

/// A failed answer with its HTTP status, and whether it tells the client
/// that its session is invalid.
pub struct InfernoplexErrorResponse {
    pub status: u16,
    pub session_invalid: bool,
    pub error: InfernoplexError,
}

pub const STATUS_BAD_REQUEST: u16 = 400;

pub const STATUS_FORBIDDEN: u16 = 403;

pub const STATUS_INTERNAL_SERVER_ERROR: u16 = 500;

impl InfernoplexErrorResponse {
    pub fn new(status: u16, session_invalid: bool, error: InfernoplexError) -> (r: Self)
        ensures
            r == (InfernoplexErrorResponse { status, session_invalid, error }),
    {
        InfernoplexErrorResponse { status, session_invalid, error }
    }
}

/// A session that authorizes a client. Times are in seconds since the Unix
/// epoch.
pub struct Session {
    pub id: String,
    pub name: Option<String>,
    pub created_at: i64,
    pub session_type: String,
    pub target_type: String,
    pub target_id: String,
    pub perm_limits: Vec<String>,
    pub expiry: i64,
}

impl Session {
    /// Whether the session has expired at `now`, and so is swept.
    pub fn is_expired(&self, now: i64) -> (r: bool)
        ensures
            r == (self.expiry < now),
    {
        self.expiry < now
    }
}

/// Relies on serenity's `FromStr` for `GuildId`, which parses a `u64` with
/// `str::parse` and refuses zero.
#[verifier::external_body]
fn parse_guild_id(s: &str) -> (r: Option<u64>)
    ensures
        r == parsed_id(s@),
{
    s.parse::<serenity::all::GuildId>().ok().map(|g| g.get())
}

/// Relies on serenity's `FromStr` for `UserId`, which parses a `u64` with
/// `str::parse` and refuses zero.
#[verifier::external_body]
fn parse_user_id(s: &str) -> (r: Option<u64>)
    ensures
        r == parsed_id(s@),
{
    s.parse::<serenity::all::UserId>().ok().map(|u| u.get())
}

pub open spec fn generic_message(e: InfernoplexErrorResponse) -> Seq<char> {
    match e.error {
        InfernoplexError::GenericError { message } => message@,
        InfernoplexError::CreateInvite { message, .. } => message@,
    }
}

fn rejection(status: u16, session_invalid: bool, message: &str) -> (r: InfernoplexErrorResponse)
    ensures
        r.status == status,
        r.session_invalid == session_invalid,
        r.error is GenericError,
        generic_message(r) == message@,
{
    InfernoplexErrorResponse {
        status,
        session_invalid,
        error: InfernoplexError::GenericError { message: String::from_str(message) },
    }
}

/// `prefix` followed by the reason why `s` is refused as an id.
fn id_refusal_message(prefix: &str, s: &str) -> (r: String)
    requires
        parsed_id(s@) is None,
    ensures
        r@ == prefix@ + id_error_text(s@),
{
    proof {
        lemma_id_error_exact(s@);
    }
    let kind = match id_refusal(s) {
        Some(k) => k,
        None => {
            assert(false);
            IntErrorKind::InvalidDigit
        },
    };
    let mut m = String::from_str(prefix);
    m.append(int_error_message(kind));
    m
}

fn generic_rejection(status: u16, message: String) -> (r: InfernoplexErrorResponse)
    ensures
        r.status == status,
        !r.session_invalid,
        r.error is GenericError,
        generic_message(r) == message@,
{
    InfernoplexErrorResponse { status, session_invalid: false, error: InfernoplexError::GenericError { message } }
}

/// The server a query names: a non-zero decimal id, or a bad request.
pub fn query_guild(guild_id: &str) -> (r: Result<u64, InfernoplexErrorResponse>)
    ensures
        match parsed_id(guild_id@) {
            Some(g) => r == Ok::<u64, InfernoplexErrorResponse>(g),
            None => r matches Err(e) && e.status == STATUS_BAD_REQUEST && !e.session_invalid
                && generic_message(e) == "Invalid guild ID: "@ + id_error_text(guild_id@),
        },
{
    match parse_guild_id(guild_id) {
        Some(g) => Ok(g),
        None => Err(generic_rejection(STATUS_BAD_REQUEST, id_refusal_message("Invalid guild ID: ", guild_id))),
    }
}

/// The user a session authorizes. An unknown session is refused and marked
/// invalid; a session of anything but a user, or with a malformed user id,
/// is refused.
pub fn session_user(session: Option<&Session>) -> (r: Result<u64, InfernoplexErrorResponse>)
    ensures
        match session {
            None => r matches Err(e) && e.status == STATUS_FORBIDDEN && e.session_invalid
                && generic_message(e) == "Invalid session token"@,
            Some(s) => if s.target_type@ != "user"@ {
                r matches Err(e) && e.status == STATUS_FORBIDDEN && !e.session_invalid
                    && generic_message(e) == "CreateInvite can only be called on a user session"@
            } else {
                match parsed_id(s.target_id@) {
                    Some(u) => r == Ok::<u64, InfernoplexErrorResponse>(u),
                    None => r matches Err(e) && e.status == STATUS_FORBIDDEN && !e.session_invalid
                        && generic_message(e) == "Invalid user ID: "@ + id_error_text(s.target_id@),
                }
            },
        },
{
    let s = match session {
        Some(s) => s,
        None => {
            return Err(rejection(STATUS_FORBIDDEN, true, "Invalid session token"));
        },
    };
    if !same_text(s.target_type.as_str(), "user") {
        return Err(rejection(STATUS_FORBIDDEN, false, "CreateInvite can only be called on a user session"));
    }
    match parse_user_id(s.target_id.as_str()) {
        Some(u) => Ok(u),
        None => Err(generic_rejection(STATUS_FORBIDDEN, id_refusal_message("Invalid user ID: ", s.target_id.as_str()))),
    }
}

/// The answer to an invite query, from the invite or the reason none was
/// given.
pub fn invite_response(result: Result<CreateInviteForUserResult, CreateInviteForUserError>) -> (r: Result<
    InfernoplexResponse,
    InfernoplexErrorResponse,
>)
    ensures
        match result {
            Ok(res) => r == Ok::<InfernoplexResponse, InfernoplexErrorResponse>(
                InfernoplexResponse::CreateInvite { result: res },
            ),
            Err(e) => match r {
                Err(InfernoplexErrorResponse {
                    status,
                    session_invalid,
                    error: InfernoplexError::CreateInvite { err, message },
                }) => status == STATUS_INTERNAL_SERVER_ERROR && !session_invalid && err == e && message@
                    == error_message(e),
                _ => false,
            },
        },
{
    match result {
        Ok(res) => Ok(InfernoplexResponse::CreateInvite { result: res }),
        Err(e) => {
            let message = e.message();
            Err(
                InfernoplexErrorResponse {
                    status: STATUS_INTERNAL_SERVER_ERROR,
                    session_invalid: false,
                    error: InfernoplexError::CreateInvite { err: e, message },
                },
            )
        },
    }
}

/// The invite for a user once the platform was asked to create one: its
/// link, or a generic error with the platform's reason.
pub fn per_user_invite_result(created: Result<String, String>) -> (r: Result<
    CreateInviteForUserResult,
    CreateInviteForUserError,
>)
    ensures
        match created {
            Ok(url) => r == Ok::<CreateInviteForUserResult, CreateInviteForUserError>(
                CreateInviteForUserResult::Invite { url },
            ),
            Err(reason) => match r {
                Err(CreateInviteForUserError::Generic { message }) => message@ == "Failed to create invite: "@
                    + reason@,
                _ => false,
            },
        },
{
    match created {
        Ok(url) => Ok(CreateInviteForUserResult::Invite { url }),
        Err(reason) => {
            let mut message = String::from_str("Failed to create invite: ");
            message.append(reason.as_str());
            Err(CreateInviteForUserError::Generic { message })
        },
    }
}

} // verus!
