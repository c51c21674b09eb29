use vstd::prelude::*;

use crate::auth::UserLookup;
use crate::dtos::{
    filters, has_timestamps, FilterUserDto, LoginUserDto, RegisterUserDto, UserData,
    UserLoginResponseDto, UserResponseDto,
};
use crate::error::{ErrorMessage, HttpError};
use crate::models::User;
use crate::password::{compare, compare_result, hash, hash_of};
use crate::token::{create_token_at, now_secs, token_text, CLOCK_BOUND};

verus! {

/// What the persistence collaborator answered to saving a new user.
#[derive(Debug)]
pub enum SaveOutcome {
    Saved(User),
    DuplicateEmail,
    Failed,
}

/// The error a failure becomes on the wire.
pub open spec fn is_error_of(e: HttpError, m: ErrorMessage) -> bool {
    e.message@ == m.text() && e.status == m.status_spec()
}

/// Checks a registration and hashes its password: a broken rule is a bad request with its
/// message, a hashing failure a server error. The hash is what is to be saved.
pub fn register_request(body: &RegisterUserDto) -> (r: Result<String, HttpError>)
    ensures
        body.issue() matches Some(m) ==> (r matches Err(e) && e.status == 400 && e.message@ == m),
        body.issue() is None ==> match r {
            Ok(h) => hash_of(body.password@, h@) && h@ != body.password@,
            Err(e) => is_error_of(e, ErrorMessage::ServerError),
        },
{
    match body.validate() {
        Err(m) => return Err(HttpError::bat_request(m)),
        Ok(()) => {},
    }
    match hash(body.password.as_str()) {
        Ok(h) => Ok(h),
        Err(_) => Err(ErrorMessage::ServerError.into_http_error()),
    }
}

/// The answer to a registration, on what saving the user gave: the filtered record, a
/// conflict for a taken e-mail, or a server error that tells nothing of the cause.
pub fn register_response(outcome: SaveOutcome) -> (r: Result<UserResponseDto, HttpError>)
    ensures
        match outcome {
            SaveOutcome::Saved(u) => if has_timestamps(u) {
                r matches Ok(d) && d.status@ == "success"@ && filters(u, d.data.user)
            } else {
                r matches Err(e) && is_error_of(e, ErrorMessage::ServerError)
            },
            SaveOutcome::DuplicateEmail => r matches Err(e) && is_error_of(e, ErrorMessage::EmailExist),
            SaveOutcome::Failed => r matches Err(e) && is_error_of(e, ErrorMessage::ServerError),
        },
{
    match outcome {
        SaveOutcome::Saved(u) => if u.created_at.is_some() && u.updated_at.is_some() {
            Ok(UserResponseDto {
                status: "success".to_owned(),
                data: UserData { user: FilterUserDto::filter_user(&u) },
            })
        } else {
            Err(ErrorMessage::ServerError.into_http_error())
        },
        SaveOutcome::DuplicateEmail => Err(ErrorMessage::EmailExist.into_http_error()),
        SaveOutcome::Failed => Err(ErrorMessage::ServerError.into_http_error()),
    }
}

/// Checks a login request: a broken rule is a bad request with its message.
pub fn login_request(body: &LoginUserDto) -> (r: Result<(), HttpError>)
    ensures
        body.issue() matches Some(m) ==> (r matches Err(e) && e.status == 400 && e.message@ == m),
        body.issue() is None ==> r is Ok,
{
    match body.validate() {
        Err(m) => Err(HttpError::bat_request(m)),
        Ok(()) => Ok(()),
    }
}

/// The answer to a login at time `now`, on the record found by e-mail: a token for the
/// user's id when the password matches its stored hash; `WrongCredentials` for an unknown
/// e-mail or a password that does not match, alike; a server error, with nothing of the
/// cause, for a stored hash that does not parse.
pub fn login_response_at(body: &LoginUserDto, lookup: UserLookup, secret: &[u8], ttl_seconds: i64,
    now: i64) -> (r: Result<UserLoginResponseDto, HttpError>)
    ensures
        lookup is NotFound ==> (r matches Err(e) && is_error_of(e, ErrorMessage::WrongCredentials)),
        lookup is Failed ==> (r matches Err(e) && is_error_of(e, ErrorMessage::ServerError)),
        lookup matches UserLookup::Found(u) ==> {
            let c = compare_result(body.password@, u.password@);
            &&& c == Ok::<bool, ErrorMessage>(false) ==> (r matches Err(e)
                && is_error_of(e, ErrorMessage::WrongCredentials))
            &&& c is Err ==> (r matches Err(e) && is_error_of(e, ErrorMessage::ServerError))
            &&& c == Ok::<bool, ErrorMessage>(true) ==> (r is Ok <==> i64::MIN <= now + ttl_seconds
                <= i64::MAX)
            &&& c == Ok::<bool, ErrorMessage>(true) ==> (r matches Err(e) ==> is_error_of(e,
                ErrorMessage::ServerError))
            &&& r matches Ok(d) ==> d.status@ == "success"@ && d.token@ == token_text(secret@, u.id@,
                now as int, now + ttl_seconds)
        },
{
    let user = match lookup {
        UserLookup::Found(u) => u,
        UserLookup::NotFound => return Err(ErrorMessage::WrongCredentials.into_http_error()),
        UserLookup::Failed => return Err(ErrorMessage::ServerError.into_http_error()),
    };
    match compare(body.password.as_str(), user.password.as_str()) {
        Ok(true) => {},
        Ok(false) => return Err(ErrorMessage::WrongCredentials.into_http_error()),
        Err(_) => return Err(ErrorMessage::ServerError.into_http_error()),
    }
    match create_token_at(user.id.as_str(), secret, now, ttl_seconds) {
        Ok(token) => Ok(UserLoginResponseDto { status: "success".to_owned(), token }),
        Err(e) => Err(e.into_http_error()),
    }
}

/// The answer to a login at the current time.
pub fn login_response(body: &LoginUserDto, lookup: UserLookup, secret: &[u8], ttl_seconds: i64)
    -> (r: Result<UserLoginResponseDto, HttpError>)
    ensures
        lookup is NotFound ==> (r matches Err(e) && is_error_of(e, ErrorMessage::WrongCredentials)),
        lookup is Failed ==> (r matches Err(e) && is_error_of(e, ErrorMessage::ServerError)),
        lookup matches UserLookup::Found(u) ==> {
            let c = compare_result(body.password@, u.password@);
            &&& c == Ok::<bool, ErrorMessage>(false) ==> (r matches Err(e)
                && is_error_of(e, ErrorMessage::WrongCredentials))
            &&& c is Err ==> (r matches Err(e) && is_error_of(e, ErrorMessage::ServerError))
            &&& c == Ok::<bool, ErrorMessage>(true) && i64::MIN + CLOCK_BOUND <= ttl_seconds
                <= i64::MAX - CLOCK_BOUND ==> r is Ok
            &&& c == Ok::<bool, ErrorMessage>(true) ==> (r matches Err(e) ==> is_error_of(e,
                ErrorMessage::ServerError))
            &&& r matches Ok(d) ==> d.status@ == "success"@ && exists|now: i64| d.token@ == #[trigger] token_text(secret@,
                u.id@, now as int, now + ttl_seconds)
        },
{
    let now = now_secs();
    login_response_at(body, lookup, secret, ttl_seconds, now)
}

} // verus!
