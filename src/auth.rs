use vstd::prelude::*;

use crate::error::ErrorMessage;
use crate::models::{User, UserRole};
use crate::text::{chars_of, copy_range, same_chars, string_of};
use crate::token::{decode_post, decode_token_at, now_secs, TokenClaims};

verus! {

/// The text of an optional request field.
pub open spec fn text_opt(o: Option<&str>) -> Option<Seq<char>> {
    match o {
        Some(s) => Some(s@),
        None => None,
    }
}

/// The token in an authorization header of the form `Bearer <token>`, if it has that form.
pub open spec fn bearer_of(header: Seq<char>) -> Option<Seq<char>> {
    if header.len() >= 7 && header.subrange(0, 7) == "Bearer "@ {
        Some(header.subrange(7, header.len() as int))
    } else {
        None
    }
}

/// The credential of a request: the bearer token of the authorization header if there is a
/// non-empty one, else the token cookie if it is non-empty.
pub open spec fn credential_of(authorization: Option<Seq<char>>, cookie: Option<Seq<char>>) -> Option<Seq<char>> {
    let bearer = match authorization {
        Some(h) => bearer_of(h),
        None => None,
    };
    if bearer matches Some(t) && t.len() > 0 {
        bearer
    } else if cookie matches Some(c) && c.len() > 0 {
        cookie
    } else {
        None
    }
}

/// The first stage on a credential `t`: the claim when the token decodes at `now`,
/// else `InvalidToken`.
pub open spec fn verified_step(t: Seq<char>, key: Seq<u8>, now: int, r: GuardStep) -> bool {
    match r {
        GuardStep::Lookup(c) => decode_post(t, key, now, Ok(c)),
        GuardStep::Reject(e) => e == ErrorMessage::InvalidToken && decode_post(t, key, now, Err(e)),
    }
}

/// What the persistence collaborator answered to a lookup of the claim's subject.
#[derive(Debug)]
pub enum UserLookup {
    Found(User),
    NotFound,
    Failed,
}

/// The guard's first stage: reject the request, or look up the claim's subject.
#[derive(Debug)]
pub enum GuardStep {
    Reject(ErrorMessage),
    Lookup(TokenClaims),
}

/// A request-pipeline stage that lets a request through only with a valid token of an
/// existing user whose role is in the allow-set.
#[derive(Debug)]
pub struct RequireAuth {
    pub allowed_roles: Vec<UserRole>,
    pub secret: Vec<u8>,
}

/// The result of the guard's last stage, on the allow-set and the lookup's answer.
pub open spec fn finish_result(allowed: Seq<UserRole>, lookup: UserLookup) -> Result<User, ErrorMessage> {
    match lookup {
        UserLookup::Found(u) => if allowed.contains(u.role) {
            Ok(u)
        } else {
            Err(ErrorMessage::PermissionDenied)
        },
        UserLookup::NotFound => Err(ErrorMessage::UserNoLongerExist),
        UserLookup::Failed => Err(ErrorMessage::ServerError),
    }
}

fn token_in_header(header: &str) -> (r: Option<String>)
    ensures
        r matches Some(t) ==> bearer_of(header@) == Some(t@),
        r is None ==> bearer_of(header@) is None,
{
    let h = chars_of(header);
    let prefix = chars_of("Bearer ");
    proof {
        reveal_strlit("Bearer ");
    }
    if h.len() < prefix.len() {
        return None;
    }
    let head = copy_range(&h, 0, prefix.len());
    if same_chars(&head, &prefix) {
        let rest = copy_range(&h, prefix.len(), h.len());
        Some(string_of(rest.as_slice()))
    } else {
        None
    }
}

impl RequireAuth {
    /// A guard that admits exactly the listed roles, verifying tokens with `secret`.
    pub fn allowed_roles(roles: Vec<UserRole>, secret: Vec<u8>) -> (r: Self)
        ensures
            r.allowed_roles@ == roles@,
            r.secret@ == secret@,
    {
        RequireAuth { allowed_roles: roles, secret }
    }

    /// The request's credential: a bearer token first, the token cookie otherwise.
    pub fn extract_token(authorization: Option<&str>, cookie: Option<&str>) -> (r: Option<String>)
        ensures
            r matches Some(t) ==> credential_of(text_opt(authorization), text_opt(cookie)) == Some(t@),
            r is None ==> credential_of(text_opt(authorization), text_opt(cookie)) is None,
    {
        if let Some(h) = authorization {
            if let Some(t) = token_in_header(h) {
                if !t.as_str().is_empty() {
                    return Some(t);
                }
            }
        }
        match cookie {
            Some(c) => if !c.is_empty() {
                Some(c.to_owned())
            } else {
                None
            },
            None => None,
        }
    }

    /// The first stage at time `now`: no credential is `TokenNotProvided`; a token that does
    /// not verify is `InvalidToken`; otherwise the subject is to be looked up.
    pub fn begin_at(&self, authorization: Option<&str>, cookie: Option<&str>, now: i64) -> (r: GuardStep)
        ensures
            credential_of(text_opt(authorization), text_opt(cookie)) is None
                ==> r == GuardStep::Reject(ErrorMessage::TokenNotProvided),
            credential_of(text_opt(authorization), text_opt(cookie)) matches Some(t)
                ==> verified_step(t, self.secret@, now as int, r),
    {
        let token = match Self::extract_token(authorization, cookie) {
            Some(t) => t,
            None => return GuardStep::Reject(ErrorMessage::TokenNotProvided),
        };
        match decode_token_at(token.as_str(), self.secret.as_slice(), now) {
            Ok(c) => GuardStep::Lookup(c),
            Err(e) => GuardStep::Reject(e),
        }
    }

    /// The first stage at the current time.
    pub fn begin(&self, authorization: Option<&str>, cookie: Option<&str>) -> (r: GuardStep)
        ensures
            credential_of(text_opt(authorization), text_opt(cookie)) is None
                ==> r == GuardStep::Reject(ErrorMessage::TokenNotProvided),
            credential_of(text_opt(authorization), text_opt(cookie)) matches Some(t)
                ==> exists|now: i64| #[trigger] verified_step(t, self.secret@, now as int, r),
    {
        let now = now_secs();
        self.begin_at(authorization, cookie, now)
    }

    /// Whether `role` is in the allow-set.
    pub fn role_allowed(&self, role: UserRole) -> (r: bool)
        ensures
            r == self.allowed_roles@.contains(role),
    {
        let mut i: usize = 0;
        while i < self.allowed_roles.len()
            invariant
                i <= self.allowed_roles@.len(),
                forall|j: int| 0 <= j < i ==> self.allowed_roles@[j] != role,
            decreases self.allowed_roles@.len() - i,
        {
            if self.allowed_roles[i] == role {
                assert(self.allowed_roles@[i as int] == role);
                return true;
            }
            i = i + 1;
        }
        false
    }

    /// The last stage, on the lookup's answer: a gone user is `UserNoLongerExist`, a failed
    /// lookup `ServerError`, a role outside the allow-set `PermissionDenied`; otherwise the
    /// identity to attach to the request.
    pub fn finish(&self, lookup: UserLookup) -> (r: Result<User, ErrorMessage>)
        ensures
            r == finish_result(self.allowed_roles@, lookup),
    {
        match lookup {
            UserLookup::Found(u) => if self.role_allowed(u.role) {
                Ok(u)
            } else {
                Err(ErrorMessage::PermissionDenied)
            },
            UserLookup::NotFound => Err(ErrorMessage::UserNoLongerExist),
            UserLookup::Failed => Err(ErrorMessage::ServerError),
        }
    }
}

/// A request with neither an authorization header nor a token cookie has no credential,
/// so `begin_at` and `begin` reject it with `TokenNotProvided` and ask for no lookup.
pub proof fn lemma_no_credential_rejected_first()
    ensures
        credential_of(None, None) is None,
{
}

/// A resolved identity passes exactly when its role is in the allow-set; one of a role
/// outside it is `PermissionDenied`.
pub proof fn lemma_role_membership(allowed: Seq<UserRole>, u: User)
    ensures
        finish_result(allowed, UserLookup::Found(u)) is Ok <==> allowed.contains(u.role),
        !allowed.contains(u.role) ==> finish_result(allowed, UserLookup::Found(u))
            == Err::<User, ErrorMessage>(ErrorMessage::PermissionDenied),
{
}

/// With the allow-set `{Admin}`, a `User` is denied and an `Admin` admitted.
pub proof fn lemma_admin_only(u: User)
    ensures
        u.role == UserRole::User ==> finish_result(seq![UserRole::Admin], UserLookup::Found(u))
            == Err::<User, ErrorMessage>(ErrorMessage::PermissionDenied),
        u.role == UserRole::Admin ==> finish_result(seq![UserRole::Admin], UserLookup::Found(u))
            == Ok::<User, ErrorMessage>(u),
{
    assert(seq![UserRole::Admin][0] == UserRole::Admin);
}

/// A valid token of a user that no longer exists ends in `UserNoLongerExist`, whatever the
/// allow-set.
pub proof fn lemma_gone_user_rejected(allowed: Seq<UserRole>)
    ensures
        finish_result(allowed, UserLookup::NotFound) == Err::<User, ErrorMessage>(ErrorMessage::UserNoLongerExist),
{
}

} // verus!
