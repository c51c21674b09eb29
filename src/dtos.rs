use validator::ValidateEmail;
use vstd::prelude::*;

use crate::models::User;
use crate::text::chars_of;

verus! {

/// Whether `s` is an e-mail address in the HTML5 sense.
pub uninterp spec fn email_valid(s: Seq<char>) -> bool;

/// Relies on `validator::ValidateEmail::validate_email` for `&str`: the HTML5 e-mail check,
/// which rejects an empty text and one without `'@'` first.
#[verifier::external_body]
fn is_email(s: &str) -> (r: bool)
    ensures
        r == email_valid(s@),
        r ==> s@.len() > 0 && s@.contains('@'),
{
    s.validate_email()
}

fn char_count(s: &str) -> (r: usize)
    ensures
        r == s@.len(),
{
    chars_of(s).len()
}

#[derive(Debug)]
pub struct RegisterUserDto {
    pub name: String,
    pub email: String,
    pub password: String,
    pub password_confirmation: String,
}

#[derive(Debug)]
pub struct LoginUserDto {
    pub email: String,
    pub password: String,
}

/// Paging of a listing; both must be at least 1 and `limit` at most 50 where given.
#[derive(Debug)]
pub struct RequestQueryDto {
    pub page: Option<usize>,
    pub limit: Option<usize>,
}

/// What a client may see of a user: no password hash.
#[derive(Debug)]
pub struct FilterUserDto {
    pub id: String,
    pub name: String,
    pub email: String,
    pub role: String,
    pub photo: String,
    pub verified: bool,
    pub created_at: i64,
    pub updated_at: i64,
}

#[derive(Debug)]
pub struct UserData {
    pub user: FilterUserDto,
}

#[derive(Debug)]
pub struct UserResponseDto {
    pub status: String,
    pub data: UserData,
}

#[derive(Debug)]
pub struct UsaerListResponseDto {
    pub status: String,
    pub users: Vec<FilterUserDto>,
    pub results: usize,
}

#[derive(Debug)]
pub struct UserLoginResponseDto {
    pub status: String,
    pub token: String,
}

#[derive(Debug)]
pub struct Response {
    pub status: &'static str,
    pub message: String,
}

/// The message of the first rule an e-mail field breaks.
pub open spec fn email_issue(email: Seq<char>) -> Option<Seq<char>> {
    if email.len() < 1 {
        Some("Email é obrigatório!"@)
    } else if !email_valid(email) {
        Some("Email inválido!"@)
    } else {
        None
    }
}

/// The message of the first rule a password field breaks.
pub open spec fn password_issue(password: Seq<char>) -> Option<Seq<char>> {
    if password.len() < 1 {
        Some("Senha é obrigatório!"@)
    } else if password.len() < 6 {
        Some("Senha deve ter no minimo 6 caracteres!"@)
    } else {
        None
    }
}

fn check_email(email: &str) -> (r: Result<(), String>)
    ensures
        r matches Err(m) ==> email_issue(email@) == Some(m@),
        r is Ok ==> email_issue(email@) is None,
{
    if char_count(email) < 1 {
        Err("Email é obrigatório!".to_owned())
    } else if !is_email(email) {
        Err("Email inválido!".to_owned())
    } else {
        Ok(())
    }
}

fn check_password(password: &str) -> (r: Result<(), String>)
    ensures
        r matches Err(m) ==> password_issue(password@) == Some(m@),
        r is Ok ==> password_issue(password@) is None,
{
    let n = char_count(password);
    if n < 1 {
        Err("Senha é obrigatório!".to_owned())
    } else if n < 6 {
        Err("Senha deve ter no minimo 6 caracteres!".to_owned())
    } else {
        Ok(())
    }
}

impl RegisterUserDto {
    /// The message of the first rule the registration breaks, fields in order.
    pub open spec fn issue(&self) -> Option<Seq<char>> {
        if self.name@.len() < 1 {
            Some("Nome é obrigatório!"@)
        } else if email_issue(self.email@) is Some {
            email_issue(self.email@)
        } else if password_issue(self.password@) is Some {
            password_issue(self.password@)
        } else if self.password_confirmation@.len() < 1 {
            Some("Confirmação de senha é obrigatório!"@)
        } else if self.password_confirmation@ != self.password@ {
            Some("As senhas não correspondem!"@)
        } else {
            None
        }
    }

    pub fn validate(&self) -> (r: Result<(), String>)
        ensures
            r matches Err(m) ==> self.issue() == Some(m@),
            r is Ok ==> self.issue() is None,
    {
        if char_count(self.name.as_str()) < 1 {
            return Err("Nome é obrigatório!".to_owned());
        }
        check_email(self.email.as_str())?;
        check_password(self.password.as_str())?;
        if char_count(self.password_confirmation.as_str()) < 1 {
            return Err("Confirmação de senha é obrigatório!".to_owned());
        }
        if self.password_confirmation != self.password {
            return Err("As senhas não correspondem!".to_owned());
        }
        Ok(())
    }
}

impl LoginUserDto {
    /// The message of the first rule the login breaks, fields in order.
    pub open spec fn issue(&self) -> Option<Seq<char>> {
        if email_issue(self.email@) is Some {
            email_issue(self.email@)
        } else {
            password_issue(self.password@)
        }
    }

    pub fn validate(&self) -> (r: Result<(), String>)
        ensures
            r matches Err(m) ==> self.issue() == Some(m@),
            r is Ok ==> self.issue() is None,
    {
        check_email(self.email.as_str())?;
        check_password(self.password.as_str())?;
        Ok(())
    }
}

impl RequestQueryDto {
    pub open spec fn valid(&self) -> bool {
        &&& self.page matches Some(p) ==> p >= 1
        &&& self.limit matches Some(l) ==> 1 <= l <= 50
    }

    pub fn validate(&self) -> (r: Result<(), String>)
        ensures
            r is Ok <==> self.valid(),
    {
        if let Some(p) = self.page {
            if p < 1 {
                return Err("page: must be at least 1".to_owned());
            }
        }
        if let Some(l) = self.limit {
            if l < 1 || l > 50 {
                return Err("limit: must be between 1 and 50".to_owned());
            }
        }
        Ok(())
    }

    /// The page asked for, 1 by default.
    pub fn page_or_default(&self) -> (r: usize)
        ensures
            r == (match self.page { Some(p) => p, None => 1 }),
    {
        match self.page {
            Some(p) => p,
            None => 1,
        }
    }

    /// The page size asked for, 10 by default.
    pub fn limit_or_default(&self) -> (r: usize)
        ensures
            r == (match self.limit { Some(l) => l, None => 10 }),
    {
        match self.limit {
            Some(l) => l,
            None => 10,
        }
    }
}

/// `f` is what a client may see of `u`.
pub open spec fn filters(u: User, f: FilterUserDto) -> bool {
    &&& f.id@ == u.id@
    &&& f.name@ == u.name@
    &&& f.email@ == u.email@
    &&& f.role@ == u.role.text()
    &&& f.photo@ == u.photo@
    &&& f.verified == u.verified
    &&& u.created_at == Some(f.created_at)
    &&& u.updated_at == Some(f.updated_at)
}

/// The record has both timestamps, as a persisted one does.
pub open spec fn has_timestamps(u: User) -> bool {
    u.created_at is Some && u.updated_at is Some
}

impl FilterUserDto {
    pub fn filter_user(user: &User) -> (r: Self)
        requires
            has_timestamps(*user),
        ensures
            filters(*user, r),
    {
        FilterUserDto {
            id: user.id.clone(),
            name: user.name.clone(),
            email: user.email.clone(),
            role: user.role.to_str().to_owned(),
            photo: user.photo.clone(),
            verified: user.verified,
            created_at: user.created_at.unwrap(),
            updated_at: user.updated_at.unwrap(),
        }
    }

    pub fn filter_users(users: &[User]) -> (r: Vec<FilterUserDto>)
        requires
            forall|i: int| 0 <= i < users@.len() ==> has_timestamps(#[trigger] users@[i]),
        ensures
            r@.len() == users@.len(),
            forall|i: int| 0 <= i < users@.len() ==> filters(users@[i], #[trigger] r@[i]),
    {
        let mut r: Vec<FilterUserDto> = Vec::new();
        let mut i: usize = 0;
        while i < users.len()
            invariant
                i <= users@.len(),
                r@.len() == i,
                forall|i: int| 0 <= i < users@.len() ==> has_timestamps(#[trigger] users@[i]),
                forall|j: int| 0 <= j < i ==> filters(users@[j], #[trigger] r@[j]),
            decreases users@.len() - i,
        {
            r.push(Self::filter_user(&users[i]));
            i = i + 1;
        }
        r
    }
}

} // verus!
