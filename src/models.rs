use vstd::prelude::*;

verus! {

/// The closed set of roles; no order between them is implied.
#[derive(Debug, PartialEq, Eq, Structural, Clone, Copy)]
pub enum UserRole {
    Admin,
    Moderator,
    User,
}

impl UserRole {
    pub open spec fn text(self) -> Seq<char> {
        match self {
            UserRole::Admin => "admin"@,
            UserRole::Moderator => "moderator"@,
            UserRole::User => "user"@,
        }
    }

    pub fn to_str(&self) -> (r: &'static str)
        ensures
            r@ == self.text(),
    {
        match self {
            UserRole::Admin => "admin",
            UserRole::Moderator => "moderator",
            UserRole::User => "user",
        }
    }
}

/// A persisted user record, as the persistence collaborator hands it over.
/// Timestamps are seconds since the Unix epoch.
#[derive(Debug, Clone)]
pub struct User {
    pub id: String,
    pub name: String,
    pub email: String,
    pub password: String,
    pub role: UserRole,
    pub photo: String,
    pub verified: bool,
    pub created_at: Option<i64>,
    pub updated_at: Option<i64>,
}

} // verus!
