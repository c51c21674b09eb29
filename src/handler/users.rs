use vstd::prelude::*;

use crate::dtos::{
    filters, has_timestamps, FilterUserDto, RequestQueryDto, UsaerListResponseDto, UserData,
    UserResponseDto,
};
use crate::error::HttpError;
use crate::models::User;

verus! {

/// The answer to "who am I": the filtered record of the identity the guard attached.
pub fn get_me(user: &User) -> (r: UserResponseDto)
    requires
        has_timestamps(*user),
    ensures
        r.status@ == "success"@,
        filters(*user, r.data.user),
{
    UserResponseDto {
        status: "success".to_owned(),
        data: UserData { user: FilterUserDto::filter_user(user) },
    }
}

/// The page and page size a listing asks for, defaults filled in; a bad request otherwise.
pub fn list_params(query: &RequestQueryDto) -> (r: Result<(usize, usize), HttpError>)
    ensures
        query.valid() ==> r == Ok::<(usize, usize), HttpError>((
            match query.page { Some(p) => p, None => 1 },
            match query.limit { Some(l) => l, None => 10 },
        )),
        !query.valid() ==> (r matches Err(e) && e.status == 400),
{
    match query.validate() {
        Err(m) => Err(HttpError::bat_request(m)),
        Ok(()) => Ok((query.page_or_default(), query.limit_or_default())),
    }
}

/// The answer to a listing: the filtered records, in order, and their count.
pub fn get_users(users: &[User]) -> (r: UsaerListResponseDto)
    requires
        forall|i: int| 0 <= i < users@.len() ==> has_timestamps(#[trigger] users@[i]),
    ensures
        r.status@ == "success"@,
        r.results == users@.len(),
        r.users@.len() == users@.len(),
        forall|i: int| 0 <= i < users@.len() ==> filters(users@[i], #[trigger] r.users@[i]),
{
    UsaerListResponseDto {
        status: "success".to_owned(),
        users: FilterUserDto::filter_users(users),
        results: users.len(),
    }
}

} // verus!
