//! Looking up a user's information.
use vstd::prelude::*;
use vstd::string::*;
use crate::utils::error::user::UserError;

verus! {

/// The answer to a lookup of `user_id` that found `res`: the user, or the
/// error that no such user exists.
pub fn user_info<U>(res: Option<U>, user_id: &str) -> (r: Result<U, UserError>)
    ensures
        match res {
            Some(u) => r == Ok::<U, UserError>(u),
            None => r matches Err(UserError::UserNotExist { id }) && id@ == user_id@,
        },
{
    if let Some(user) = res {
        return Ok(user);
    }
    Err(UserError::UserNotExist { id: String::from_str(user_id) })
}

} // verus!
