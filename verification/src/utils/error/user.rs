//! Errors of the user business.
use vstd::prelude::*;
use vstd::string::*;

verus! {

/// An error of the user business.
#[derive(Debug)]
pub enum UserError {
    UserNotExist { id: String },
    PasswordMismatch,
}

impl UserError {
    /// The text of the message.
    pub open spec fn message_text(&self) -> Seq<char> {
        match self {
            UserError::UserNotExist { id } => "用户ID "@ + id@ + " 不存在"@,
            UserError::PasswordMismatch => "密码校验不匹配"@,
        }
    }

    /// The message of the error.
    pub fn message(&self) -> (r: String)
        ensures
            r@ == self.message_text(),
    {
        match self {
            UserError::UserNotExist { id } => {
                let mut r = String::from_str("用户ID ");
                r.append(id.as_str());
                r.append(" 不存在");
                r
            },
            UserError::PasswordMismatch => String::from_str("密码校验不匹配"),
        }
    }
}

} // verus!
