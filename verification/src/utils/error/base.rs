//! The service-wide error.
use vstd::prelude::*;
use vstd::string::*;
use crate::utils::error::app::AppError;
use crate::utils::error::user::UserError;

verus! {

/// An error anywhere in the service.
#[derive(Debug)]
pub enum GlobalAppError {
    UserModel(UserError),
    AppError(AppError),
}

impl GlobalAppError {
    /// The message of the error, which wraps that of the inner error.
    pub fn message(&self) -> (r: String)
        ensures
            r@ == match self {
                GlobalAppError::UserModel(e) => "用户业务异常："@ + e.message_text(),
                GlobalAppError::AppError(e) => "服务基础组件错误："@ + e.message_text(),
            },
    {
        match self {
            GlobalAppError::UserModel(e) => {
                let m = e.message();
                let mut r = String::from_str("用户业务异常：");
                r.append(m.as_str());
                r
            },
            GlobalAppError::AppError(e) => {
                let m = e.message();
                let mut r = String::from_str("服务基础组件错误：");
                r.append(m.as_str());
                r
            },
        }
    }
}

impl From<UserError> for GlobalAppError {
    fn from(e: UserError) -> (r: GlobalAppError) {
        GlobalAppError::UserModel(e)
    }
}

impl vstd::std_specs::convert::FromSpecImpl<UserError> for GlobalAppError {
    open spec fn obeys_from_spec() -> bool {
        true
    }

    open spec fn from_spec(e: UserError) -> GlobalAppError {
        GlobalAppError::UserModel(e)
    }
}

impl From<AppError> for GlobalAppError {
    fn from(e: AppError) -> (r: GlobalAppError) {
        GlobalAppError::AppError(e)
    }
}

impl vstd::std_specs::convert::FromSpecImpl<AppError> for GlobalAppError {
    open spec fn obeys_from_spec() -> bool {
        true
    }

    open spec fn from_spec(e: AppError) -> GlobalAppError {
        GlobalAppError::AppError(e)
    }
}

} // verus!
