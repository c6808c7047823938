//! Errors of the service's own components.
use vstd::prelude::*;
use vstd::string::*;

verus! {

/// An error of the service's components.
#[derive(Debug)]
pub enum AppError {
    TokioRuntimeError,
    AppStartError(String),
}

impl AppError {
    /// The text of the message.
    pub open spec fn message_text(&self) -> Seq<char> {
        match self {
            AppError::TokioRuntimeError => "Tokio Runtime Error"@,
            AppError::AppStartError(s) => "服务启动错误"@ + s@,
        }
    }

    /// The message of the error.
    pub fn message(&self) -> (r: String)
        ensures
            r@ == self.message_text(),
    {
        match self {
            AppError::TokioRuntimeError => String::from_str("Tokio Runtime Error"),
            AppError::AppStartError(s) => {
                let mut r = String::from_str("服务启动错误");
                r.append(s.as_str());
                r
            },
        }
    }
}

} // verus!
