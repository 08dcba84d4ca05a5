//! The application's error type.
use vstd::prelude::*;
use crate::text::{push_str, from_chars, to_chars};

verus! {

#[verifier::external_type_specification]
#[verifier::external_body]
pub struct ExIoError(std::io::Error);

/// Errors raised by the validation helpers and by the system-facing code.
#[derive(Debug)]
pub enum AppError {
    Io(std::io::Error),
    CommandExecution(String),
    InvalidServiceName(String),
    Validation(String),
    Network(String),
}

/// `<std::io::Error as Display>::fmt`.  Nothing is claimed of the text: for an
/// operating-system error it depends on the system's message tables.
#[verifier::external_body]
fn io_error_text(e: &std::io::Error) -> String {
    format!("{}", e)
}

/// The prefix put before a message for each kind of error.
pub open spec fn user_message_prefix(e: AppError) -> Seq<char> {
    match e {
        AppError::Io(_) => "文件操作失败: "@,
        AppError::CommandExecution(_) => "命令执行失败: "@,
        AppError::InvalidServiceName(_) => "服务名无效: "@,
        AppError::Validation(_) => "验证失败: "@,
        AppError::Network(_) => "网络请求失败: "@,
    }
}

/// The text carried by an error, for every kind but `Io`.
pub open spec fn carried_text(e: AppError) -> Seq<char> {
    match e {
        AppError::Io(_) => Seq::empty(),
        AppError::CommandExecution(m) => m@,
        AppError::InvalidServiceName(m) => m@,
        AppError::Validation(m) => m@,
        AppError::Network(m) => m@,
    }
}

/// `e` is a validation error carrying `msg`.
pub open spec fn is_validation(e: AppError, msg: Seq<char>) -> bool {
    e is Validation && carried_text(e) == msg
}

/// `e` is an invalid-service-name error carrying `msg`.
pub open spec fn is_invalid_service_name(e: AppError, msg: Seq<char>) -> bool {
    e is InvalidServiceName && carried_text(e) == msg
}

impl AppError {
    /// A user-facing message: the kind's prefix followed by the carried text
    /// (for `Io`, by the system's description of the error).
    pub fn to_user_message(&self) -> (r: String)
        ensures
            r@.take(user_message_prefix(*self).len() as int) == user_message_prefix(*self),
            user_message_prefix(*self).len() <= r@.len(),
            !(self is Io) ==> r@ == user_message_prefix(*self) + carried_text(*self),
    {
        let mut v: Vec<char> = Vec::new();
        match self {
            AppError::Io(e) => {
                push_str(&mut v, "文件操作失败: ");
                let t = io_error_text(e);
                push_str(&mut v, t.as_str());
            },
            AppError::CommandExecution(m) => {
                push_str(&mut v, "命令执行失败: ");
                push_str(&mut v, m.as_str());
            },
            AppError::InvalidServiceName(m) => {
                push_str(&mut v, "服务名无效: ");
                push_str(&mut v, m.as_str());
            },
            AppError::Validation(m) => {
                push_str(&mut v, "验证失败: ");
                push_str(&mut v, m.as_str());
            },
            AppError::Network(m) => {
                push_str(&mut v, "网络请求失败: ");
                push_str(&mut v, m.as_str());
            },
        }
        let r = from_chars(&v);
        assert(r@.take(user_message_prefix(*self).len() as int) =~= user_message_prefix(*self));
        r
    }
}

impl From<std::io::Error> for AppError {
    fn from(e: std::io::Error) -> (r: AppError) {
        AppError::Io(e)
    }
}

impl vstd::std_specs::convert::FromSpecImpl<std::io::Error> for AppError {
    open spec fn obeys_from_spec() -> bool {
        true
    }

    open spec fn from_spec(v: std::io::Error) -> AppError {
        AppError::Io(v)
    }
}

/// Shorthand for results carrying an [`AppError`].
pub type AppResult<T> = Result<T, AppError>;

/// A string holding a literal.
pub fn owned(s: &str) -> (r: String)
    ensures
        r@ == s@,
{
    let v = to_chars(s);
    from_chars(&v)
}

} // verus!
