use vstd::prelude::*;

verus! {

/// The errors that the web API answers with. The variants that wrap an
/// outside error hold that error's message.
pub enum AppError {
    Reqwest(String),
    Database(String),
    Unauthorized,
    Business(String),
    Internal(String),
}

/// The message of an error, as its `Display` writes it.
pub open spec fn error_message(e: AppError) -> Seq<char> {
    match e {
        AppError::Reqwest(m) => "网络请求失败: "@ + m@,
        AppError::Database(m) => "数据库持久化错误: "@ + m@,
        AppError::Unauthorized => "未授权的访问或 Token 过期"@,
        AppError::Business(m) => "业务处理异常: "@ + m@,
        AppError::Internal(m) => "内部系统错误: "@ + m@,
    }
}

/// The HTTP status and the `msg` of the JSON reply `{"code":0,"msg":..}` that
/// the web API sends for an error: 401 for a missing or stale login, 400 with
/// the bare text for a refused request, 500 with the message otherwise.
pub open spec fn error_response(e: AppError) -> (u16, Seq<char>) {
    match e {
        AppError::Unauthorized => (401, error_message(e)),
        AppError::Business(m) => (400, m@),
        _ => (500, error_message(e)),
    }
}

fn concat2(a: &str, b: &str) -> (r: String)
    ensures
        r@ == a@ + b@,
{
    let mut r = a.to_owned();
    r.append(b);
    r
}

impl AppError {
    /// The error's message.
    pub fn message(&self) -> (r: String)
        ensures
            r@ == error_message(*self),
    {
        match self {
            AppError::Reqwest(m) => concat2("网络请求失败: ", m.as_str()),
            AppError::Database(m) => concat2("数据库持久化错误: ", m.as_str()),
            AppError::Unauthorized => "未授权的访问或 Token 过期".to_owned(),
            AppError::Business(m) => concat2("业务处理异常: ", m.as_str()),
            AppError::Internal(m) => concat2("内部系统错误: ", m.as_str()),
        }
    }

    /// The refusal when the DingTalk configuration cannot be stored: the
    /// storage error's message after `数据库保存失败: `.
    pub fn save_failed(detail: &str) -> (r: AppError)
        ensures
            r matches AppError::Business(m) && m@ == "数据库保存失败: "@ + detail@,
    {
        AppError::Business(concat2("数据库保存失败: ", detail))
    }

    /// The status and message of the error reply.
    pub fn response_parts(&self) -> (r: (u16, String))
        ensures
            r.0 == error_response(*self).0,
            r.1@ == error_response(*self).1,
    {
        match self {
            AppError::Unauthorized => (401, self.message()),
            AppError::Business(m) => (400, m.as_str().to_owned()),
            _ => (500, self.message()),
        }
    }
}

} // verus!
