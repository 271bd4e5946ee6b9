use vstd::prelude::*;
use vstd::string::*;

verus! {

/// Why a request is not served.
#[derive(Debug, PartialEq, Eq)]
pub enum AppError {
    /// The keyword is empty.
    EmptyKeyword,
    /// The keyword is longer than `MAX_PATTERN_BYTES`.
    PatternTooLong,
    /// The path does not exist, cannot be read or lies outside the base directory.
    InvalidPath,
    /// The keyword is no regular expression; with the words of the parser.
    InvalidRegex(String),
    /// The time range is not understood or reaches too far back; with the range.
    InvalidDuration(String),
    /// The search itself failed; with the cause.
    Search(String),
    /// The search took too long.
    Timeout,
    /// The service is shutting down.
    Unavailable,
}

impl AppError {
    /// What the client reads.
    pub open spec fn text(self) -> Seq<char> {
        match self {
            AppError::EmptyKeyword => "检索关键词不能为空"@,
            AppError::PatternTooLong => "检索关键词过长（最大 4096 字节）"@,
            AppError::InvalidPath => "路径不存在、不可访问或超出日志根目录"@,
            AppError::InvalidRegex(cause) => "正则表达式无效: "@ + cause@,
            AppError::InvalidDuration(range) => "修改时间范围无效: "@ + range@
                + "（示例：10min、2h、1d、2weeks）"@,
            AppError::Search(cause) => "检索执行失败: "@ + cause@,
            AppError::Timeout => "检索超时（最长 30 秒）"@,
            AppError::Unavailable => "服务正在关闭"@,
        }
    }

    /// Whether the request itself is at fault.
    pub open spec fn is_bad_request(self) -> bool {
        self is EmptyKeyword || self is PatternTooLong || self is InvalidPath
            || self is InvalidRegex || self is InvalidDuration
    }

    /// The error as the client reads it.
    pub fn message(&self) -> (message: String)
        ensures
            message@ == self.text(),
    {
        match self {
            AppError::EmptyKeyword => "检索关键词不能为空".to_owned(),
            AppError::PatternTooLong => "检索关键词过长（最大 4096 字节）".to_owned(),
            AppError::InvalidPath => "路径不存在、不可访问或超出日志根目录".to_owned(),
            AppError::InvalidRegex(cause) => {
                "正则表达式无效: ".to_owned().concat(cause.as_str())
            },
            AppError::InvalidDuration(range) => {
                let opening = "修改时间范围无效: ".to_owned().concat(range.as_str());
                opening.concat("（示例：10min、2h、1d、2weeks）")
            },
            AppError::Search(cause) => "检索执行失败: ".to_owned().concat(cause.as_str()),
            AppError::Timeout => "检索超时（最长 30 秒）".to_owned(),
            AppError::Unavailable => "服务正在关闭".to_owned(),
        }
    }

    /// The HTTP status of the answer: 400 where the request is at fault, 408 for a
    /// timeout, 503 on shutdown, 500 where the search failed.
    pub open spec fn status_code(self) -> u16 {
        if self.is_bad_request() {
            400
        } else if self is Timeout {
            408
        } else if self is Unavailable {
            503
        } else {
            500
        }
    }

    /// Computes `status_code`.
    pub fn status(&self) -> (code: u16)
        ensures
            code == self.status_code(),
    {
        match self {
            AppError::EmptyKeyword => 400,
            AppError::PatternTooLong => 400,
            AppError::InvalidPath => 400,
            AppError::InvalidRegex(_) => 400,
            AppError::InvalidDuration(_) => 400,
            AppError::Timeout => 408,
            AppError::Unavailable => 503,
            AppError::Search(_) => 500,
        }
    }
}

/// What the client reads of an error: what is wrong and, where there is one, the cause in
/// its own words.
pub proof fn an_error_tells_its_cause(error: AppError)
    ensures
        error is EmptyKeyword ==> error.text() == "检索关键词不能为空"@,
        error is PatternTooLong ==> error.text() == "检索关键词过长（最大 4096 字节）"@,
        error is InvalidPath ==> error.text() == "路径不存在、不可访问或超出日志根目录"@,
        error matches AppError::InvalidRegex(cause) ==> error.text() == "正则表达式无效: "@
            + cause@,
        error matches AppError::InvalidDuration(range) ==> error.text() == "修改时间范围无效: "@
            + range@ + "（示例：10min、2h、1d、2weeks）"@,
        error matches AppError::Search(cause) ==> error.text() == "检索执行失败: "@ + cause@,
        error is Timeout ==> error.text() == "检索超时（最长 30 秒）"@,
        error is Unavailable ==> error.text() == "服务正在关闭"@,
{
}

/// A request that is itself at fault is answered with the status 400, a timeout with 408, a
/// shutdown with 503, and a search that failed with 500.
pub proof fn the_status_tells_whose_fault_it_is(error: AppError)
    ensures
        error is EmptyKeyword || error is PatternTooLong || error is InvalidPath || error
            is InvalidRegex || error is InvalidDuration <==> error.status_code() == 400,
        error is Timeout <==> error.status_code() == 408,
        error is Unavailable <==> error.status_code() == 503,
        error is Search <==> error.status_code() == 500,
{
}

} // verus!
