//! The texts of the tool, in each language that it speaks.
use vstd::prelude::*;

verus! {

/// A language of the user interface.
#[derive(Clone, Copy, Debug, PartialEq, Eq, Structural)]
pub enum Language {
    ZhCn,
    EnUs,
}

/// What a text says, whatever the language.
#[derive(Clone, Copy, Debug, PartialEq, Eq, Structural)]
pub enum I18nKey {
    /// The title of the tool.
    AppTitle,
    /// A load test is running.
    RunningState,
    /// No load test is running.
    IdleState,
    /// How many workers send requests.
    Concurrency,
    /// How long a load test lasts.
    Duration,
    /// The unit of seconds.
    SecondUnit,
    /// Connections are reused.
    KeepAlive,
    /// The cURL editor.
    CurlLabel,
    /// The header editor.
    HeaderJson,
    /// The body editor.
    RequestBody,
    /// The report of a completed load test.
    FinalReport,
    /// Requests without a readable response.
    TransportErrShort,
    /// The cURL command was understood.
    ConvertSuccess,
    /// The cURL command was not understood.
    ConvertFailed,
    /// An error that stops a load test.
    GenericError,
    /// The asynchronous runtime did not start.
    RuntimeInitFailed,
    /// There is no asynchronous runtime.
    RuntimeUnavailable,
    /// The command has an open quotation or a trailing backslash.
    InvalidShellString,
    /// The command holds no word.
    EmptyInput,
    /// The method option has no argument.
    MissingHttpMethod,
    /// The argument of the method option is no HTTP method.
    InvalidHttpMethod,
    /// The header option has no argument.
    MissingHeaderValue,
    /// A header name is not allowed.
    InvalidHeaderName,
    /// A header value is not allowed.
    InvalidHeaderValue,
    /// A header has no colon.
    HeaderFormatInvalid,
    /// A data option has no argument.
    MissingBody,
    /// The command names no URL.
    UrlNotFound,
    /// The URL of the command is malformed.
    InvalidUrl,
    /// The method of the draft is no HTTP method.
    InvalidRequestMethod,
    /// The draft has no URL.
    EmptyApiUrl,
    /// The URL of the draft is malformed.
    InvalidApiUrl,
    /// The headers of the draft are not JSON.
    HeaderNotJson,
    /// The headers of the draft are JSON, but no object.
    HeaderMustObject,
    /// A load test needs a worker.
    ConcurrencyMustGtZero,
    /// A load test needs time.
    DurationMustGtZero,
    /// The name of Chinese.
    LanguageZh,
    /// The name of English.
    LanguageEn,
    /// Back to the initial state.
    Reset,
    /// The panel in which the request is edited.
    RequestBuilder,
    /// The method of the request.
    RequestType,
    /// The URL of the request.
    ApiUrl,
    /// Opens an editor in a window of its own.
    ExpandEditor,
    /// What goes into the cURL editor.
    InputPlaceholder,
    /// The method carries no body.
    BodyNotRequired,
    /// Closes a window.
    Close,
    /// The panel with the settings.
    LoadTestConfig,
    /// When a request counts as timed out.
    Timeout,
    /// The rest between two requests.
    Interval,
    /// The unit of milliseconds.
    MillisecondUnit,
    /// Starts a load test.
    StartTest,
    /// Stops the load test.
    StopTest,
    /// The panel with the live metrics.
    RuntimeMetrics,
    /// How many requests were sent so far.
    TotalRequests,
    /// How many requests succeeded.
    Success,
    /// Requests per second.
    Qps,
    /// How long the load test has run.
    Elapsed,
    /// How many requests went wrong.
    Errors,
    /// The mean latency.
    AvgLatency,
    /// The latency that 95 in 100 requests stay within.
    P95Latency,
    /// There is nothing to show yet.
    WaitingData,
    /// The chart of the request rate.
    QpsTrend,
    /// The chart of the latencies.
    LatencyTrend,
    /// The chart of the status codes.
    StatusCodeDist,
    /// How long the load test took.
    ElapsedTime,
    /// How many requests were sent in all.
    TotalRequestsFinal,
    /// The three ways in which requests end.
    SuccessFailTimeout,
    /// Requests per second over the whole load test.
    AvgQps,
    /// The status codes of the responses.
    HttpStatusCodes,
    /// The latencies in detail.
    LatencyDetail,
}

/// The English wording of `key`.
pub open spec fn english(key: I18nKey) -> Seq<char> {
    match key {
        I18nKey::AppTitle => "API QPS DevTools"@,
        I18nKey::RunningState => "Running"@,
        I18nKey::IdleState => "Idle"@,
        I18nKey::Concurrency => "Concurrency"@,
        I18nKey::Duration => "Duration"@,
        I18nKey::SecondUnit => "s"@,
        I18nKey::KeepAlive => "Keep-Alive"@,
        I18nKey::CurlLabel => "cURL command"@,
        I18nKey::HeaderJson => "Header (JSON)"@,
        I18nKey::RequestBody => "Request body"@,
        I18nKey::FinalReport => "Final report"@,
        I18nKey::TransportErrShort => "ERR"@,
        I18nKey::ConvertSuccess => "Converted"@,
        I18nKey::ConvertFailed => "Conversion failed"@,
        I18nKey::GenericError => "Error"@,
        I18nKey::RuntimeInitFailed => "Failed to start the async runtime"@,
        I18nKey::RuntimeUnavailable => "Async runtime unavailable"@,
        I18nKey::InvalidShellString => "Invalid shell string"@,
        I18nKey::EmptyInput => "Empty input"@,
        I18nKey::MissingHttpMethod => "Missing HTTP method"@,
        I18nKey::InvalidHttpMethod => "Invalid HTTP method"@,
        I18nKey::MissingHeaderValue => "Missing header value"@,
        I18nKey::InvalidHeaderName => "Invalid header name"@,
        I18nKey::InvalidHeaderValue => "Invalid header value"@,
        I18nKey::HeaderFormatInvalid => "Header must have the form 'Name: value'"@,
        I18nKey::MissingBody => "Missing request body"@,
        I18nKey::UrlNotFound => "URL not found"@,
        I18nKey::InvalidUrl => "Invalid URL"@,
        I18nKey::InvalidRequestMethod => "Invalid request method"@,
        I18nKey::EmptyApiUrl => "API URL is empty"@,
        I18nKey::InvalidApiUrl => "Invalid API URL"@,
        I18nKey::HeaderNotJson => "Header is not valid JSON"@,
        I18nKey::HeaderMustObject => "Header must be a JSON object"@,
        I18nKey::ConcurrencyMustGtZero => "Concurrency must be greater than 0"@,
        I18nKey::DurationMustGtZero => "Duration must be greater than 0"@,
        I18nKey::LanguageZh => "中文"@,
        I18nKey::LanguageEn => "English"@,
        I18nKey::Reset => "↺ Reset"@,
        I18nKey::RequestBuilder => "Request"@,
        I18nKey::RequestType => "Method"@,
        I18nKey::ApiUrl => "API URL"@,
        I18nKey::ExpandEditor => "Expand"@,
        I18nKey::InputPlaceholder => "Paste a cURL (bash) command here"@,
        I18nKey::BodyNotRequired => "This method sends no body"@,
        I18nKey::Close => "Close"@,
        I18nKey::LoadTestConfig => "Load test"@,
        I18nKey::Timeout => "Timeout"@,
        I18nKey::Interval => "Interval"@,
        I18nKey::MillisecondUnit => "ms"@,
        I18nKey::StartTest => "Start Test"@,
        I18nKey::StopTest => "Stop Test"@,
        I18nKey::RuntimeMetrics => "Runtime metrics"@,
        I18nKey::TotalRequests => "Total"@,
        I18nKey::Success => "Success"@,
        I18nKey::Qps => "QPS"@,
        I18nKey::Elapsed => "Elapsed"@,
        I18nKey::Errors => "Errors"@,
        I18nKey::AvgLatency => "Avg latency"@,
        I18nKey::P95Latency => "P95 latency"@,
        I18nKey::WaitingData => "Waiting for data"@,
        I18nKey::QpsTrend => "QPS trend"@,
        I18nKey::LatencyTrend => "Latency trend"@,
        I18nKey::StatusCodeDist => "Status codes"@,
        I18nKey::ElapsedTime => "Elapsed time"@,
        I18nKey::TotalRequestsFinal => "Total requests"@,
        I18nKey::SuccessFailTimeout => "Success / failed / timeout"@,
        I18nKey::AvgQps => "Average QPS"@,
        I18nKey::HttpStatusCodes => "HTTP status codes"@,
        I18nKey::LatencyDetail => "Latency avg / P50 / P95 / P99 / max"@,
    }
}

/// The Chinese wording of `key`.
pub open spec fn chinese(key: I18nKey) -> Seq<char> {
    match key {
        I18nKey::AppTitle => "API QPS 压测工具"@,
        I18nKey::RunningState => "运行中"@,
        I18nKey::IdleState => "空闲"@,
        I18nKey::Concurrency => "并发数"@,
        I18nKey::Duration => "持续时间"@,
        I18nKey::SecondUnit => "秒"@,
        I18nKey::KeepAlive => "长连接"@,
        I18nKey::CurlLabel => "cURL 命令"@,
        I18nKey::HeaderJson => "Header (JSON)"@,
        I18nKey::RequestBody => "请求体"@,
        I18nKey::FinalReport => "最终报告"@,
        I18nKey::TransportErrShort => "错误"@,
        I18nKey::ConvertSuccess => "转换成功"@,
        I18nKey::ConvertFailed => "转换失败"@,
        I18nKey::GenericError => "错误"@,
        I18nKey::RuntimeInitFailed => "异步运行时初始化失败"@,
        I18nKey::RuntimeUnavailable => "异步运行时不可用"@,
        I18nKey::InvalidShellString => "无效的 shell 字符串"@,
        I18nKey::EmptyInput => "输入为空"@,
        I18nKey::MissingHttpMethod => "缺少 HTTP 方法"@,
        I18nKey::InvalidHttpMethod => "无效的 HTTP 方法"@,
        I18nKey::MissingHeaderValue => "缺少 Header 值"@,
        I18nKey::InvalidHeaderName => "无效的 Header 名称"@,
        I18nKey::InvalidHeaderValue => "无效的 Header 值"@,
        I18nKey::HeaderFormatInvalid => "Header 格式应为 'Name: value'"@,
        I18nKey::MissingBody => "缺少请求体"@,
        I18nKey::UrlNotFound => "未找到 URL"@,
        I18nKey::InvalidUrl => "无效的 URL"@,
        I18nKey::InvalidRequestMethod => "无效的请求方法"@,
        I18nKey::EmptyApiUrl => "API 地址为空"@,
        I18nKey::InvalidApiUrl => "无效的 API 地址"@,
        I18nKey::HeaderNotJson => "Header 不是合法的 JSON"@,
        I18nKey::HeaderMustObject => "Header 必须是 JSON 对象"@,
        I18nKey::ConcurrencyMustGtZero => "并发数必须大于 0"@,
        I18nKey::DurationMustGtZero => "持续时间必须大于 0"@,
        I18nKey::LanguageZh => "中文"@,
        I18nKey::LanguageEn => "English"@,
        I18nKey::Reset => "↺ 重置"@,
        I18nKey::RequestBuilder => "请求配置"@,
        I18nKey::RequestType => "请求类型"@,
        I18nKey::ApiUrl => "API 地址"@,
        I18nKey::ExpandEditor => "展开编辑"@,
        I18nKey::InputPlaceholder => "在此粘贴 cURL (bash) 命令"@,
        I18nKey::BodyNotRequired => "该请求类型不发送请求体"@,
        I18nKey::Close => "关闭"@,
        I18nKey::LoadTestConfig => "压测配置"@,
        I18nKey::Timeout => "超时"@,
        I18nKey::Interval => "请求间隔"@,
        I18nKey::MillisecondUnit => "毫秒"@,
        I18nKey::StartTest => "开始压测"@,
        I18nKey::StopTest => "停止压测"@,
        I18nKey::RuntimeMetrics => "实时指标"@,
        I18nKey::TotalRequests => "总请求数"@,
        I18nKey::Success => "成功"@,
        I18nKey::Qps => "QPS"@,
        I18nKey::Elapsed => "已运行"@,
        I18nKey::Errors => "错误数"@,
        I18nKey::AvgLatency => "平均延迟"@,
        I18nKey::P95Latency => "P95 延迟"@,
        I18nKey::WaitingData => "等待数据"@,
        I18nKey::QpsTrend => "QPS 趋势"@,
        I18nKey::LatencyTrend => "延迟趋势"@,
        I18nKey::StatusCodeDist => "状态码分布"@,
        I18nKey::ElapsedTime => "耗时"@,
        I18nKey::TotalRequestsFinal => "请求总数"@,
        I18nKey::SuccessFailTimeout => "成功 / 失败 / 超时"@,
        I18nKey::AvgQps => "平均 QPS"@,
        I18nKey::HttpStatusCodes => "HTTP 状态码"@,
        I18nKey::LatencyDetail => "延迟 平均 / P50 / P95 / P99 / 最大"@,
    }
}

/// The wording of `key` in `language`.
pub open spec fn wording(language: Language, key: I18nKey) -> Seq<char> {
    match language {
        Language::EnUs => english(key),
        Language::ZhCn => chinese(key),
    }
}

fn english_text(key: I18nKey) -> (r: &'static str)
    ensures
        r@ == english(key),
{
    match key {
        I18nKey::AppTitle => "API QPS DevTools",
        I18nKey::RunningState => "Running",
        I18nKey::IdleState => "Idle",
        I18nKey::Concurrency => "Concurrency",
        I18nKey::Duration => "Duration",
        I18nKey::SecondUnit => "s",
        I18nKey::KeepAlive => "Keep-Alive",
        I18nKey::CurlLabel => "cURL command",
        I18nKey::HeaderJson => "Header (JSON)",
        I18nKey::RequestBody => "Request body",
        I18nKey::FinalReport => "Final report",
        I18nKey::TransportErrShort => "ERR",
        I18nKey::ConvertSuccess => "Converted",
        I18nKey::ConvertFailed => "Conversion failed",
        I18nKey::GenericError => "Error",
        I18nKey::RuntimeInitFailed => "Failed to start the async runtime",
        I18nKey::RuntimeUnavailable => "Async runtime unavailable",
        I18nKey::InvalidShellString => "Invalid shell string",
        I18nKey::EmptyInput => "Empty input",
        I18nKey::MissingHttpMethod => "Missing HTTP method",
        I18nKey::InvalidHttpMethod => "Invalid HTTP method",
        I18nKey::MissingHeaderValue => "Missing header value",
        I18nKey::InvalidHeaderName => "Invalid header name",
        I18nKey::InvalidHeaderValue => "Invalid header value",
        I18nKey::HeaderFormatInvalid => "Header must have the form 'Name: value'",
        I18nKey::MissingBody => "Missing request body",
        I18nKey::UrlNotFound => "URL not found",
        I18nKey::InvalidUrl => "Invalid URL",
        I18nKey::InvalidRequestMethod => "Invalid request method",
        I18nKey::EmptyApiUrl => "API URL is empty",
        I18nKey::InvalidApiUrl => "Invalid API URL",
        I18nKey::HeaderNotJson => "Header is not valid JSON",
        I18nKey::HeaderMustObject => "Header must be a JSON object",
        I18nKey::ConcurrencyMustGtZero => "Concurrency must be greater than 0",
        I18nKey::DurationMustGtZero => "Duration must be greater than 0",
        I18nKey::LanguageZh => "中文",
        I18nKey::LanguageEn => "English",
        I18nKey::Reset => "↺ Reset",
        I18nKey::RequestBuilder => "Request",
        I18nKey::RequestType => "Method",
        I18nKey::ApiUrl => "API URL",
        I18nKey::ExpandEditor => "Expand",
        I18nKey::InputPlaceholder => "Paste a cURL (bash) command here",
        I18nKey::BodyNotRequired => "This method sends no body",
        I18nKey::Close => "Close",
        I18nKey::LoadTestConfig => "Load test",
        I18nKey::Timeout => "Timeout",
        I18nKey::Interval => "Interval",
        I18nKey::MillisecondUnit => "ms",
        I18nKey::StartTest => "Start Test",
        I18nKey::StopTest => "Stop Test",
        I18nKey::RuntimeMetrics => "Runtime metrics",
        I18nKey::TotalRequests => "Total",
        I18nKey::Success => "Success",
        I18nKey::Qps => "QPS",
        I18nKey::Elapsed => "Elapsed",
        I18nKey::Errors => "Errors",
        I18nKey::AvgLatency => "Avg latency",
        I18nKey::P95Latency => "P95 latency",
        I18nKey::WaitingData => "Waiting for data",
        I18nKey::QpsTrend => "QPS trend",
        I18nKey::LatencyTrend => "Latency trend",
        I18nKey::StatusCodeDist => "Status codes",
        I18nKey::ElapsedTime => "Elapsed time",
        I18nKey::TotalRequestsFinal => "Total requests",
        I18nKey::SuccessFailTimeout => "Success / failed / timeout",
        I18nKey::AvgQps => "Average QPS",
        I18nKey::HttpStatusCodes => "HTTP status codes",
        I18nKey::LatencyDetail => "Latency avg / P50 / P95 / P99 / max",
    }
}

fn chinese_text(key: I18nKey) -> (r: &'static str)
    ensures
        r@ == chinese(key),
{
    match key {
        I18nKey::AppTitle => "API QPS 压测工具",
        I18nKey::RunningState => "运行中",
        I18nKey::IdleState => "空闲",
        I18nKey::Concurrency => "并发数",
        I18nKey::Duration => "持续时间",
        I18nKey::SecondUnit => "秒",
        I18nKey::KeepAlive => "长连接",
        I18nKey::CurlLabel => "cURL 命令",
        I18nKey::HeaderJson => "Header (JSON)",
        I18nKey::RequestBody => "请求体",
        I18nKey::FinalReport => "最终报告",
        I18nKey::TransportErrShort => "错误",
        I18nKey::ConvertSuccess => "转换成功",
        I18nKey::ConvertFailed => "转换失败",
        I18nKey::GenericError => "错误",
        I18nKey::RuntimeInitFailed => "异步运行时初始化失败",
        I18nKey::RuntimeUnavailable => "异步运行时不可用",
        I18nKey::InvalidShellString => "无效的 shell 字符串",
        I18nKey::EmptyInput => "输入为空",
        I18nKey::MissingHttpMethod => "缺少 HTTP 方法",
        I18nKey::InvalidHttpMethod => "无效的 HTTP 方法",
        I18nKey::MissingHeaderValue => "缺少 Header 值",
        I18nKey::InvalidHeaderName => "无效的 Header 名称",
        I18nKey::InvalidHeaderValue => "无效的 Header 值",
        I18nKey::HeaderFormatInvalid => "Header 格式应为 'Name: value'",
        I18nKey::MissingBody => "缺少请求体",
        I18nKey::UrlNotFound => "未找到 URL",
        I18nKey::InvalidUrl => "无效的 URL",
        I18nKey::InvalidRequestMethod => "无效的请求方法",
        I18nKey::EmptyApiUrl => "API 地址为空",
        I18nKey::InvalidApiUrl => "无效的 API 地址",
        I18nKey::HeaderNotJson => "Header 不是合法的 JSON",
        I18nKey::HeaderMustObject => "Header 必须是 JSON 对象",
        I18nKey::ConcurrencyMustGtZero => "并发数必须大于 0",
        I18nKey::DurationMustGtZero => "持续时间必须大于 0",
        I18nKey::LanguageZh => "中文",
        I18nKey::LanguageEn => "English",
        I18nKey::Reset => "↺ 重置",
        I18nKey::RequestBuilder => "请求配置",
        I18nKey::RequestType => "请求类型",
        I18nKey::ApiUrl => "API 地址",
        I18nKey::ExpandEditor => "展开编辑",
        I18nKey::InputPlaceholder => "在此粘贴 cURL (bash) 命令",
        I18nKey::BodyNotRequired => "该请求类型不发送请求体",
        I18nKey::Close => "关闭",
        I18nKey::LoadTestConfig => "压测配置",
        I18nKey::Timeout => "超时",
        I18nKey::Interval => "请求间隔",
        I18nKey::MillisecondUnit => "毫秒",
        I18nKey::StartTest => "开始压测",
        I18nKey::StopTest => "停止压测",
        I18nKey::RuntimeMetrics => "实时指标",
        I18nKey::TotalRequests => "总请求数",
        I18nKey::Success => "成功",
        I18nKey::Qps => "QPS",
        I18nKey::Elapsed => "已运行",
        I18nKey::Errors => "错误数",
        I18nKey::AvgLatency => "平均延迟",
        I18nKey::P95Latency => "P95 延迟",
        I18nKey::WaitingData => "等待数据",
        I18nKey::QpsTrend => "QPS 趋势",
        I18nKey::LatencyTrend => "延迟趋势",
        I18nKey::StatusCodeDist => "状态码分布",
        I18nKey::ElapsedTime => "耗时",
        I18nKey::TotalRequestsFinal => "请求总数",
        I18nKey::SuccessFailTimeout => "成功 / 失败 / 超时",
        I18nKey::AvgQps => "平均 QPS",
        I18nKey::HttpStatusCodes => "HTTP 状态码",
        I18nKey::LatencyDetail => "延迟 平均 / P50 / P95 / P99 / 最大",
    }
}

/// Looks up the text for `key` in `language`.
pub fn t(language: Language, key: I18nKey) -> (r: &'static str)
    ensures
        r@ == wording(language, key),
{
    match language {
        Language::EnUs => english_text(key),
        Language::ZhCn => chinese_text(key),
    }
}

} // verus!
