//! The standard body endpoints' payloads and limits, and what a shell or
//! web invocation reports once it has run.
use vstd::prelude::*;

use crate::metadata::Metadata;
use crate::text::{decimal, decimal_seq, is_blank, is_blank_seq, str_eq};

verus! {

/// A shell command to run.
#[derive(Debug)]
pub struct ShellExecRequest {
    pub argv: Vec<String>,
    pub cwd: Option<String>,
    pub env: Metadata,
    pub timeout_ms: Option<u64>,
    pub stdout_max_bytes: Option<usize>,
    pub stderr_max_bytes: Option<usize>,
}

/// The defaults and ceilings of shell invocations.
#[derive(Debug, Clone, Copy, PartialEq, Eq, Structural)]
pub struct ShellLimits {
    pub default_timeout_ms: u64,
    pub max_timeout_ms: u64,
    pub default_stdout_max_bytes: usize,
    pub max_stdout_max_bytes: usize,
    pub default_stderr_max_bytes: usize,
    pub max_stderr_max_bytes: usize,
}

impl Default for ShellLimits {
    fn default() -> (l: ShellLimits)
        ensures
            l == (ShellLimits {
                default_timeout_ms: 10_000,
                max_timeout_ms: 60_000,
                default_stdout_max_bytes: 16384,
                max_stdout_max_bytes: 262144,
                default_stderr_max_bytes: 16384,
                max_stderr_max_bytes: 262144,
            }),
    {
        ShellLimits {
            default_timeout_ms: 10_000,
            max_timeout_ms: 60_000,
            default_stdout_max_bytes: 16 * 1024,
            max_stdout_max_bytes: 256 * 1024,
            default_stderr_max_bytes: 16 * 1024,
            max_stderr_max_bytes: 256 * 1024,
        }
    }
}

/// The requested value or the default, at most the ceiling.
pub open spec fn capped(requested: Option<int>, default: int, max: int) -> int {
    let v = match requested {
        Some(r) => r,
        None => default,
    };
    if v < max {
        v
    } else {
        max
    }
}

pub open spec fn opt_u64(o: Option<u64>) -> Option<int> {
    match o {
        Some(v) => Some(v as int),
        None => None,
    }
}

pub open spec fn opt_usize(o: Option<usize>) -> Option<int> {
    match o {
        Some(v) => Some(v as int),
        None => None,
    }
}

impl ShellExecRequest {
    pub fn timeout_ms(&self, limits: &ShellLimits) -> (r: u64)
        ensures
            r == capped(opt_u64(self.timeout_ms), limits.default_timeout_ms as int, limits.max_timeout_ms as int),
    {
        let v = match self.timeout_ms {
            Some(t) => t,
            None => limits.default_timeout_ms,
        };
        if v < limits.max_timeout_ms {
            v
        } else {
            limits.max_timeout_ms
        }
    }

    pub fn stdout_max_bytes(&self, limits: &ShellLimits) -> (r: usize)
        ensures
            r == capped(
                opt_usize(self.stdout_max_bytes),
                limits.default_stdout_max_bytes as int,
                limits.max_stdout_max_bytes as int,
            ),
    {
        let v = match self.stdout_max_bytes {
            Some(t) => t,
            None => limits.default_stdout_max_bytes,
        };
        if v < limits.max_stdout_max_bytes {
            v
        } else {
            limits.max_stdout_max_bytes
        }
    }

    pub fn stderr_max_bytes(&self, limits: &ShellLimits) -> (r: usize)
        ensures
            r == capped(
                opt_usize(self.stderr_max_bytes),
                limits.default_stderr_max_bytes as int,
                limits.max_stderr_max_bytes as int,
            ),
    {
        let v = match self.stderr_max_bytes {
            Some(t) => t,
            None => limits.default_stderr_max_bytes,
        };
        if v < limits.max_stderr_max_bytes {
            v
        } else {
            limits.max_stderr_max_bytes
        }
    }
}

/// A web request to make.
#[derive(Debug)]
pub struct WebFetchRequest {
    pub url: String,
    pub method: Option<String>,
    pub headers: Metadata,
    pub body_text: Option<String>,
    pub timeout_ms: Option<u64>,
    pub response_max_bytes: Option<usize>,
}

/// The defaults and ceilings of web requests.
#[derive(Debug, Clone, Copy, PartialEq, Eq, Structural)]
pub struct WebLimits {
    pub default_timeout_ms: u64,
    pub max_timeout_ms: u64,
    pub default_response_max_bytes: usize,
    pub max_response_max_bytes: usize,
}

impl Default for WebLimits {
    fn default() -> (l: WebLimits)
        ensures
            l == (WebLimits {
                default_timeout_ms: 15_000,
                max_timeout_ms: 60_000,
                default_response_max_bytes: 65536,
                max_response_max_bytes: 524288,
            }),
    {
        WebLimits {
            default_timeout_ms: 15_000,
            max_timeout_ms: 60_000,
            default_response_max_bytes: 64 * 1024,
            max_response_max_bytes: 512 * 1024,
        }
    }
}

impl WebFetchRequest {
    pub fn timeout_ms(&self, limits: &WebLimits) -> (r: u64)
        ensures
            r == capped(opt_u64(self.timeout_ms), limits.default_timeout_ms as int, limits.max_timeout_ms as int),
    {
        let v = match self.timeout_ms {
            Some(t) => t,
            None => limits.default_timeout_ms,
        };
        if v < limits.max_timeout_ms {
            v
        } else {
            limits.max_timeout_ms
        }
    }

    pub fn response_max_bytes(&self, limits: &WebLimits) -> (r: usize)
        ensures
            r == capped(
                opt_usize(self.response_max_bytes),
                limits.default_response_max_bytes as int,
                limits.max_response_max_bytes as int,
            ),
    {
        let v = match self.response_max_bytes {
            Some(t) => t,
            None => limits.default_response_max_bytes,
        };
        if v < limits.max_response_max_bytes {
            v
        } else {
            limits.max_response_max_bytes
        }
    }

    /// The method to use: the requested one, `GET` by default.
    pub fn method(&self) -> (r: &str)
        ensures
            r@ == match self.method {
                Some(m) => m@,
                None => "GET"@,
            },
    {
        match &self.method {
            Some(m) => m.as_str(),
            None => {
                proof {
                    reveal_strlit("GET");
                }
                "GET"
            },
        }
    }
}

/// How an endpoint invocation ended.
#[derive(Debug)]
pub enum EndpointExecutionOutcome {
    Applied { actual_cost_micro: i64, reference_id: String },
    Rejected { reason_code: String, reference_id: String },
}

/// A sense an endpoint reports: the descriptor it is sent under, its
/// payload text, and the act it answers.
#[derive(Debug)]
pub struct SenseDatum {
    pub neural_signal_descriptor_id: String,
    pub payload: String,
    pub act_instance_id: String,
}

/// The sense `d` is sent under `descriptor`, answers `act` and says `payload`.
pub open spec fn sense_is(d: SenseDatum, descriptor: Seq<char>, act: Seq<char>, payload: Seq<char>) -> bool {
    &&& d.neural_signal_descriptor_id@ == descriptor
    &&& d.act_instance_id@ == act
    &&& d.payload@ == payload
}

/// The outcome of a shell invocation and the sense it reports.
#[derive(Debug)]
pub struct ShellHandlerOutput {
    pub outcome: EndpointExecutionOutcome,
    pub sense: Option<SenseDatum>,
}

/// The outcome of a web invocation and the sense it reports.
#[derive(Debug)]
pub struct WebHandlerOutput {
    pub outcome: EndpointExecutionOutcome,
    pub sense: Option<SenseDatum>,
}

/// The text that `String::from_utf8_lossy` makes of some bytes.
pub uninterp spec fn utf8_lossy(bytes: Seq<u8>) -> Seq<char>;

/// `String::from_utf8_lossy`: the bytes as text, each invalid sequence
/// replaced by U+FFFD. The text is named, not described.
#[verifier::external_body]
fn lossy_text(bytes: &[u8]) -> (r: String)
    ensures
        r@ == utf8_lossy(bytes@),
{
    String::from_utf8_lossy(bytes).to_string()
}

/// At most `cap` bytes of output as text, and whether bytes were cut off.
pub fn truncate_to_text(bytes: &Vec<u8>, cap: usize) -> (r: (String, bool))
    ensures
        bytes@.len() <= cap ==> r.0@ == utf8_lossy(bytes@) && !r.1,
        bytes@.len() > cap ==> r.0@ == utf8_lossy(bytes@.take(cap as int)) && r.1,
{
    if bytes.len() <= cap {
        return (lossy_text(bytes.as_slice()), false);
    }
    let mut head: Vec<u8> = Vec::new();
    let mut i: usize = 0;
    while i < cap
        invariant
            i <= cap,
            cap < bytes@.len(),
            head@ == bytes@.take(i as int),
        decreases cap - i,
    {
        head.push(bytes[i]);
        assert(head@ =~= bytes@.take(i + 1));
        i = i + 1;
    }
    (lossy_text(head.as_slice()), true)
}

/// The text of an integer, with a minus sign where it is negative.
pub open spec fn signed_decimal_seq(n: int) -> Seq<char> {
    if n < 0 {
        "-"@ + decimal_seq((-n) as nat)
    } else {
        decimal_seq(n as nat)
    }
}

pub fn signed_decimal(n: i32) -> (r: String)
    ensures
        r@ == signed_decimal_seq(n as int),
{
    if n < 0 {
        let magnitude: u64 = (-(n as i64)) as u64;
        let mut s = String::from_str("-");
        s.append(decimal(magnitude).as_str());
        s
    } else {
        decimal(n as u64)
    }
}

pub open spec fn bool_seq(b: bool) -> Seq<char> {
    if b {
        "true"@
    } else {
        "false"@
    }
}

pub fn bool_text(b: bool) -> (r: &'static str)
    ensures
        r@ == bool_seq(b),
{
    proof {
        reveal_strlit("true");
        reveal_strlit("false");
    }
    if b {
        "true"
    } else {
        "false"
    }
}

/// The text of a shell result sense.
pub open spec fn shell_payload_spec(
    act_instance_id: Seq<char>,
    descriptor_id: Seq<char>,
    exit_code: int,
    stdout_text: Seq<char>,
    stderr_text: Seq<char>,
    stdout_truncated: bool,
    stderr_truncated: bool,
    success: bool,
) -> Seq<char> {
    "shell_result act_instance_id="@ + act_instance_id + "; neural_signal_descriptor_id="@
        + descriptor_id + "; success="@ + bool_seq(success) + "; exit_code="@ + signed_decimal_seq(
        exit_code,
    ) + "; stdout_truncated="@ + bool_seq(stdout_truncated) + "; stderr_truncated="@ + bool_seq(
        stderr_truncated,
    ) + "\nstdout:\n"@ + stdout_text + "\nstderr:\n"@ + stderr_text
}

pub fn build_shell_result_payload(
    act_instance_id: &str,
    descriptor_id: &str,
    exit_code: i32,
    stdout_text: &str,
    stderr_text: &str,
    stdout_truncated: bool,
    stderr_truncated: bool,
    success: bool,
) -> (r: String)
    ensures
        r@ == shell_payload_spec(
            act_instance_id@,
            descriptor_id@,
            exit_code as int,
            stdout_text@,
            stderr_text@,
            stdout_truncated,
            stderr_truncated,
            success,
        ),
{
    let mut s = String::from_str("shell_result act_instance_id=");
    s.append(act_instance_id);
    s.append("; neural_signal_descriptor_id=");
    s.append(descriptor_id);
    s.append("; success=");
    s.append(bool_text(success));
    s.append("; exit_code=");
    s.append(signed_decimal(exit_code).as_str());
    s.append("; stdout_truncated=");
    s.append(bool_text(stdout_truncated));
    s.append("; stderr_truncated=");
    s.append(bool_text(stderr_truncated));
    s.append("\nstdout:\n");
    s.append(stdout_text);
    s.append("\nstderr:\n");
    s.append(stderr_text);
    s
}

/// A rejection with `reason_code` and the reference
/// `body.std.<endpoint>:<tag>:<act_instance_id>`.
pub open spec fn is_rejection(
    out: EndpointExecutionOutcome,
    reason_code: Seq<char>,
    endpoint: Seq<char>,
    tag: Seq<char>,
    act_instance_id: Seq<char>,
) -> bool {
    out matches EndpointExecutionOutcome::Rejected { reason_code: c, reference_id: r } && c@
        == reason_code && r@ == "body.std."@ + endpoint + ":"@ + tag + ":"@ + act_instance_id
}

/// A rejection with `reason_code` and the reference
/// `body.std.<endpoint>:<tag>:<act_instance_id>`.
pub fn rejection(reason_code: &str, endpoint: &str, tag: &str, act_instance_id: &str) -> (r:
    EndpointExecutionOutcome)
    ensures
        is_rejection(r, reason_code@, endpoint@, tag@, act_instance_id@),
{
    let mut reference_id = String::from_str("body.std.");
    reference_id.append(endpoint);
    reference_id.append(":");
    reference_id.append(tag);
    reference_id.append(":");
    reference_id.append(act_instance_id);
    EndpointExecutionOutcome::Rejected { reason_code: String::from_str(reason_code), reference_id }
}

/// A shell request names a program: its first argument is not blank.
pub open spec fn shell_argv_ok(request: ShellExecRequest) -> bool {
    request.argv@.len() > 0 && !is_blank_seq(request.argv@[0]@)
}

/// The rejection of a shell request that names no program.
pub fn shell_precheck(request: &ShellExecRequest, act_instance_id: &str) -> (r: Option<
    ShellHandlerOutput,
>)
    ensures
        shell_argv_ok(*request) ==> r is None,
        !shell_argv_ok(*request) ==> (r matches Some(out) && out.sense is None && is_rejection(
            out.outcome,
            "invalid_payload"@,
            "shell"@,
            "missing_argv"@,
            act_instance_id@,
        )),
{
    if request.argv.len() == 0 || is_blank(request.argv[0].as_str()) {
        return Some(
            ShellHandlerOutput {
                outcome: rejection("invalid_payload", "shell", "missing_argv", act_instance_id),
                sense: None,
            },
        );
    }
    None
}

/// What running a shell command gave.
#[derive(Debug)]
pub enum ShellExecution {
    SpawnFailed,
    WaitFailed,
    TimedOut,
    Finished { exit_code: Option<i32>, success: bool, stdout: Vec<u8>, stderr: Vec<u8> },
}

/// The output text of a stream capped at `cap` bytes, and whether it was cut.
pub open spec fn capped_text(bytes: Seq<u8>, cap: usize) -> (Seq<char>, bool) {
    if bytes.len() <= cap {
        (utf8_lossy(bytes), false)
    } else {
        (utf8_lossy(bytes.take(cap as int)), true)
    }
}

/// What a shell invocation reports for what running its command gave:
/// failures to start, to wait or in time are rejections without a sense;
/// a finished command reports its capped output, and is applied when it
/// succeeded and rejected as `non_zero_exit` otherwise.
pub fn shell_outcome(
    act_instance_id: &str,
    descriptor_id: &str,
    sense_descriptor_id: &str,
    stdout_cap: usize,
    stderr_cap: usize,
    execution: ShellExecution,
) -> (r: ShellHandlerOutput)
    ensures
        match execution {
            ShellExecution::SpawnFailed => r.sense is None && is_rejection(
                r.outcome,
                "exec_failure"@,
                "shell"@,
                "spawn_failure"@,
                act_instance_id@,
            ),
            ShellExecution::WaitFailed => r.sense is None && is_rejection(
                r.outcome,
                "exec_failure"@,
                "shell"@,
                "wait_failure"@,
                act_instance_id@,
            ),
            ShellExecution::TimedOut => r.sense is None && is_rejection(
                r.outcome,
                "timeout"@,
                "shell"@,
                "timeout"@,
                act_instance_id@,
            ),
            ShellExecution::Finished { exit_code, success, stdout, stderr } => {
                let code: int = match exit_code {
                    Some(c) => c as int,
                    None => -1,
                };
                let out = capped_text(stdout@, stdout_cap);
                let err = capped_text(stderr@, stderr_cap);
                &&& r.sense matches Some(d) && sense_is(
                    d,
                    sense_descriptor_id@,
                    act_instance_id@,
                    shell_payload_spec(
                        act_instance_id@,
                        descriptor_id@,
                        code,
                        out.0,
                        err.0,
                        out.1,
                        err.1,
                        success,
                    ),
                )
                &&& if success {
                    r.outcome matches EndpointExecutionOutcome::Applied {
                        actual_cost_micro,
                        reference_id,
                    } && actual_cost_micro == 0 && reference_id@ == "body.std.shell:applied:"@
                        + act_instance_id@
                } else {
                    is_rejection(
                        r.outcome,
                        "non_zero_exit"@,
                        "shell"@,
                        "non_zero_exit:"@ + signed_decimal_seq(code),
                        act_instance_id@,
                    )
                }
            },
        },
{
    match execution {
        ShellExecution::SpawnFailed => ShellHandlerOutput {
            outcome: rejection("exec_failure", "shell", "spawn_failure", act_instance_id),
            sense: None,
        },
        ShellExecution::WaitFailed => ShellHandlerOutput {
            outcome: rejection("exec_failure", "shell", "wait_failure", act_instance_id),
            sense: None,
        },
        ShellExecution::TimedOut => ShellHandlerOutput {
            outcome: rejection("timeout", "shell", "timeout", act_instance_id),
            sense: None,
        },
        ShellExecution::Finished { exit_code, success, stdout, stderr } => {
            let code: i32 = match exit_code {
                Some(c) => c,
                None => -1,
            };
            let (stdout_text, stdout_truncated) = truncate_to_text(&stdout, stdout_cap);
            let (stderr_text, stderr_truncated) = truncate_to_text(&stderr, stderr_cap);
            let payload = build_shell_result_payload(
                act_instance_id,
                descriptor_id,
                code,
                stdout_text.as_str(),
                stderr_text.as_str(),
                stdout_truncated,
                stderr_truncated,
                success,
            );
            let sense = SenseDatum {
                neural_signal_descriptor_id: String::from_str(sense_descriptor_id),
                payload,
                act_instance_id: String::from_str(act_instance_id),
            };
            if !success {
                let mut tag = String::from_str("non_zero_exit:");
                tag.append(signed_decimal(code).as_str());
                return ShellHandlerOutput {
                    outcome: rejection("non_zero_exit", "shell", tag.as_str(), act_instance_id),
                    sense: Some(sense),
                };
            }
            let mut reference_id = String::from_str("body.std.shell:applied:");
            reference_id.append(act_instance_id);
            ShellHandlerOutput {
                outcome: EndpointExecutionOutcome::Applied { actual_cost_micro: 0, reference_id },
                sense: Some(sense),
            }
        },
    }
}

/// The text of a web fetch result sense.
pub open spec fn web_payload_spec(
    act_instance_id: Seq<char>,
    descriptor_id: Seq<char>,
    final_url: Seq<char>,
    status_code: u16,
    body_truncated: bool,
    body_text: Seq<char>,
) -> Seq<char> {
    "web_fetch_result act_instance_id="@ + act_instance_id + "; neural_signal_descriptor_id="@
        + descriptor_id + "; url="@ + final_url + "; status_code="@ + decimal_seq(
        status_code as nat,
    ) + "; body_truncated="@ + bool_seq(body_truncated) + "; success=true\nbody:\n"@ + body_text
}

/// Why a web invocation was refused before its response body was read.
#[derive(Debug, Clone, Copy, PartialEq, Eq, Structural)]
pub enum WebFailure {
    /// The payload is not a web fetch request.
    InvalidPayload,
    /// The URL does not parse.
    InvalidUrl,
    /// The URL's scheme is neither `http` nor `https`.
    UnsupportedScheme,
    /// The method is not a valid HTTP method.
    InvalidMethod,
    /// A header name is not valid.
    InvalidHeaderName,
    /// A header value is not valid.
    InvalidHeaderValue,
    /// The HTTP client could not be built.
    ClientBuild,
    /// The request failed on the network.
    Network,
    /// No response came within the timeout.
    Timeout,
    /// Reading the response body failed.
    BodyRead,
    /// The response body did not arrive within the timeout.
    BodyTimeout,
}

/// The reason code a refusal is reported with, and the tag of its
/// reference id.
pub open spec fn web_failure_codes(f: WebFailure) -> (Seq<char>, Seq<char>) {
    match f {
        WebFailure::InvalidPayload => ("invalid_payload"@, "invalid_payload"@),
        WebFailure::InvalidUrl => ("invalid_payload"@, "invalid_url"@),
        WebFailure::UnsupportedScheme => ("unsupported_scheme"@, "unsupported_scheme"@),
        WebFailure::InvalidMethod => ("invalid_payload"@, "invalid_method"@),
        WebFailure::InvalidHeaderName => ("invalid_payload"@, "invalid_header_name"@),
        WebFailure::InvalidHeaderValue => ("invalid_payload"@, "invalid_header_value"@),
        WebFailure::ClientBuild => ("network_error"@, "client_build_error"@),
        WebFailure::Network => ("network_error"@, "network_error"@),
        WebFailure::Timeout => ("timeout"@, "timeout"@),
        WebFailure::BodyRead => ("network_error"@, "body_read_error"@),
        WebFailure::BodyTimeout => ("timeout"@, "body_timeout"@),
    }
}

fn web_failure_strs(f: WebFailure) -> (r: (&'static str, &'static str))
    ensures
        (r.0@, r.1@) == web_failure_codes(f),
{
    proof {
        reveal_strlit("invalid_payload");
        reveal_strlit("invalid_url");
        reveal_strlit("unsupported_scheme");
        reveal_strlit("invalid_method");
        reveal_strlit("invalid_header_name");
        reveal_strlit("invalid_header_value");
        reveal_strlit("network_error");
        reveal_strlit("client_build_error");
        reveal_strlit("timeout");
        reveal_strlit("body_read_error");
        reveal_strlit("body_timeout");
    }
    match f {
        WebFailure::InvalidPayload => ("invalid_payload", "invalid_payload"),
        WebFailure::InvalidUrl => ("invalid_payload", "invalid_url"),
        WebFailure::UnsupportedScheme => ("unsupported_scheme", "unsupported_scheme"),
        WebFailure::InvalidMethod => ("invalid_payload", "invalid_method"),
        WebFailure::InvalidHeaderName => ("invalid_payload", "invalid_header_name"),
        WebFailure::InvalidHeaderValue => ("invalid_payload", "invalid_header_value"),
        WebFailure::ClientBuild => ("network_error", "client_build_error"),
        WebFailure::Network => ("network_error", "network_error"),
        WebFailure::Timeout => ("timeout", "timeout"),
        WebFailure::BodyRead => ("network_error", "body_read_error"),
        WebFailure::BodyTimeout => ("timeout", "body_timeout"),
    }
}

/// What a refused web invocation reports: rejected with the failure's
/// reason code, a reference id `body.std.web:<tag>:<act instance id>`, and
/// no sense.
pub fn web_rejection(act_instance_id: &str, failure: WebFailure) -> (r: WebHandlerOutput)
    ensures
        r.outcome matches EndpointExecutionOutcome::Rejected { reason_code, reference_id }
            && reason_code@ == web_failure_codes(failure).0 && reference_id@ == "body.std.web:"@
            + web_failure_codes(failure).1 + ":"@ + act_instance_id@,
        r.sense is None,
{
    let (code, tag) = web_failure_strs(failure);
    let mut reference_id = String::from_str("body.std.web:");
    reference_id.append(tag);
    reference_id.append(":");
    reference_id.append(act_instance_id);
    WebHandlerOutput {
        outcome: EndpointExecutionOutcome::Rejected { reason_code: String::from_str(code), reference_id },
        sense: None,
    }
}

/// Whether a parsed URL's scheme may be fetched: only `http` and `https`.
pub fn web_scheme_allowed(scheme: &str) -> (r: bool)
    ensures
        r == (scheme@ == "http"@ || scheme@ == "https"@),
{
    str_eq(scheme, "http") || str_eq(scheme, "https")
}

/// What a web invocation reports once its response body was read: applied,
/// with the body capped at `response_cap` bytes.
pub fn web_fetch_outcome(
    act_instance_id: &str,
    descriptor_id: &str,
    sense_descriptor_id: &str,
    final_url: &str,
    status_code: u16,
    body: &Vec<u8>,
    response_cap: usize,
) -> (r: WebHandlerOutput)
    ensures
        r.outcome matches EndpointExecutionOutcome::Applied { actual_cost_micro, reference_id }
            && actual_cost_micro == 0 && reference_id@ == "body.std.web:applied:"@
            + act_instance_id@,
        r.sense matches Some(d) && sense_is(
            d,
            sense_descriptor_id@,
            act_instance_id@,
            web_payload_spec(
                act_instance_id@,
                descriptor_id@,
                final_url@,
                status_code,
                capped_text(body@, response_cap).1,
                capped_text(body@, response_cap).0,
            ),
        ),
{
    let (body_text, body_truncated) = truncate_to_text(body, response_cap);
    let mut payload = String::from_str("web_fetch_result act_instance_id=");
    payload.append(act_instance_id);
    payload.append("; neural_signal_descriptor_id=");
    payload.append(descriptor_id);
    payload.append("; url=");
    payload.append(final_url);
    payload.append("; status_code=");
    payload.append(decimal(status_code as u64).as_str());
    payload.append("; body_truncated=");
    payload.append(bool_text(body_truncated));
    payload.append("; success=true\nbody:\n");
    payload.append(body_text.as_str());
    let mut reference_id = String::from_str("body.std.web:applied:");
    reference_id.append(act_instance_id);
    WebHandlerOutput {
        outcome: EndpointExecutionOutcome::Applied { actual_cost_micro: 0, reference_id },
        sense: Some(
            SenseDatum {
                neural_signal_descriptor_id: String::from_str(sense_descriptor_id),
                payload,
                act_instance_id: String::from_str(act_instance_id),
            },
        ),
    }
}

} // verus!
