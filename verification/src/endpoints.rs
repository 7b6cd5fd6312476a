//! Where each HTTP adapter sends its requests: the backend's endpoint,
//! without trailing slashes, followed by the path of its API.
use vstd::prelude::*;

use crate::error::{GatewayError, GatewayErrorKind};
use crate::responses::backend_error;
use crate::types::AdapterContext;

verus! {

/// `s` without the slashes at its end.
pub open spec fn strip_slashes(s: Seq<char>) -> Seq<char>
    decreases s.len(),
{
    if s.len() > 0 && s.last() == '/' {
        strip_slashes(s.drop_last())
    } else {
        s
    }
}

/// The URL of `path` under the endpoint of the backend of `ctx`; a backend
/// without an endpoint is refused with `missing`.
pub open spec fn endpoint_url(ctx: AdapterContext, missing: Seq<char>, path: Seq<char>, r: Result<String, GatewayError>) -> bool {
    match ctx.profile.endpoint {
        Some(e) => r matches Ok(u) && u@ == strip_slashes(e@) + path,
        None => r matches Err(err) && backend_error(err, GatewayErrorKind::InvalidRequest, missing, ctx.backend_id@),
    }
}

fn url_under(ctx: &AdapterContext, missing: &str, path: &str) -> (r: Result<String, GatewayError>)
    ensures
        endpoint_url(*ctx, missing@, path@, r),
{
    let endpoint = match &ctx.profile.endpoint {
        Some(e) => e,
        None => {
            return Err(
                GatewayError::new(GatewayErrorKind::InvalidRequest, missing).with_retryable(false).with_backend_id(
                    ctx.backend_id.as_str(),
                ),
            );
        },
    };
    let mut n = endpoint.as_str().unicode_len();
    assert(endpoint@.take(n as int) =~= endpoint@);
    while n > 0 && endpoint.as_str().get_char(n - 1) == '/'
        invariant
            n <= endpoint@.len(),
            strip_slashes(endpoint@) == strip_slashes(endpoint@.take(n as int)),
        decreases n,
    {
        assert(endpoint@.take(n as int).drop_last() =~= endpoint@.take(n - 1));
        n = n - 1;
    }
    let base = endpoint.as_str().substring_char(0, n);
    let mut url = String::from_str(base);
    url.append(path);
    Ok(url)
}

/// The chat completions URL of an OpenAI-compatible backend.
pub fn openai_chat_url(ctx: &AdapterContext) -> (r: Result<String, GatewayError>)
    ensures
        endpoint_url(*ctx, "openai-compatible backend requires endpoint"@, "/chat/completions"@, r),
{
    url_under(ctx, "openai-compatible backend requires endpoint", "/chat/completions")
}

/// The chat URL of an Ollama backend.
pub fn ollama_chat_url(ctx: &AdapterContext) -> (r: Result<String, GatewayError>)
    ensures
        endpoint_url(*ctx, "ollama backend requires endpoint"@, "/api/chat"@, r),
{
    url_under(ctx, "ollama backend requires endpoint", "/api/chat")
}

/// The responses URL of an OpenAI Responses backend.
pub fn responses_url(ctx: &AdapterContext) -> (r: Result<String, GatewayError>)
    ensures
        endpoint_url(*ctx, "openai-responses backend requires endpoint"@, "/responses"@, r),
{
    url_under(ctx, "openai-responses backend requires endpoint", "/responses")
}

} // verus!
