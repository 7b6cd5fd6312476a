//! The capability checks that refuse a request a backend cannot serve.
use vstd::prelude::*;

use crate::canonical::{CanonicalContentPart, CanonicalMessage, CanonicalOutputMode, CanonicalRequest, CanonicalToolChoice};
use crate::error::{plain_error, unsupported_capability, GatewayError, GatewayErrorKind};
use crate::types::BackendCapabilities;

verus! {

/// Some message of `ms` holds an image.
pub open spec fn canonical_needs_vision(ms: Seq<CanonicalMessage>) -> bool {
    exists|i: int, j: int|
        0 <= i < ms.len() && 0 <= j < ms[i].parts@.len() && (#[trigger] ms[i].parts@[j]) is ImageUrl
}

/// The capability a canonical request needs that the backend lacks, first
/// in the order of the checks.
pub open spec fn missing_capability(request: CanonicalRequest, caps: BackendCapabilities) -> Option<Seq<char>> {
    let tools = request.tools@.len() > 0 || request.tool_choice is Required
        || request.tool_choice is Specific;
    if request.stream && !caps.streaming {
        Some("backend does not support streaming requests"@)
    } else if tools && !caps.tool_calls {
        Some("backend does not support tool calling"@)
    } else if request.output_mode is JsonObject && !caps.json_mode {
        Some("backend does not support json output mode"@)
    } else if request.output_mode is JsonSchema && !caps.json_schema_mode {
        Some("backend does not support json schema output mode"@)
    } else if canonical_needs_vision(request.messages@) && !caps.vision {
        Some("backend does not support vision inputs"@)
    } else {
        None
    }
}

/// Refuses requests that a backend's capabilities do not cover.
#[derive(Debug, Clone, Copy)]
pub struct CapabilityGuard;

fn message_has_image(m: &CanonicalMessage) -> (r: bool)
    ensures
        r == exists|j: int| 0 <= j < m.parts@.len() && (#[trigger] m.parts@[j]) is ImageUrl,
{
    let mut j: usize = 0;
    while j < m.parts.len()
        invariant
            j <= m.parts@.len(),
            forall|k: int| 0 <= k < j ==> !((#[trigger] m.parts@[k]) is ImageUrl),
        decreases m.parts@.len() - j,
    {
        match &m.parts[j] {
            CanonicalContentPart::ImageUrl { .. } => {
                assert(m.parts@[j as int] is ImageUrl);
                return true;
            },
            _ => {},
        }
        j = j + 1;
    }
    false
}

impl CapabilityGuard {
    /// Refuses streaming, tool calls, JSON output or images where the
    /// backend does not support them.
    pub fn assert_supported(&self, request: &CanonicalRequest, capabilities: &BackendCapabilities) -> (r:
        Result<(), GatewayError>)
        ensures
            match missing_capability(*request, *capabilities) {
                Some(m) => r matches Err(e) && plain_error(
                    e,
                    GatewayErrorKind::UnsupportedCapability,
                    m,
                ),
                None => r is Ok,
            },
    {
        if request.stream && !capabilities.streaming {
            return Err(unsupported_capability("backend does not support streaming requests"));
        }
        let requests_tool_calls = request.tools.len() > 0 || match request.tool_choice {
            CanonicalToolChoice::Required | CanonicalToolChoice::Specific { .. } => true,
            _ => false,
        };
        if requests_tool_calls && !capabilities.tool_calls {
            return Err(unsupported_capability("backend does not support tool calling"));
        }
        match request.output_mode {
            CanonicalOutputMode::JsonObject => {
                if !capabilities.json_mode {
                    return Err(unsupported_capability("backend does not support json output mode"));
                }
            },
            CanonicalOutputMode::JsonSchema { .. } => {
                if !capabilities.json_schema_mode {
                    return Err(
                        unsupported_capability("backend does not support json schema output mode"),
                    );
                }
            },
            _ => {},
        }
        let mut needs_vision = false;
        let mut i: usize = 0;
        while i < request.messages.len()
            invariant
                i <= request.messages@.len(),
                needs_vision == exists|a: int, b: int|
                    0 <= a < i && 0 <= b < request.messages@[a].parts@.len()
                        && (#[trigger] request.messages@[a].parts@[b]) is ImageUrl,
            decreases request.messages@.len() - i,
        {
            if message_has_image(&request.messages[i]) {
                needs_vision = true;
            }
            i = i + 1;
        }
        if needs_vision && !capabilities.vision {
            return Err(unsupported_capability("backend does not support vision inputs"));
        }
        Ok(())
    }
}

} // verus!
