//! The capability check of chat turns, and what a turn sends to its
//! backend.
use vstd::prelude::*;

use crate::chat_types::{ChatMessage, ContentPart, OutputMode, TurnLimits};
use crate::error::{plain_error, unsupported_capability, GatewayError, GatewayErrorKind};
use crate::metadata::Metadata;
use crate::tool::ChatToolDefinition;
use crate::types::BackendCapabilities;

verus! {

/// What one chat turn sends to its backend.
#[derive(Debug)]
pub struct TurnPayload {
    pub messages: Vec<ChatMessage>,
    pub tools: Vec<ChatToolDefinition>,
    pub output_mode: OutputMode,
    pub limits: TurnLimits,
    pub enable_thinking: bool,
    pub metadata: Metadata,
}

/// Some message of `ms` holds an image.
pub open spec fn chat_needs_vision(ms: Seq<ChatMessage>) -> bool {
    exists|i: int, j: int|
        0 <= i < ms.len() && 0 <= j < ms[i].parts@.len() && (#[trigger] ms[i].parts@[j]) is ImageUrl
}

/// The capability a chat turn needs that the backend lacks, first in the
/// order of the checks.
pub open spec fn missing_turn_capability(payload: TurnPayload, caps: BackendCapabilities) -> Option<Seq<char>> {
    if payload.tools@.len() > 0 && !caps.tool_calls {
        Some("backend does not support tool calling"@)
    } else if payload.output_mode is JsonObject && !caps.json_mode {
        Some("backend does not support json output mode"@)
    } else if payload.output_mode is JsonSchema && !caps.json_schema_mode {
        Some("backend does not support json schema output mode"@)
    } else if chat_needs_vision(payload.messages@) && !caps.vision {
        Some("backend does not support vision inputs"@)
    } else {
        None
    }
}

fn chat_message_has_image(m: &ChatMessage) -> (r: bool)
    ensures
        r == exists|j: int| 0 <= j < m.parts@.len() && (#[trigger] m.parts@[j]) is ImageUrl,
{
    let mut j: usize = 0;
    while j < m.parts.len()
        invariant
            j <= m.parts@.len(),
            forall|k: int| 0 <= k < j ==> !((#[trigger] m.parts@[k]) is ImageUrl),
        decreases m.parts@.len() - j,
    {
        match &m.parts[j] {
            ContentPart::ImageUrl { .. } => {
                assert(m.parts@[j as int] is ImageUrl);
                return true;
            },
            _ => {},
        }
        j = j + 1;
    }
    false
}

/// Refuses chat turns that a backend's capabilities do not cover.
#[derive(Debug, Clone, Copy)]
pub struct CapabilityGuard;

impl CapabilityGuard {
    pub fn assert_supported(&self, payload: &TurnPayload, capabilities: &BackendCapabilities) -> (r:
        Result<(), GatewayError>)
        ensures
            match missing_turn_capability(*payload, *capabilities) {
                Some(m) => r matches Err(e) && plain_error(
                    e,
                    GatewayErrorKind::UnsupportedCapability,
                    m,
                ),
                None => r is Ok,
            },
    {
        if payload.tools.len() > 0 && !capabilities.tool_calls {
            return Err(unsupported_capability("backend does not support tool calling"));
        }
        match payload.output_mode {
            OutputMode::JsonObject => {
                if !capabilities.json_mode {
                    return Err(unsupported_capability("backend does not support json output mode"));
                }
            },
            OutputMode::JsonSchema { .. } => {
                if !capabilities.json_schema_mode {
                    return Err(
                        unsupported_capability("backend does not support json schema output mode"),
                    );
                }
            },
            _ => {},
        }
        let mut needs_vision = false;
        let mut i: usize = 0;
        while i < payload.messages.len()
            invariant
                i <= payload.messages@.len(),
                needs_vision == exists|a: int, b: int|
                    0 <= a < i && 0 <= b < payload.messages@[a].parts@.len()
                        && (#[trigger] payload.messages@[a].parts@[b]) is ImageUrl,
            decreases payload.messages@.len() - i,
        {
            if chat_message_has_image(&payload.messages[i]) {
                needs_vision = true;
            }
            i = i + 1;
        }
        if needs_vision && !capabilities.vision {
            return Err(unsupported_capability("backend does not support vision inputs"));
        }
        Ok(())
    }
}

} // verus!
