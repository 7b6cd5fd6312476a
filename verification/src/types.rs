//! Gateway configuration: backends and their models, capabilities,
//! credentials, and the reliability, budget and chat settings with their
//! defaults.
use vstd::prelude::*;

verus! {

/// The alias that a configuration must define on some model.
pub open spec fn default_route_alias() -> Seq<char> {
    "default"@
}

/// The capability that chat route references must name.
pub open spec fn chat_capability_id() -> Seq<char> {
    "chat"@
}

#[derive(Debug, Clone, Copy, PartialEq, Eq, Structural)]
pub enum BackendDialect {
    OpenAiCompatible,
    Ollama,
    GitHubCopilotSdk,
}

#[derive(Debug, Clone, Copy, PartialEq, Eq, Structural)]
pub struct BackendCapabilities {
    pub streaming: bool,
    pub tool_calls: bool,
    pub parallel_tool_calls: bool,
    pub json_mode: bool,
    pub json_schema_mode: bool,
    pub vision: bool,
    pub resumable_streaming: bool,
}

impl Default for BackendCapabilities {
    fn default() -> (c: Self)
        ensures
            c.streaming,
            !c.tool_calls,
            !c.parallel_tool_calls,
            !c.json_mode,
            !c.json_schema_mode,
            !c.vision,
            !c.resumable_streaming,
    {
        BackendCapabilities {
            streaming: true,
            tool_calls: false,
            parallel_tool_calls: false,
            json_mode: false,
            json_schema_mode: false,
            vision: false,
            resumable_streaming: false,
        }
    }
}

#[derive(Debug)]
pub struct CopilotConfig {
    pub command: String,
    pub args: Vec<String>,
}

#[derive(Debug)]
pub enum CredentialRef {
    Env { var: String },
    InlineToken { token: String },
    NoCredential,
}

#[derive(Debug)]
pub struct ResolvedCredential {
    pub auth_header: Option<String>,
    pub extra_headers: Vec<(String, String)>,
    pub opaque: Vec<(String, String)>,
}

impl ResolvedCredential {
    /// A credential that adds no header.
    pub fn none() -> (c: Self)
        ensures
            c.auth_header is None,
            c.extra_headers@.len() == 0,
            c.opaque@.len() == 0,
    {
        ResolvedCredential { auth_header: None, extra_headers: Vec::new(), opaque: Vec::new() }
    }
}

#[derive(Debug)]
pub struct ModelProfile {
    pub id: String,
    pub aliases: Vec<String>,
}

#[derive(Debug)]
pub struct BackendProfile {
    pub id: String,
    pub dialect: BackendDialect,
    pub endpoint: Option<String>,
    pub credential: CredentialRef,
    pub models: Vec<ModelProfile>,
    pub capabilities: Option<BackendCapabilities>,
    pub copilot: Option<CopilotConfig>,
}

#[derive(Debug, PartialEq, Eq)]
pub struct ModelTarget {
    pub backend_id: String,
    pub model_id: String,
}

/// A copy of a list of texts.
pub fn copy_strings(v: &Vec<String>) -> (r: Vec<String>)
    ensures
        r@ == v@,
{
    let mut r: Vec<String> = Vec::new();
    let mut i: usize = 0;
    while i < v.len()
        invariant
            i <= v.len(),
            r@ == v@.subrange(0, i as int),
        decreases v.len() - i,
    {
        r.push(v[i].clone());
        i = i + 1;
        assert(r@ =~= v@.subrange(0, i as int));
    }
    assert(r@ =~= v@);
    r
}

/// A copy of an optional text.
pub fn copy_opt_string(o: &Option<String>) -> (r: Option<String>)
    ensures
        r == *o,
{
    match o {
        Some(s) => Some(s.clone()),
        None => None,
    }
}

impl ModelTarget {
    pub fn duplicate(&self) -> (r: Self)
        ensures
            r == *self,
    {
        ModelTarget { backend_id: self.backend_id.clone(), model_id: self.model_id.clone() }
    }
}

impl ModelProfile {
    /// Equal id and aliases.
    pub open spec fn same_as(&self, other: &ModelProfile) -> bool {
        self.id == other.id && self.aliases@ == other.aliases@
    }

    pub fn duplicate(&self) -> (r: Self)
        ensures
            r.same_as(self),
    {
        ModelProfile { id: self.id.clone(), aliases: copy_strings(&self.aliases) }
    }
}

impl CredentialRef {
    pub fn duplicate(&self) -> (r: Self)
        ensures
            r == *self,
    {
        match self {
            CredentialRef::Env { var } => CredentialRef::Env { var: var.clone() },
            CredentialRef::InlineToken { token } => CredentialRef::InlineToken {
                token: token.clone(),
            },
            CredentialRef::NoCredential => CredentialRef::NoCredential,
        }
    }
}

impl CopilotConfig {
    pub open spec fn same_as(&self, other: &CopilotConfig) -> bool {
        self.command == other.command && self.args@ == other.args@
    }

    pub fn duplicate(&self) -> (r: Self)
        ensures
            r.same_as(self),
    {
        CopilotConfig { command: self.command.clone(), args: copy_strings(&self.args) }
    }
}

/// Two model lists that agree model by model.
pub open spec fn same_models(a: Seq<ModelProfile>, b: Seq<ModelProfile>) -> bool {
    a.len() == b.len() && forall|i: int| 0 <= i < a.len() ==> #[trigger] a[i].same_as(&b[i])
}

impl BackendProfile {
    /// Equal in every field, lists compared element by element.
    pub open spec fn same_as(&self, other: &BackendProfile) -> bool {
        &&& self.id == other.id
        &&& self.dialect == other.dialect
        &&& self.endpoint == other.endpoint
        &&& self.credential == other.credential
        &&& same_models(self.models@, other.models@)
        &&& self.capabilities == other.capabilities
        &&& match (self.copilot, other.copilot) {
            (Some(a), Some(b)) => a.same_as(&b),
            (None, None) => true,
            _ => false,
        }
    }

    pub fn duplicate(&self) -> (r: Self)
        ensures
            r.same_as(self),
    {
        let mut models: Vec<ModelProfile> = Vec::new();
        let mut i: usize = 0;
        while i < self.models.len()
            invariant
                i <= self.models.len(),
                models@.len() == i,
                forall|k: int| 0 <= k < i ==> #[trigger] models@[k].same_as(&self.models@[k]),
            decreases self.models.len() - i,
        {
            models.push(self.models[i].duplicate());
            i = i + 1;
        }
        let copilot = match &self.copilot {
            Some(c) => Some(c.duplicate()),
            None => None,
        };
        BackendProfile {
            id: self.id.clone(),
            dialect: self.dialect,
            endpoint: copy_opt_string(&self.endpoint),
            credential: self.credential.duplicate(),
            models,
            capabilities: self.capabilities,
            copilot,
        }
    }
}

#[derive(Debug, Clone, Copy, PartialEq, Eq, Structural)]
pub enum RetryPolicy {
    BeforeFirstEventOnly,
    AdapterResumable,
}

impl Default for RetryPolicy {
    fn default() -> (p: Self)
        ensures
            p == RetryPolicy::BeforeFirstEventOnly,
    {
        RetryPolicy::BeforeFirstEventOnly
    }
}

#[derive(Debug, Clone, Copy, PartialEq, Eq, Structural)]
pub struct ReliabilityConfig {
    pub request_timeout_ms: u64,
    pub max_retries: u32,
    pub backoff_base_ms: u64,
    pub backoff_max_ms: u64,
    pub retry_policy: RetryPolicy,
    pub breaker_failure_threshold: u32,
    pub breaker_open_ms: u64,
}

pub fn default_request_timeout_ms() -> (r: u64)
    ensures
        r == 30_000,
{
    30_000
}

pub fn default_max_retries() -> (r: u32)
    ensures
        r == 2,
{
    2
}

pub fn default_backoff_base_ms() -> (r: u64)
    ensures
        r == 200,
{
    200
}

pub fn default_backoff_max_ms() -> (r: u64)
    ensures
        r == 2_000,
{
    2_000
}

pub fn default_breaker_failure_threshold() -> (r: u32)
    ensures
        r == 5,
{
    5
}

pub fn default_breaker_open_ms() -> (r: u64)
    ensures
        r == 15_000,
{
    15_000
}

impl Default for ReliabilityConfig {
    fn default() -> (c: Self)
        ensures
            c == (ReliabilityConfig {
                request_timeout_ms: 30_000,
                max_retries: 2,
                backoff_base_ms: 200,
                backoff_max_ms: 2_000,
                retry_policy: RetryPolicy::BeforeFirstEventOnly,
                breaker_failure_threshold: 5,
                breaker_open_ms: 15_000,
            }),
    {
        ReliabilityConfig {
            request_timeout_ms: default_request_timeout_ms(),
            max_retries: default_max_retries(),
            backoff_base_ms: default_backoff_base_ms(),
            backoff_max_ms: default_backoff_max_ms(),
            retry_policy: RetryPolicy::BeforeFirstEventOnly,
            breaker_failure_threshold: default_breaker_failure_threshold(),
            breaker_open_ms: default_breaker_open_ms(),
        }
    }
}

#[derive(Debug, Clone, Copy, PartialEq, Eq, Structural)]
pub struct BudgetConfig {
    pub max_request_time_ms: u64,
    pub max_usage_tokens_per_request: Option<u64>,
    pub max_concurrency_per_backend: u32,
    pub rate_smoothing_per_second: Option<u32>,
}

pub fn default_max_request_time_ms() -> (r: u64)
    ensures
        r == 45_000,
{
    45_000
}

pub fn default_max_concurrency_per_backend() -> (r: u32)
    ensures
        r == 8,
{
    8
}

impl Default for BudgetConfig {
    fn default() -> (c: Self)
        ensures
            c == (BudgetConfig {
                max_request_time_ms: 45_000,
                max_usage_tokens_per_request: None,
                max_concurrency_per_backend: 8,
                rate_smoothing_per_second: None,
            }),
    {
        BudgetConfig {
            max_request_time_ms: default_max_request_time_ms(),
            max_usage_tokens_per_request: None,
            max_concurrency_per_backend: default_max_concurrency_per_backend(),
            rate_smoothing_per_second: None,
        }
    }
}

#[derive(Debug)]
pub struct ChatConfig {
    pub default_route: Option<String>,
    pub default_max_tool_rounds: u32,
    pub default_max_turn_context_messages: usize,
    pub default_session_ttl_seconds: u64,
    pub default_turn_timeout_ms: u64,
}

pub fn default_chat_default_route() -> (r: Option<String>)
    ensures
        r matches Some(s) && s@ == default_route_alias(),
{
    Some(String::from_str("default"))
}

pub fn default_chat_default_max_tool_rounds() -> (r: u32)
    ensures
        r == 6,
{
    6
}

pub fn default_chat_default_max_turn_context_messages() -> (r: usize)
    ensures
        r == 64,
{
    64
}

pub fn default_chat_default_session_ttl_seconds() -> (r: u64)
    ensures
        r == 3_600,
{
    3_600
}

pub fn default_chat_default_turn_timeout_ms() -> (r: u64)
    ensures
        r == 30_000,
{
    30_000
}

impl Default for ChatConfig {
    fn default() -> (c: Self)
        ensures
            c.default_route matches Some(s) && s@ == default_route_alias(),
            c.default_max_tool_rounds == 6,
            c.default_max_turn_context_messages == 64,
            c.default_session_ttl_seconds == 3_600,
            c.default_turn_timeout_ms == 30_000,
    {
        ChatConfig {
            default_route: default_chat_default_route(),
            default_max_tool_rounds: default_chat_default_max_tool_rounds(),
            default_max_turn_context_messages: default_chat_default_max_turn_context_messages(),
            default_session_ttl_seconds: default_chat_default_session_ttl_seconds(),
            default_turn_timeout_ms: default_chat_default_turn_timeout_ms(),
        }
    }
}

#[derive(Debug)]
pub struct AIGatewayConfig {
    pub backends: Vec<BackendProfile>,
    pub chat: ChatConfig,
    pub reliability: ReliabilityConfig,
    pub budget: BudgetConfig,
}

/// What an adapter is handed for one request; the timeout is in
/// milliseconds.
#[derive(Debug)]
pub struct AdapterContext {
    pub backend_id: String,
    pub model: String,
    pub profile: BackendProfile,
    pub credential: ResolvedCredential,
    pub timeout_ms: u64,
    pub request_id: String,
}

} // verus!
