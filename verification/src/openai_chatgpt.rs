//! Fixed-contract ChatGPT subscription compatibility adapter: endpoint
//! constants, OAuth callback handling, credential lifecycle and response
//! stream framing.

pub mod callback;
pub mod connect_session;
pub mod credential_lifecycle;
pub mod sse;
pub mod token_response;
pub mod url_coding;



use vstd::prelude::*;

verus! {

pub const PROVIDER_ID: &'static str = "openai-chatgpt-compat";

pub const MODEL: &'static str = "gpt-5.5";

pub const CLIENT_ID: &'static str = "app_EMoamEEZ73f0CkXaXp7hrann";

pub const AUTH_URL: &'static str = "https://auth.openai.com/oauth/authorize";

pub const TOKEN_URL: &'static str = "https://auth.openai.com/oauth/token";

pub const INFERENCE_URL: &'static str = "https://chatgpt.com/backend-api/codex/responses";

pub const SCOPES: &'static str = "openid profile email offline_access";

pub const CREDENTIAL_HANDLE: &'static str = "openai-chatgpt-compat-v1";

pub const PRIMARY_CALLBACK_PORT: u16 = 1455;

pub const FALLBACK_CALLBACK_PORT: u16 = 1457;

pub const CONNECT_TIMEOUT_SECS: u64 = 300;

pub const MAX_CALLBACK_REQUEST: usize = 16 * 1024;

pub const MAX_CALLBACK_VALUE: usize = 8 * 1024;

pub const MAX_PROVIDER_BODY: usize = 64 * 1024;

pub const MAX_SSE_BUFFER: usize = 256 * 1024;

pub const REFRESH_SKEW_SECS: i64 = 60;

} // verus!
