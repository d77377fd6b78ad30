//! OpenAI Codex login: PKCE, the loopback callback, the login flows' decisions
//! and credential storage.
pub mod callback;
pub mod login;
pub mod pkce;
pub mod storage;
