//! Application configuration persisted between sessions.
use vstd::prelude::*;

use std::path::PathBuf;

verus! {

/// Default PTT key when none is configured: CapsLock (unusual in gaming,
/// avoids conflicts).
pub const DEFAULT_PTT_KEY: &'static str = "CapsLock";

/// Application configuration persisted between sessions.
#[derive(Debug, Clone)]
pub struct AppConfig {
    /// Matrix homeserver URL (e.g. `https://matrix.org`).
    pub homeserver: String,
    /// Matrix username (local part, without `@` and domain).
    pub username: String,
    /// Configured PTT key string (e.g. `"CapsLock"`, `"F1"`, `"ctrl+shift+Space"`).
    /// `None` means not yet configured.
    pub ptt_key: Option<String>,
}

impl Default for AppConfig {
    /// The configuration used before anything is saved: matrix.org, no
    /// username, no PTT key.
    fn default() -> (r: Self)
        ensures
            r.homeserver@ == "https://matrix.org"@,
            r.username@ == Seq::<char>::empty(),
            r.ptt_key is None,
    {
        AppConfig {
            homeserver: String::from_str("https://matrix.org"),
            username: String::new(),
            ptt_key: None,
        }
    }
}

#[verifier::external_type_specification]
#[verifier::external_body]
pub struct ExPathBuf(PathBuf);

/// Configuration for connecting to a Matrix homeserver.
#[derive(Debug)]
pub struct MatrixConfig {
    /// Full homeserver URL (e.g. `https://matrix.org`).
    pub homeserver: String,
    /// Matrix username (local part only, without `@` and domain).
    pub username: String,
    /// Password for login.
    pub password: String,
    /// Path for the SQLite session store.
    pub store_path: PathBuf,
}

} // verus!
