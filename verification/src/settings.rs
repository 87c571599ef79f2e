//! Persistent settings. Reading and writing the settings file is the
//! caller's; this module holds the values and the environment override rule.
use vstd::prelude::*;

verus! {

broadcast use vstd::string::group_string_axioms;

#[derive(Debug, Clone)]
pub struct Settings {
    /// Gelbooru API credentials, pasted verbatim — e.g.
    /// `&api_key=...&user_id=...`.
    pub gelbooru_credentials: String,
}

impl Default for Settings {
    fn default() -> (s: Settings)
        ensures
            s.gelbooru_credentials@ == Seq::<char>::empty(),
    {
        Settings { gelbooru_credentials: String::new() }
    }
}

impl Settings {
    /// Apply the `SETTING_GELBOORU_API_CREDENTIALS` override: when the variable
    /// is set, its value replaces the stored credentials.
    pub fn with_env_override(self, credentials_var: Option<String>) -> (s: Settings)
        ensures
            s.gelbooru_credentials@ == match credentials_var {
                Some(v) => v@,
                None => self.gelbooru_credentials@,
            },
    {
        match credentials_var {
            Some(v) => Settings { gelbooru_credentials: v },
            None => self,
        }
    }
}

} // verus!
