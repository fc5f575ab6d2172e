//! The program's configuration file contents.

use vstd::prelude::*;

verus! {

/// Settings read from `config.toml` in the user's configuration directory.
#[derive(Debug)]
pub struct Config {
    pub api_endpoint: String,
    pub api_key: String,
    pub model: String,
}

/// The endpoint written into a fresh configuration file.
pub open spec fn default_api_endpoint() -> Seq<char> {
    "https://api.openai.com/v1/chat/completions"@
}

/// The placeholder key written into a fresh configuration file.
pub open spec fn default_api_key() -> Seq<char> {
    "YOUR_API_KEY_HERE"@
}

/// The model written into a fresh configuration file.
pub open spec fn default_model() -> Seq<char> {
    "gpt-3.5-turbo"@
}

impl Default for Config {
    fn default() -> (c: Self)
        ensures
            c.api_endpoint@ == default_api_endpoint(),
            c.api_key@ == default_api_key(),
            c.model@ == default_model(),
    {
        Config {
            api_endpoint: String::from_str("https://api.openai.com/v1/chat/completions"),
            api_key: String::from_str("YOUR_API_KEY_HERE"),
            model: String::from_str("gpt-3.5-turbo"),
        }
    }
}

} // verus!
