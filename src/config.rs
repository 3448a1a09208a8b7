//! What the program is told to do.
use vstd::prelude::*;
use std::collections::HashMap;

verus! {

/// Where the seen-set lives, which site to search and with which cookies, what
/// to search for, what to leave out, and where to report.
pub struct Config {
    pub database_path: String,
    pub dbree_base_uri: String,
    pub ignored_keywords: Vec<String>,
    pub discord: DiscordConfig,
    pub cookies: HashMap<String, String>,
    pub queries: Vec<String>,
}

/// Where notifications are delivered.
pub struct DiscordConfig {
    pub webhook_uri: String,
}

/// The base address of the index site when none is configured.
pub fn default_dbree_base_uri() -> (r: String)
    ensures
        r@ == "https://dbree.org"@,
{
    String::from_str("https://dbree.org")
}

} // verus!
