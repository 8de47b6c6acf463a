use vstd::prelude::*;

verus! {

/// The bot's settings: its credential, the command prefix and the users
/// granted admin rights (kept for a later permission check).
pub struct Config {
    pub token: String,
    pub prefix: String,
    pub admins: Vec<u64>,
}

impl Config {
    /// Settings from their parts.
    pub fn new(token: String, prefix: String, admins: Vec<u64>) -> (r: Config)
        ensures
            r.token@ == token@,
            r.prefix@ == prefix@,
            r.admins@ == admins@,
    {
        Config { token, prefix, admins }
    }

    /// The settings written when none exist yet: a placeholder credential
    /// for the operator to replace, the prefix `%` and no admins.
    pub fn default_config() -> (r: Config)
        ensures
            r.token@ == "Insert your token here"@,
            r.prefix@ == "%"@,
            r.admins@.len() == 0,
    {
        Config {
            token: String::from_str("Insert your token here"),
            prefix: String::from_str("%"),
            admins: Vec::new(),
        }
    }
}

} // verus!
