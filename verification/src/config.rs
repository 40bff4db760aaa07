//! Connection settings and the fixed locations and limits of the assistant.

use vstd::prelude::*;

verus! {

/// Name of the database file, relative to the working directory.
pub const DB_FILE_PATH: &'static str = "emul_bot_memory.sqlite";

/// Name of the file that holds the system prompt.
pub const PROMPT_FILE_PATH: &'static str = "vorpal_bunny_prompt.txt";

/// Number of logged lines of a channel that are handed to the model.
pub const LOG_HISTORY_LINES: usize = 500;

/// Of a hundred lines of a channel, the number that the assistant answers
/// unprompted.
pub const RANDOM_INTERJECT_CHANCE_PERCENT: u32 = 2;

/// Of a hundred lines that mention the assistant, the number that it takes
/// as addressed to it without asking the model.
pub const RANDOM_INTERJECT_CHANCE_IF_MENTIONED_PERCENT: u32 = 20;

/// Settings of one connection to a chat server.
#[derive(Debug, PartialEq, Eq)]
pub struct Config {
    /// Server address.
    pub server: String,
    /// Server port.
    pub port: u16,
    /// Nickname of the assistant.
    pub nickname: String,
    /// Nickname of the first administrator.
    pub admin: String,
    /// Password for the nickname service, if any.
    pub nickserv_password: Option<String>,
    /// Whether the connection uses TLS.
    pub use_tls: bool,
}

impl Clone for Config {
    fn clone(&self) -> (r: Self)
        ensures
            r == *self,
    {
        Config {
            server: self.server.clone(),
            port: self.port,
            nickname: self.nickname.clone(),
            admin: self.admin.clone(),
            nickserv_password: match &self.nickserv_password {
                Some(password) => Some(password.clone()),
                None => None,
            },
            use_tls: self.use_tls,
        }
    }
}

impl Config {
    /// Location of the database file.
    pub fn db_path(&self) -> (path: String)
        ensures
            path@ == DB_FILE_PATH@,
    {
        DB_FILE_PATH.to_owned()
    }

    /// Location of the system prompt file.
    pub fn prompt_path(&self) -> (path: String)
        ensures
            path@ == PROMPT_FILE_PATH@,
    {
        PROMPT_FILE_PATH.to_owned()
    }
}

} // verus!
