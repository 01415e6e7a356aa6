//! Plain records exchanged with the storage and presentation layers.

use vstd::prelude::*;

verus! {

/// How to reach and authenticate against one device.
#[derive(Debug, Clone, PartialEq, Eq)]
pub struct SshConfig {
    pub host: String,
    pub port: u16,
    pub username: String,
    /// `password` or `key`.
    pub auth_type: String,
    pub private_key_path: Option<String>,
    /// The password, or with key authentication the key's passphrase.
    pub password: Option<String>,
}

/// What a device reports about itself, with the storage metadata.
#[derive(Debug, Clone, PartialEq, Eq)]
pub struct SystemInfo {
    pub id: Option<i64>,
    pub device_id: i64,
    pub updated_at: Option<i64>,
    pub hostname: String,
    pub os: String,
    pub kernel: String,
    pub cuda: Option<String>,
    pub jetpack: Option<String>,
    pub uptime_sec: u64,
}

/// One entry of a remote directory listing.
#[derive(Debug, Clone, PartialEq, Eq)]
pub struct DirEntry {
    pub name: String,
    pub path: String,
    pub is_dir: bool,
    pub size: u64,
}

impl SshConfig {
    /// The credential that a stored row describes. The port column is an
    /// integer of any size: its low 16 bits are the port.
    pub fn from_row(
        host: String,
        port: i64,
        username: String,
        auth_type: String,
        password: Option<String>,
        private_key_path: Option<String>,
    ) -> (cfg: SshConfig)
        ensures
            cfg.host == host,
            cfg.port == port as u16,
            cfg.username == username,
            cfg.auth_type == auth_type,
            cfg.password == password,
            cfg.private_key_path == private_key_path,
    {
        SshConfig {
            host,
            port: #[verifier::truncate]
            (port as u16),
            username,
            auth_type,
            private_key_path,
            password,
        }
    }
}

/// The text of an optional string.
pub open spec fn opt_text(s: Option<String>) -> Option<Seq<char>> {
    match s {
        Some(t) => Some(t@),
        None => None,
    }
}

} // verus!
