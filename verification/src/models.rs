//! Core data model: users, hosts, host configurations and directory entries.
//!
//! Timestamps are seconds since the Unix epoch; the layer above renders them
//! in whatever calendar form it needs.

use vstd::prelude::*;
use crate::text::str_eq;

verus! {

broadcast use vstd::string::group_string_axioms;

/// The kind of backend a host points at.
#[derive(Clone, Copy, Debug, PartialEq, Eq, Structural)]
pub enum HostType {
    Local,
    Http,
    Sftp,
}

impl HostType {
    /// The type's wire name, as stored in the hosts table.
    pub fn as_str(&self) -> (r: &'static str)
        ensures
            *self == HostType::Local ==> r@ == "local"@,
            *self == HostType::Http ==> r@ == "http"@,
            *self == HostType::Sftp ==> r@ == "sftp"@,
    {
        match self {
            HostType::Local => "local",
            HostType::Http => "http",
            HostType::Sftp => "sftp",
        }
    }
}

/// Parses a host type's wire name; exactly `local`, `http` and `sftp` are
/// recognised.
pub fn parse_host_type(s: &str) -> (r: Option<HostType>)
    ensures
        r == Some(HostType::Local) <==> s@ == "local"@,
        r == Some(HostType::Http) <==> s@ == "http"@,
        r == Some(HostType::Sftp) <==> s@ == "sftp"@,
        r is None <==> s@ != "local"@ && s@ != "http"@ && s@ != "sftp"@,
{
    proof {
        reveal_strlit("local");
        reveal_strlit("http");
        reveal_strlit("sftp");
        assert("local"@.len() == 5);
        assert("http"@.len() == 4);
        assert("sftp"@.len() == 4);
        assert("http"@[0] == 'h');
        assert("sftp"@[0] == 's');
    }
    if str_eq(s, "local") {
        Some(HostType::Local)
    } else if str_eq(s, "http") {
        Some(HostType::Http)
    } else if str_eq(s, "sftp") {
        Some(HostType::Sftp)
    } else {
        None
    }
}

/// Connection parameters for a host; the populated subset depends on the
/// host's type (`path` for local, `url` for HTTP; `host`, `port`, `username`
/// and `password_encrypted` for SFTP).
///
/// `password_encrypted` only ever holds a vault token, never a plaintext
/// credential.
#[derive(Debug, Clone, PartialEq, Eq)]
pub struct HostConfig {
    pub path: Option<String>,
    pub url: Option<String>,
    pub host: Option<String>,
    pub port: Option<u16>,
    pub username: Option<String>,
    pub password_encrypted: Option<String>,
}

impl HostConfig {
    /// A configuration with every field absent.
    pub fn empty() -> (r: HostConfig)
        ensures
            r.path is None,
            r.url is None,
            r.host is None,
            r.port is None,
            r.username is None,
            r.password_encrypted is None,
    {
        HostConfig {
            path: None,
            url: None,
            host: None,
            port: None,
            username: None,
            password_encrypted: None,
        }
    }
}

/// A registered account.
#[derive(Debug, Clone)]
pub struct User {
    pub id: String,
    pub username: String,
    pub password_hash: String,
    pub created_at: i64,
}

/// The public projection of a user, safe to return to callers.
#[derive(Debug, Clone)]
pub struct UserInfo {
    pub id: String,
    pub username: String,
    pub created_at: i64,
}

/// A named, typed connection descriptor owned by exactly one user.
#[derive(Debug, Clone)]
pub struct Host {
    pub id: String,
    pub user_id: String,
    pub name: String,
    pub host_type: HostType,
    pub config: HostConfig,
    pub created_at: i64,
}

/// One entry of a directory listing: a projection of a remote file,
/// constructed fresh per call and never persisted.
#[derive(Debug, Clone, PartialEq, Eq)]
pub struct FileInfo {
    /// The entry's leaf name.
    pub name: String,
    /// The caller-facing path of the entry, relative to the host.
    pub path: String,
    pub is_dir: bool,
    /// Size in bytes.
    pub size: u64,
    /// Modification time in seconds since the Unix epoch, when known.
    pub modified: Option<i64>,
}

/// The verified identity attached to an authenticated request.
#[derive(Debug, Clone)]
pub struct Claims {
    /// Subject: the authenticated user's id.
    pub sub: String,
    pub username: String,
    /// Expiry, in seconds since the Unix epoch.
    pub exp: i64,
}

/// Credentials presented at login.
#[derive(Debug, Clone)]
pub struct LoginRequest {
    pub username: String,
    pub password: String,
}

/// A new account request.
#[derive(Debug, Clone)]
pub struct RegisterRequest {
    pub username: String,
    pub password: String,
}

/// A successful registration or login: the issued token and the user.
#[derive(Debug, Clone)]
pub struct AuthResponse {
    pub token: String,
    pub user: UserInfo,
}

/// A request to register a host.
#[derive(Debug, Clone)]
pub struct CreateHostRequest {
    pub name: String,
    pub host_type: HostType,
    pub config: HostConfig,
}

/// A file upload, addressed by host and path; the content travels separately.
#[derive(Debug, Clone)]
pub struct UploadRequest {
    pub host_id: String,
    pub path: String,
}

/// A directory listing: the path that was browsed and its entries.
#[derive(Debug, Clone)]
pub struct BrowseResponse {
    pub path: String,
    pub files: Vec<FileInfo>,
}

/// Relies on `uuid::Uuid::new_v4` and its hyphenated `Display` form: a fresh
/// random version-4 UUID rendered as 36 characters.
#[verifier::external_body]
fn new_uuid() -> (r: String)
    ensures
        r@.len() == 36,
{
    uuid::Uuid::new_v4().to_string()
}

/// Relies on `std::time::SystemTime::now`: seconds since the Unix epoch, or 0
/// should the clock read earlier than the epoch.
#[verifier::external_body]
fn now_unix() -> i64 {
    match std::time::SystemTime::now().duration_since(std::time::UNIX_EPOCH) {
        Ok(d) => d.as_secs() as i64,
        Err(_) => 0,
    }
}

impl User {
    /// A fresh user with a random id, stamped with the current time.
    pub fn new(username: String, password_hash: String) -> (r: User)
        ensures
            r.username == username,
            r.password_hash == password_hash,
            r.id@.len() == 36,
    {
        User { id: new_uuid(), username, password_hash, created_at: now_unix() }
    }

    /// The public projection of this user; the password hash is left out.
    pub fn to_user_info(&self) -> (r: UserInfo)
        ensures
            r.id == self.id,
            r.username == self.username,
            r.created_at == self.created_at,
    {
        UserInfo {
            id: self.id.clone(),
            username: self.username.clone(),
            created_at: self.created_at,
        }
    }
}

impl Host {
    /// A fresh host with a random id, stamped with the current time.
    pub fn new(user_id: String, name: String, host_type: HostType, config: HostConfig) -> (r:
        Host)
        ensures
            r.user_id == user_id,
            r.name == name,
            r.host_type == host_type,
            r.config == config,
            r.id@.len() == 36,
    {
        Host { id: new_uuid(), user_id, name, host_type, config, created_at: now_unix() }
    }
}

/// The value of a decimal digit string, most significant digit first.
pub open spec fn dec_val(s: Seq<char>) -> int
    decreases s.len(),
{
    if s.len() == 0 {
        0
    } else {
        dec_val(s.drop_last()) * 10 + (s.last() as u32 - 48)
    }
}

/// Whether every character is a decimal digit.
pub open spec fn all_digits(s: Seq<char>) -> bool {
    forall|i: int| 0 <= i < s.len() ==> 48 <= #[trigger] (s[i] as u32) <= 57
}

/// Parses a decimal port number; accepts exactly non-empty digit strings
/// whose value fits in a `u16` (leading zeros included).
pub fn parse_port(s: &str) -> (r: Option<u16>)
    ensures
        r is Some <==> s@.len() > 0 && all_digits(s@) && dec_val(s@) <= 65535,
        r matches Some(p) ==> p == dec_val(s@),
{
    let n = s.unicode_len();
    if n == 0 {
        return None;
    }
    let mut v: u32 = 0;
    let mut i: usize = 0;
    while i < n
        invariant
            n == s@.len(),
            0 < n,
            i <= n,
            all_digits(s@.take(i as int)),
            dec_val(s@.take(i as int)) <= 65535 ==> v == dec_val(s@.take(i as int)),
            dec_val(s@.take(i as int)) > 65535 ==> v == 65536,
            v <= 65536,
        decreases n - i,
    {
        let c = s.get_char(i);
        let cv = c as u32;
        if cv < 48 || cv > 57 {
            return None;
        }
        proof {
            assert(s@.take(i as int + 1).drop_last() =~= s@.take(i as int));
            assert(s@.take(i as int + 1).last() == s@[i as int]);
        }
        let d = cv - 48;
        v = v * 10 + d;
        if v > 65535 {
            v = 65536;
        }
        i += 1;
    }
    proof {
        assert(s@.take(n as int) =~= s@);
    }
    if v <= 65535 {
        Some(v as u16)
    } else {
        None
    }
}

} // verus!
