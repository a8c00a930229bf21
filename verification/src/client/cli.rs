//! What the command line means: server names, default labels and the
//! authentication flags.

use crate::client::config::is_config;
use crate::client::error::ClientError;
use crate::client::local_auth::{
    api_key_from_str, read_env, read_file, session_from_userpass, without_line_breaks, AuthConfig, AuthConfigError,
    AuthPolicy, DEFAULT_REALM,
};
use crate::client::login_page::SessionStore;
use crate::proto::consts::DEFAULT_UDP_PORT;
use crate::text::{
    cut_first, cut_last, lower_hex, lower_hex_digit, parse_uint, push_char, rsplit_once, trim_spec, uint_spec,
};
use vstd::prelude::*;
use vstd::string::*;

verus! {

/// Default address of the inspector's UI.
pub const DEFAULT_INSPECTOR_BIND: &'static str = "127.0.0.1:4040";

/// The host and the port of a server name: what stands before and behind the
/// last colon, where that is a port; else the whole name and the default port.
pub open spec fn host_port(server: Seq<char>) -> (Seq<char>, u16) {
    match cut_last(server, ':') {
        Some((host, port)) => match uint_spec(port, u16::MAX as nat) {
            Some(p) => (host, p as u16),
            None => (server, DEFAULT_UDP_PORT),
        },
        None => (server, DEFAULT_UDP_PORT),
    }
}

/// Split a server name into host and port.
pub fn split_host_port(server: &str) -> (r: (String, u16))
    ensures
        (r.0@, r.1) == host_port(server@),
{
    if let Some((host, port)) = rsplit_once(server, ':') {
        if let Some(p) = parse_uint(port.as_str(), u16::MAX as u64) {
            return (host, p as u16);
        }
    }
    (server.to_owned(), DEFAULT_UDP_PORT)
}

/// `rand::Rng::gen_range` over `0..u32::MAX`.
#[verifier::external_body]
fn random_below_max() -> (r: u32)
    ensures
        r < u32::MAX,
{
    rand::Rng::gen_range(&mut rand::thread_rng(), 0..u32::MAX)
}

/// The eight lower-case hexadecimal digits of a number.
pub open spec fn hex8(n: u32) -> Seq<char> {
    seq![
        lower_hex(n as int / 0x1000_0000),
        lower_hex(n as int / 0x100_0000 % 16),
        lower_hex(n as int / 0x10_0000 % 16),
        lower_hex(n as int / 0x1_0000 % 16),
        lower_hex(n as int / 0x1000 % 16),
        lower_hex(n as int / 0x100 % 16),
        lower_hex(n as int / 0x10 % 16),
        lower_hex(n as int % 16),
    ]
}

/// The label with this number.
pub fn numbered_label(n: u32) -> (r: String)
    ensures
        r@ == "krot-"@ + hex8(n),
{
    let mut out = "krot-".to_owned();
    push_char(&mut out, lower_hex_digit((n / 0x1000_0000) as u8));
    push_char(&mut out, lower_hex_digit((n / 0x100_0000 % 16) as u8));
    push_char(&mut out, lower_hex_digit((n / 0x10_0000 % 16) as u8));
    push_char(&mut out, lower_hex_digit((n / 0x1_0000 % 16) as u8));
    push_char(&mut out, lower_hex_digit((n / 0x1000 % 16) as u8));
    push_char(&mut out, lower_hex_digit((n / 0x100 % 16) as u8));
    push_char(&mut out, lower_hex_digit((n / 0x10 % 16) as u8));
    push_char(&mut out, lower_hex_digit((n % 16) as u8));
    assert(out@ =~= "krot-"@ + hex8(n));
    out
}

/// A random label for a tunnel that was given none.
pub fn default_label() -> (r: String)
    ensures
        exists|n: u32| n < u32::MAX && r@ == "krot-"@ + #[trigger] hex8(n),
{
    let n: u32 = random_below_max();
    numbered_label(n)
}

/// An environment variable and its value, if it is set.
#[derive(Debug)]
pub struct EnvSecret {
    pub var: String,
    pub value: Option<String>,
}

/// A file and its contents, or why it could not be read.
#[derive(Debug)]
pub struct FileSecret {
    pub path: String,
    pub contents: Result<String, String>,
}

/// The authentication flags. At most one of the first six is meant to be given;
/// the first that is decides.
pub struct AuthFlags {
    pub auth: Option<String>,
    pub auth_env: Option<EnvSecret>,
    pub auth_file: Option<FileSecret>,
    pub api_key: Option<String>,
    pub api_key_env: Option<EnvSecret>,
    pub api_key_file: Option<FileSecret>,
    pub auth_realm: Option<String>,
}

/// The secret in an environment variable, or the message of the error.
pub open spec fn env_secret(e: EnvSecret) -> Result<Seq<char>, Seq<char>> {
    match e.value {
        Some(v) if v@.len() > 0 => Ok(v@),
        _ => Err("env var `"@ + e.var@ + "` is unset or empty"@),
    }
}

/// The secret in a file, or the message of the error.
pub open spec fn file_secret(f: FileSecret) -> Result<Seq<char>, Seq<char>> {
    match f.contents {
        Err(e) => Err("cannot read `"@ + f.path@ + "`: "@ + e@),
        Ok(raw) => if without_line_breaks(raw@).len() == 0 {
            Err("file `"@ + f.path@ + "` is empty"@)
        } else {
            Ok(without_line_breaks(raw@))
        },
    }
}

/// What the flags ask for.
pub enum AuthChoice {
    /// No authentication.
    Open,
    /// A login with these credentials, `user:pass`.
    Login(Result<Seq<char>, Seq<char>>),
    /// An API key.
    Key(Result<Seq<char>, Seq<char>>),
}

impl AuthFlags {
    /// What the flags ask for.
    pub open spec fn choice(self) -> AuthChoice {
        if self.auth is Some {
            AuthChoice::Login(Ok(self.auth->0@))
        } else if self.auth_env is Some {
            AuthChoice::Login(env_secret(self.auth_env->0))
        } else if self.auth_file is Some {
            AuthChoice::Login(file_secret(self.auth_file->0))
        } else if self.api_key is Some {
            AuthChoice::Key(Ok(self.api_key->0@))
        } else if self.api_key_env is Some {
            AuthChoice::Key(env_secret(self.api_key_env->0))
        } else if self.api_key_file is Some {
            AuthChoice::Key(file_secret(self.api_key_file->0))
        } else {
            AuthChoice::Open
        }
    }

    /// The realm.
    pub open spec fn realm(self) -> Seq<char> {
        match self.auth_realm {
            Some(r) => r@,
            None => DEFAULT_REALM@,
        }
    }
}

/// Whether a policy is a login with these credentials and no session yet.
pub open spec fn is_login(p: AuthPolicy, user: Seq<char>, pass: Seq<char>) -> bool {
    &&& p is Session
    &&& p->user@ == user
    &&& p->pass@ == pass
    &&& p->store.inner@ == Map::<Seq<char>, u128>::empty()
}

/// Whether `e` is the error of the flags with this message.
pub open spec fn is_flag_error(e: ClientError, message: Seq<char>) -> bool {
    is_config(e, "auth flag: "@ + message)
}

/// Whether `r` is what `text` gives as login credentials.
pub open spec fn login_result(text: Seq<char>, r: Result<AuthPolicy, ClientError>) -> bool {
    match cut_first(text, ':') {
        None => r is Err && is_flag_error(r->Err_0, "--auth value missing the `:` separator"@),
        Some((user, pass)) => if user.len() == 0 {
            r is Err && is_flag_error(r->Err_0, "--auth username is empty"@)
        } else {
            r is Ok && r->Ok_0.wf() && is_login(r->Ok_0, user, pass)
        },
    }
}

fn auth_err(e: AuthConfigError) -> (r: ClientError)
    ensures
        is_flag_error(r, e.text()),
{
    ClientError::Config("auth flag: ".to_owned().concat(e.to_text().as_str()))
}

fn login_policy(text: &str) -> (r: Result<AuthPolicy, ClientError>)
    ensures
        login_result(text@, r),
{
    match session_from_userpass(text, SessionStore::new()) {
        Ok(p) => Ok(p),
        Err(e) => Err(auth_err(e)),
    }
}

fn env_text(e: EnvSecret) -> (r: Result<String, ClientError>)
    ensures
        match env_secret(e) {
            Ok(t) => r is Ok && r->Ok_0@ == t,
            Err(m) => r is Err && is_flag_error(r->Err_0, m),
        },
{
    match read_env(e.var.as_str(), e.value) {
        Ok(v) => Ok(v),
        Err(x) => Err(auth_err(x)),
    }
}

fn file_text(f: FileSecret) -> (r: Result<String, ClientError>)
    ensures
        match file_secret(f) {
            Ok(t) => r is Ok && r->Ok_0@ == t,
            Err(m) => r is Err && is_flag_error(r->Err_0, m),
        },
{
    match read_file(f.path.as_str(), f.contents) {
        Ok(v) => Ok(v),
        Err(x) => Err(auth_err(x)),
    }
}

/// The authentication that the flags ask for.
pub fn build_auth_config(flags: AuthFlags) -> (r: Result<Option<AuthConfig>, ClientError>)
    ensures
        match flags.choice() {
            AuthChoice::Open => r is Ok && r->Ok_0 is None,
            AuthChoice::Login(Err(m)) => r is Err && is_flag_error(r->Err_0, m),
            AuthChoice::Login(Ok(text)) => match r {
                Ok(config) => config is Some && config->0.realm@ == flags.realm() && login_result(
                    text,
                    Ok(config->0.policy),
                ),
                Err(e) => login_result(text, Err(e)),
            },
            AuthChoice::Key(Err(m)) => r is Err && is_flag_error(r->Err_0, m),
            AuthChoice::Key(Ok(text)) => {
                &&& r is Ok
                &&& r->Ok_0 is Some
                &&& r->Ok_0->0.realm@ == flags.realm()
                &&& r->Ok_0->0.policy is ApiKey
                &&& r->Ok_0->0.policy->key@ == trim_spec(text)
            },
        },
{
    let realm = match flags.auth_realm {
        Some(r) => r,
        None => DEFAULT_REALM.to_owned(),
    };
    let policy = if let Some(value) = flags.auth {
        login_policy(value.as_str())
    } else if let Some(e) = flags.auth_env {
        match env_text(e) {
            Ok(v) => login_policy(v.as_str()),
            Err(x) => Err(x),
        }
    } else if let Some(f) = flags.auth_file {
        match file_text(f) {
            Ok(v) => login_policy(v.as_str()),
            Err(x) => Err(x),
        }
    } else if let Some(v) = flags.api_key {
        Ok(api_key_from_str(v.as_str()))
    } else if let Some(e) = flags.api_key_env {
        match env_text(e) {
            Ok(v) => Ok(api_key_from_str(v.as_str())),
            Err(x) => Err(x),
        }
    } else if let Some(f) = flags.api_key_file {
        match file_text(f) {
            Ok(v) => Ok(api_key_from_str(v.as_str())),
            Err(x) => Err(x),
        }
    } else {
        return Ok(None);
    };
    match policy {
        Ok(policy) => Ok(Some(AuthConfig { policy, realm })),
        Err(e) => Err(e),
    }
}

} // verus!
