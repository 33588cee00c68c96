//! The wiki's settings, their defaults, and the checks made on them.
use vstd::prelude::*;
use vstd::utf8::encode_utf8;

verus! {

/// Who may do a thing.
#[derive(Debug, Clone, Copy, PartialEq, Eq, Structural)]
pub enum AccessLevel {
    Anonymous,
    Registered,
    Approved,
}

/// Whether a page edit asks for a commit message.
#[derive(Debug, Clone, Copy, PartialEq, Eq, Structural)]
pub enum CommitMessageMode {
    Required,
    Optional,
    Disabled,
}

/// The outgoing mail server.
#[derive(Debug, Clone, Default)]
pub struct MailConfig {
    pub server: String,
    pub port: u16,
    pub username: String,
    pub password: String,
    pub use_tls: bool,
    pub use_ssl: bool,
    pub default_sender: String,
}

/// The wiki's settings.
#[derive(Debug, Clone)]
pub struct Config {
    pub port: u16,
    pub debug: bool,
    /// The directory of the page repository.
    pub repository: String,
    pub secret_key: String,
    pub site_name: String,
    pub site_description: Option<String>,
    pub site_logo: Option<String>,
    pub site_icon: Option<String>,
    pub site_lang: String,
    pub hide_logo: bool,
    pub read_access: AccessLevel,
    pub write_access: AccessLevel,
    pub attachment_access: AccessLevel,
    pub auto_approval: bool,
    pub disable_registration: bool,
    pub email_needs_confirmation: bool,
    pub retain_page_name_case: bool,
    pub database_url: String,
    pub mail_config: MailConfig,
    pub commit_message: CommitMessageMode,
    pub git_web_server: bool,
    pub robots_txt: String,
}

/// Why a configuration is refused.
#[derive(Debug, Clone, PartialEq, Eq)]
pub enum ConfigError {
    /// The secret key is the placeholder or shorter than 16 bytes.
    WeakSecretKey,
    /// The repository directory does not exist.
    RepositoryMissing(String),
}

/// The placeholder secret key that ships in sample settings.
pub open spec fn placeholder_key() -> Seq<char> {
    "CHANGE ME"@
}

/// A secret key that cannot be used: shorter than 16 bytes of UTF-8, or the
/// placeholder.
pub open spec fn is_weak_secret(key: Seq<char>) -> bool {
    encode_utf8(key).len() < 16 || key == placeholder_key()
}

impl Config {
    /// Checks the settings: the secret key must not be weak, and the
    /// repository directory must exist (`repository_found`, looked up by the
    /// caller).
    pub fn validate(&self, repository_found: bool) -> (r: Result<(), ConfigError>)
        ensures
            r is Ok <==> !is_weak_secret(self.secret_key@) && repository_found,
            r == Err::<(), ConfigError>(ConfigError::WeakSecretKey) <==> is_weak_secret(
                self.secret_key@,
            ),
            r matches Err(ConfigError::RepositoryMissing(p)) ==> p@ == self.repository@,
    {
        let placeholder = "CHANGE ME".to_owned();
        let short = self.secret_key.as_str().as_bytes().len() < 16;
        if short || self.secret_key == placeholder {
            return Err(ConfigError::WeakSecretKey);
        }
        if !repository_found {
            return Err(ConfigError::RepositoryMissing(self.repository.clone()));
        }
        Ok(())
    }
}

pub fn default_port() -> (r: u16)
    ensures
        r == 8080,
{
    8080
}

pub fn default_debug() -> (r: bool)
    ensures
        !r,
{
    false
}

pub fn default_site_name() -> (r: String)
    ensures
        r@ == "An Otter Wiki"@,
{
    "An Otter Wiki".to_owned()
}

pub fn default_site_lang() -> (r: String)
    ensures
        r@ == "en"@,
{
    "en".to_owned()
}

pub fn default_read_access() -> (r: AccessLevel)
    ensures
        r == AccessLevel::Anonymous,
{
    AccessLevel::Anonymous
}

pub fn default_write_access() -> (r: AccessLevel)
    ensures
        r == AccessLevel::Anonymous,
{
    AccessLevel::Anonymous
}

pub fn default_attachment_access() -> (r: AccessLevel)
    ensures
        r == AccessLevel::Anonymous,
{
    AccessLevel::Anonymous
}

pub fn default_auto_approval() -> (r: bool)
    ensures
        r,
{
    true
}

pub fn default_email_needs_confirmation() -> (r: bool)
    ensures
        r,
{
    true
}

pub fn default_database_url() -> (r: String)
    ensures
        r@ == "sqlite://otterwiki.db"@,
{
    "sqlite://otterwiki.db".to_owned()
}

pub fn default_commit_message() -> (r: CommitMessageMode)
    ensures
        r == CommitMessageMode::Required,
{
    CommitMessageMode::Required
}

pub fn default_robots_txt() -> (r: String)
    ensures
        r@ == "allow"@,
{
    "allow".to_owned()
}

} // verus!
