use vstd::prelude::*;
use crate::text::{concat_str, copy_str};

verus! {

/// Service name under which the token is stored.
pub const SERVICE_NAME: &'static str = "discordinator";

/// Account name under which the token is stored.
pub const ACCOUNT_NAME: &'static str = "discord_token";

/// A place to keep the user's token. Implemented by the system keyring and by an in-memory
/// store; other stores can be added by implementing it. Each store says, through the spec
/// functions, what its reads, writes and deletions answer and do.
pub trait TokenStore: Sized {
    /// What a read of this store may answer.
    spec fn read_post(&self, r: Result<Option<String>, String>) -> bool;

    /// What writing `token` may answer, and how the store changes from `before` to `after`.
    spec fn write_post(before: Self, after: Self, token: Seq<char>, r: Result<(), String>) -> bool;

    /// What deleting may answer, and how the store changes from `before` to `after`.
    spec fn delete_post(before: Self, after: Self, r: Result<(), String>) -> bool;

    /// The stored token, if any.
    fn get_token(&self) -> (r: Result<Option<String>, String>)
        ensures
            self.read_post(r),
    ;

    /// Stores `token`, replacing any stored one.
    fn set_token(&mut self, token: &str) -> (r: Result<(), String>)
        ensures
            Self::write_post(*old(self), *final(self), token@, r),
    ;

    /// Removes the stored token; removing when none is stored succeeds.
    fn delete_token(&mut self) -> (r: Result<(), String>)
        ensures
            Self::delete_post(*old(self), *final(self), r),
    ;
}

#[verifier::external_type_specification]
#[verifier::external_body]
pub struct ExKeyringEntry(keyring::Entry);

/// What the system keyring answered: a value, "no entry", or another failure with its message.
pub enum KeyringReply<T> {
    Value(T),
    NoEntry,
    Failed(String),
}

/// Calls `keyring::Entry::new`. Trusted: it talks to the platform's credential store, so
/// nothing is claimed of the outcome; a failure comes back as the error's message.
#[verifier::external_body]
fn keyring_entry(service: &str, account: &str) -> Result<keyring::Entry, String> {
    keyring::Entry::new(service, account).map_err(|e| format!("{}", e))
}

/// Calls `keyring::Entry::get_password`. Trusted: it reads the platform's credential store, so
/// nothing is claimed of the outcome; "no entry" is told apart from other failures.
#[verifier::external_body]
fn entry_get_password(entry: &keyring::Entry) -> KeyringReply<String> {
    match entry.get_password() {
        Ok(p) => KeyringReply::Value(p),
        Err(keyring::Error::NoEntry) => KeyringReply::NoEntry,
        Err(e) => KeyringReply::Failed(format!("{}", e)),
    }
}

/// Calls `keyring::Entry::set_password`. Trusted: it writes the platform's credential store, so
/// nothing is claimed of the outcome.
#[verifier::external_body]
fn entry_set_password(entry: &keyring::Entry, password: &str) -> Result<(), String> {
    entry.set_password(password).map_err(|e| format!("{}", e))
}

/// Calls `keyring::Entry::delete_credential`. Trusted: it writes the platform's credential
/// store, so nothing is claimed of the outcome; "no entry" is told apart from other failures.
#[verifier::external_body]
fn entry_delete_credential(entry: &keyring::Entry) -> KeyringReply<()> {
    match entry.delete_credential() {
        Ok(()) => KeyringReply::Value(()),
        Err(keyring::Error::NoEntry) => KeyringReply::NoEntry,
        Err(e) => KeyringReply::Failed(format!("{}", e)),
    }
}

/// A failure message: `prefix` followed by the keyring's own message.
pub open spec fn failure(prefix: Seq<char>, detail: Seq<char>) -> Seq<char> {
    prefix + detail
}

/// Whether `m` is a keyring failure message of the step `step`: the step's prefix followed by
/// the keyring's own message.
pub open spec fn keyring_failure(m: Seq<char>, step: Seq<char>) -> bool {
    exists|d: Seq<char>| m == #[trigger] failure(step, d)
}

/// The token store of the system keyring.
#[derive(Debug, Clone, Copy)]
pub struct KeyringStore;

impl KeyringStore {
    /// The keyring entry of the token; a failure to open it carries the keyring's message
    /// after "Keyring entry error: ".
    fn entry() -> (r: Result<keyring::Entry, String>)
        ensures
            r matches Err(m) ==> keyring_failure(m@, "Keyring entry error: "@),
    {
        match keyring_entry(SERVICE_NAME, ACCOUNT_NAME) {
            Ok(e) => Ok(e),
            Err(detail) => {
                let m = concat_str("Keyring entry error: ", detail.as_str());
                assert(m@ == failure("Keyring entry error: "@, detail@));
                Err(m)
            },
        }
    }

    /// The stored token: "no entry" reads as no token; other failures are errors.
    pub fn read_reply(reply: KeyringReply<String>) -> (r: Result<Option<String>, String>)
        ensures
            match reply {
                KeyringReply::Value(t) => r matches Ok(Some(s)) && s@ == t@,
                KeyringReply::NoEntry => r matches Ok(None),
                KeyringReply::Failed(d) => r matches Err(m) && m@ == failure(
                    "Keyring get error: "@,
                    d@,
                ),
            },
    {
        match reply {
            KeyringReply::Value(t) => Ok(Some(t)),
            KeyringReply::NoEntry => Ok(None),
            KeyringReply::Failed(d) => Err(concat_str("Keyring get error: ", d.as_str())),
        }
    }

    /// Deleting succeeds when the entry is gone or was never there.
    pub fn delete_reply(reply: KeyringReply<()>) -> (r: Result<(), String>)
        ensures
            match reply {
                KeyringReply::Value(_) | KeyringReply::NoEntry => r is Ok,
                KeyringReply::Failed(d) => r matches Err(m) && m@ == failure(
                    "Keyring delete error: "@,
                    d@,
                ),
            },
    {
        match reply {
            KeyringReply::Value(_) | KeyringReply::NoEntry => Ok(()),
            KeyringReply::Failed(d) => Err(concat_str("Keyring delete error: ", d.as_str())),
        }
    }
}

impl TokenStore for KeyringStore {
    /// A read answers a token, no token, or an error from opening the entry or from reading it.
    open spec fn read_post(&self, r: Result<Option<String>, String>) -> bool {
        r matches Err(m) ==> keyring_failure(m@, "Keyring entry error: "@) || keyring_failure(
            m@,
            "Keyring get error: "@,
        )
    }

    /// A write succeeds, or fails from opening the entry or from writing it.
    open spec fn write_post(before: Self, after: Self, token: Seq<char>, r: Result<(), String>) -> bool {
        r matches Err(m) ==> keyring_failure(m@, "Keyring entry error: "@) || keyring_failure(
            m@,
            "Keyring set error: "@,
        )
    }

    /// A deletion succeeds (also when nothing was stored), or fails from opening the entry or
    /// from deleting it.
    open spec fn delete_post(before: Self, after: Self, r: Result<(), String>) -> bool {
        r matches Err(m) ==> keyring_failure(m@, "Keyring entry error: "@) || keyring_failure(
            m@,
            "Keyring delete error: "@,
        )
    }

    fn get_token(&self) -> (r: Result<Option<String>, String>) {
        let entry = match KeyringStore::entry() {
            Ok(e) => e,
            Err(m) => {
                return Err(m);
            },
        };
        KeyringStore::read_reply(entry_get_password(&entry))
    }

    fn set_token(&mut self, token: &str) -> (r: Result<(), String>) {
        let entry = match KeyringStore::entry() {
            Ok(e) => e,
            Err(m) => {
                return Err(m);
            },
        };
        match entry_set_password(&entry, token) {
            Ok(()) => Ok(()),
            Err(d) => {
                let m = concat_str("Keyring set error: ", d.as_str());
                assert(m@ == failure("Keyring set error: "@, d@));
                Err(m)
            },
        }
    }

    fn delete_token(&mut self) -> (r: Result<(), String>) {
        let entry = match KeyringStore::entry() {
            Ok(e) => e,
            Err(m) => {
                return Err(m);
            },
        };
        KeyringStore::delete_reply(entry_delete_credential(&entry))
    }
}

/// An in-memory token store, for tests.
#[derive(Debug, Clone)]
pub struct MemoryTokenStore {
    token: Option<String>,
}

impl MemoryTokenStore {
    /// The token held.
    pub closed spec fn held(&self) -> Option<Seq<char>> {
        match self.token {
            Some(t) => Some(t@),
            None => None,
        }
    }

    /// An empty store.
    pub fn new() -> (s: Self)
        ensures
            s.held() is None,
    {
        MemoryTokenStore { token: None }
    }

    /// A store holding `token`.
    pub fn with_token(token: &str) -> (s: Self)
        ensures
            s.held() == Some(token@),
    {
        MemoryTokenStore { token: Some(copy_str(token)) }
    }
}

impl Default for MemoryTokenStore {
    fn default() -> (s: Self)
        ensures
            s.held() is None,
    {
        MemoryTokenStore::new()
    }
}

/// Whether `r` is what reading the in-memory store `s` answers: the token it holds, if any,
/// and never an error.
pub open spec fn memory_read(s: MemoryTokenStore, r: Result<Option<String>, String>) -> bool {
    match r {
        Ok(Some(t)) => s.held() == Some(t@),
        Ok(None) => s.held() is None,
        Err(_) => false,
    }
}

/// A read of the in-memory store gives back the token last written to it, and no token once
/// it is deleted.
pub proof fn law_memory_store_reads_back(
    s: MemoryTokenStore,
    written: Option<Seq<char>>,
    r: Result<Option<String>, String>,
)
    requires
        s.held() == written,
        memory_read(s, r),
    ensures
        match written {
            Some(t) => r matches Ok(Some(x)) && x@ == t,
            None => r matches Ok(None),
        },
{
}

impl TokenStore for MemoryTokenStore {
    /// A read answers the token held, and never fails.
    open spec fn read_post(&self, r: Result<Option<String>, String>) -> bool {
        memory_read(*self, r)
    }

    /// A write succeeds and holds the token.
    open spec fn write_post(before: Self, after: Self, token: Seq<char>, r: Result<(), String>) -> bool {
        r is Ok && after.held() == Some(token)
    }

    /// A deletion succeeds and holds no token.
    open spec fn delete_post(before: Self, after: Self, r: Result<(), String>) -> bool {
        r is Ok && after.held() is None
    }

    fn get_token(&self) -> (r: Result<Option<String>, String>) {
        match &self.token {
            Some(t) => Ok(Some(copy_str(t.as_str()))),
            None => Ok(None),
        }
    }

    fn set_token(&mut self, token: &str) -> (r: Result<(), String>) {
        self.token = Some(copy_str(token));
        Ok(())
    }

    fn delete_token(&mut self) -> (r: Result<(), String>) {
        self.token = None;
        Ok(())
    }
}

} // verus!
