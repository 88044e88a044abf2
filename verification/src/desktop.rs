//! The desktop window's settings and secrets: what a form value means, how many
//! attempts a session makes, and the webhook token kept in the system keychain.
use vstd::prelude::*;
use crate::reader::ReaderInfo;
use crate::text::{trim_text, trimmed};

verus! {

/// The most read attempts a session makes per insertion.
pub const MAX_ATTEMPTS: u8 = 3;

/// The keychain service and user of the webhook token.
pub const KEYCHAIN_SERVICE: &'static str = "es.cofrentes.simplelectordni";

pub const WEBHOOK_TOKEN_USER: &'static str = "webhook-token";

#[derive(Clone, Debug, Default)]
pub struct SessionSettings {
    /// Case-insensitive substring of the reader name; empty selects the first reader.
    pub reader: String,
    pub attempts: u8,
}

pub open spec fn clamp_attempts(a: u8) -> u8 {
    if a < 1 {
        1
    } else if a > MAX_ATTEMPTS {
        MAX_ATTEMPTS
    } else {
        a
    }
}

/// A form text, trimmed, or nothing when it is blank.
pub open spec fn optional_text(s: Seq<char>) -> Option<Seq<char>> {
    if trimmed(s).len() == 0 {
        None
    } else {
        Some(trimmed(s))
    }
}

pub open spec fn str_opt_view(s: Option<&str>) -> Option<Seq<char>> {
    match s {
        Some(v) => Some(v@),
        None => None,
    }
}

fn non_blank(s: &str) -> (r: Option<&str>)
    ensures
        str_opt_view(r) == optional_text(s@),
{
    let t = trim_text(s);
    if t.unicode_len() == 0 {
        None
    } else {
        Some(t)
    }
}

impl SessionSettings {
    /// The attempts of a session, kept between 1 and 3.
    pub fn attempts(&self) -> (r: u8)
        ensures
            r == clamp_attempts(self.attempts),
    {
        if self.attempts < 1 {
            1
        } else if self.attempts > MAX_ATTEMPTS {
            MAX_ATTEMPTS
        } else {
            self.attempts
        }
    }

    pub fn reader_pattern(&self) -> (r: Option<&str>)
        ensures
            str_opt_view(r) == optional_text(self.reader@),
    {
        non_blank(self.reader.as_str())
    }
}

/// Whatever is stored, a session makes between 1 and 3 attempts.
pub proof fn lemma_attempts_in_range(a: u8)
    ensures
        1 <= clamp_attempts(a) <= MAX_ATTEMPTS,
        (1 <= a <= MAX_ATTEMPTS) ==> clamp_attempts(a) == a,
{
}

/// A reader as the window lists it.
#[derive(Clone, Debug, PartialEq, Eq)]
pub struct ReaderView {
    pub index: usize,
    pub name: String,
    pub presence: &'static str,
}

pub fn reader_view(reader: ReaderInfo) -> (r: ReaderView)
    ensures
        r.index == reader.index,
        r.name == reader.name,
        r.presence@ == reader.presence.label(),
{
    ReaderView { index: reader.index, name: reader.name, presence: reader.presence.describe() }
}

/// The window's settings. The webhook token never lands here.
#[derive(Clone, Debug, Default, PartialEq, Eq)]
pub struct Settings {
    pub reader: String,
    pub webhook_url: String,
    pub attempts: u8,
}

impl Settings {
    pub fn webhook_url(&self) -> (r: Option<&str>)
        ensures
            str_opt_view(r) == optional_text(self.webhook_url@),
    {
        non_blank(self.webhook_url.as_str())
    }

    /// The session of these settings; no stored attempts means the most attempts.
    pub fn session(&self) -> (r: SessionSettings)
        ensures
            r.reader == self.reader,
            r.attempts == (if self.attempts == 0 {
                MAX_ATTEMPTS
            } else {
                self.attempts
            }),
    {
        SessionSettings {
            reader: self.reader.clone(),
            attempts: if self.attempts == 0 {
                MAX_ATTEMPTS
            } else {
                self.attempts
            },
        }
    }
}

#[derive(Clone, Debug, PartialEq, Eq)]
pub struct SettingsView {
    pub settings: Settings,
    pub has_webhook_token: bool,
}

#[verifier::external_type_specification]
#[verifier::external_body]
pub struct ExKeyringEntry(keyring::Entry);

/// What went wrong in the keychain: no entry, or another failure, each with the
/// keychain's own message.
#[derive(Clone, Debug, PartialEq, Eq)]
pub enum KeychainError {
    NoEntry(String),
    Failed(String),
}

/// Opens a keychain entry with `keyring::Entry::new`. Nothing is stated of the
/// outcome: it depends on the platform's credential store.
#[verifier::external_body]
fn keychain_entry(service: &str, user: &str) -> (r: Result<keyring::Entry, String>) {
    match keyring::Entry::new(service, user) {
        Ok(entry) => Ok(entry),
        Err(error) => Err(error.to_string()),
    }
}

/// Reads the secret with `keyring::Entry::get_password`. Nothing is stated of the
/// outcome: it depends on what the keychain holds.
#[verifier::external_body]
fn keychain_get(entry: &keyring::Entry) -> (r: Result<String, KeychainError>) {
    match entry.get_password() {
        Ok(secret) => Ok(secret),
        Err(error @ keyring::Error::NoEntry) => Err(KeychainError::NoEntry(error.to_string())),
        Err(error) => Err(KeychainError::Failed(error.to_string())),
    }
}

/// Stores the secret with `keyring::Entry::set_password`. Nothing is stated of the
/// outcome: it depends on the keychain.
#[verifier::external_body]
fn keychain_set(entry: &keyring::Entry, value: &str) -> (r: Result<(), KeychainError>) {
    match entry.set_password(value) {
        Ok(()) => Ok(()),
        Err(error @ keyring::Error::NoEntry) => Err(KeychainError::NoEntry(error.to_string())),
        Err(error) => Err(KeychainError::Failed(error.to_string())),
    }
}

/// Removes the secret with `keyring::Entry::delete_credential`. Nothing is stated of
/// the outcome: it depends on the keychain.
#[verifier::external_body]
fn keychain_delete(entry: &keyring::Entry) -> (r: Result<(), KeychainError>) {
    match entry.delete_credential() {
        Ok(()) => Ok(()),
        Err(error @ keyring::Error::NoEntry) => Err(KeychainError::NoEntry(error.to_string())),
        Err(error) => Err(KeychainError::Failed(error.to_string())),
    }
}

/// What a read of the keychain means: the stored secret, no secret when the entry is
/// missing, or the keychain's message.
pub open spec fn secret_reading(answer: Result<String, KeychainError>) -> Result<Option<String>, String> {
    match answer {
        Ok(s) => Ok(Some(s)),
        Err(KeychainError::NoEntry(_)) => Ok(None),
        Err(KeychainError::Failed(m)) => Err(m),
    }
}

/// What storing a secret means: success, or the keychain's message.
pub open spec fn storage_reading(answer: Result<(), KeychainError>) -> Result<(), String> {
    match answer {
        Ok(()) => Ok(()),
        Err(KeychainError::NoEntry(m)) => Err(m),
        Err(KeychainError::Failed(m)) => Err(m),
    }
}

/// What removing a secret means: a missing entry is already removed.
pub open spec fn removal_reading(answer: Result<(), KeychainError>) -> Result<(), String> {
    match answer {
        Ok(()) => Ok(()),
        Err(KeychainError::NoEntry(_)) => Ok(()),
        Err(KeychainError::Failed(m)) => Err(m),
    }
}

pub fn secret_answer(answer: Result<String, KeychainError>) -> (r: Result<Option<String>, String>)
    ensures
        r == secret_reading(answer),
{
    match answer {
        Ok(s) => Ok(Some(s)),
        Err(KeychainError::NoEntry(_)) => Ok(None),
        Err(KeychainError::Failed(m)) => Err(m),
    }
}

pub fn storage_answer(answer: Result<(), KeychainError>) -> (r: Result<(), String>)
    ensures
        r == storage_reading(answer),
{
    match answer {
        Ok(()) => Ok(()),
        Err(KeychainError::NoEntry(m)) => Err(m),
        Err(KeychainError::Failed(m)) => Err(m),
    }
}

pub fn removal_answer(answer: Result<(), KeychainError>) -> (r: Result<(), String>)
    ensures
        r == removal_reading(answer),
{
    match answer {
        Ok(()) => Ok(()),
        Err(KeychainError::NoEntry(_)) => Ok(()),
        Err(KeychainError::Failed(m)) => Err(m),
    }
}

/// Whether the answer of a secret's read shows a stored secret.
pub fn token_present(answer: &Result<Option<String>, String>) -> (r: bool)
    ensures
        r == (answer matches Ok(Some(_))),
{
    match answer {
        Ok(Some(_)) => true,
        _ => false,
    }
}

/// The keychain's answer to a read of the entry of `service` and `user`; an entry that
/// cannot be opened is a failure with its message.
fn read_keychain(service: &str, user: &str) -> (r: Result<String, KeychainError>) {
    match keychain_entry(service, user) {
        Ok(entry) => keychain_get(&entry),
        Err(m) => Err(KeychainError::Failed(m)),
    }
}

/// The keychain's answer to storing `value` in the entry of `service` and `user`.
fn store_keychain(service: &str, user: &str, value: &str) -> (r: Result<(), KeychainError>) {
    match keychain_entry(service, user) {
        Ok(entry) => keychain_set(&entry, value),
        Err(m) => Err(KeychainError::Failed(m)),
    }
}

/// The keychain's answer to removing the entry of `service` and `user`.
fn remove_keychain(service: &str, user: &str) -> (r: Result<(), KeychainError>) {
    match keychain_entry(service, user) {
        Ok(entry) => keychain_delete(&entry),
        Err(m) => Err(KeychainError::Failed(m)),
    }
}

/// What a form value does to a stored secret: nothing when absent, removal when
/// blank, replacement by the trimmed value otherwise.
#[derive(Clone, Debug, PartialEq, Eq)]
pub enum SecretChange {
    Keep,
    Remove,
    Replace(String),
}

pub open spec fn change_for(value: Option<Seq<char>>) -> Option<Option<Seq<char>>> {
    match value {
        None => None,
        Some(v) => Some(optional_text(v)),
    }
}

pub fn secret_change(value: Option<&str>) -> (r: SecretChange)
    ensures
        match change_for(str_opt_view(value)) {
            None => r is Keep,
            Some(None) => r is Remove,
            Some(Some(t)) => r matches SecretChange::Replace(s) && s@ == t,
        },
{
    match value {
        None => SecretChange::Keep,
        Some(v) => match non_blank(v) {
            None => SecretChange::Remove,
            Some(t) => SecretChange::Replace(t.to_owned()),
        },
    }
}

/// One keychain entry, identified by service and user.
#[derive(Clone, Copy, Debug, PartialEq, Eq)]
pub struct Secret {
    service: &'static str,
    user: &'static str,
}

impl Secret {
    pub closed spec fn spec_service(&self) -> Seq<char> {
        self.service@
    }

    pub closed spec fn spec_user(&self) -> Seq<char> {
        self.user@
    }

    pub fn new(service: &'static str, user: &'static str) -> (r: Self)
        ensures
            r.spec_service() == service@,
            r.spec_user() == user@,
    {
        Secret { service, user }
    }

    /// `answer` is an answer the keychain gives to a read of this entry.
    pub closed spec fn read_answer(&self, answer: Result<String, KeychainError>) -> bool {
        call_ensures(read_keychain, (self.service, self.user), answer)
    }

    /// `answer` is an answer the keychain gives to storing `value` in this entry.
    pub closed spec fn store_answer(&self, value: Seq<char>, answer: Result<(), KeychainError>) -> bool {
        exists|v: &str| v@ == value && call_ensures(store_keychain, (self.service, self.user, v), answer)
    }

    /// `answer` is an answer the keychain gives to the removal of this entry.
    pub closed spec fn remove_answer(&self, answer: Result<(), KeychainError>) -> bool {
        call_ensures(remove_keychain, (self.service, self.user), answer)
    }

    /// The stored secret, as `secret_reading` reads the keychain's answer: a missing
    /// entry is no secret rather than an error.
    pub fn get(&self) -> (r: Result<Option<String>, String>)
        ensures
            exists|answer: Result<String, KeychainError>|
                #[trigger] self.read_answer(answer) && r == secret_reading(answer),
    {
        let answer = read_keychain(self.service, self.user);
        assert(self.read_answer(answer));
        secret_answer(answer)
    }

    /// Stores the secret, as `storage_reading` reads the keychain's answer.
    pub fn set(&self, value: &str) -> (r: Result<(), String>)
        ensures
            exists|answer: Result<(), KeychainError>|
                #[trigger] self.store_answer(value@, answer) && r == storage_reading(answer),
    {
        let answer = store_keychain(self.service, self.user, value);
        assert(self.store_answer(value@, answer));
        storage_answer(answer)
    }

    /// Removes the secret, as `removal_reading` reads the keychain's answer: removing a
    /// missing entry succeeds.
    pub fn delete(&self) -> (r: Result<(), String>)
        ensures
            exists|answer: Result<(), KeychainError>|
                #[trigger] self.remove_answer(answer) && r == removal_reading(answer),
    {
        let answer = remove_keychain(self.service, self.user);
        assert(self.remove_answer(answer));
        removal_answer(answer)
    }

    /// Applies a value coming from a form: `None` keeps the stored secret, an empty or
    /// blank string removes it, anything else replaces it by its trimmed form.
    pub fn apply(&self, value: Option<&str>) -> (r: Result<(), String>)
        ensures
            match change_for(str_opt_view(value)) {
                None => r is Ok,
                Some(None) => exists|answer: Result<(), KeychainError>|
                    #[trigger] self.remove_answer(answer) && r == removal_reading(answer),
                Some(Some(t)) => exists|answer: Result<(), KeychainError>|
                    #[trigger] self.store_answer(t, answer) && r == storage_reading(answer),
            },
    {
        match secret_change(value) {
            SecretChange::Keep => Ok(()),
            SecretChange::Remove => self.delete(),
            SecretChange::Replace(v) => self.set(v.as_str()),
        }
    }
}

/// The keychain entry of the webhook token.
pub closed spec fn webhook_token_entry() -> Secret {
    Secret { service: KEYCHAIN_SERVICE, user: WEBHOOK_TOKEN_USER }
}

/// The keychain entry of the webhook token.
pub fn webhook_token() -> (r: Secret)
    ensures
        r == webhook_token_entry(),
        r.spec_service() == KEYCHAIN_SERVICE@,
        r.spec_user() == WEBHOOK_TOKEN_USER@,
{
    Secret { service: KEYCHAIN_SERVICE, user: WEBHOOK_TOKEN_USER }
}

/// The settings as the window shows them, with whether a token is stored: the
/// keychain's read of the token's entry found a secret.
pub fn settings_view(settings: Settings) -> (r: SettingsView)
    ensures
        r.settings == settings,
        exists|answer: Result<String, KeychainError>|
            #[trigger] webhook_token_entry().read_answer(answer) && r.has_webhook_token == (
            secret_reading(answer) matches Ok(Some(_))),
{
    let answer = webhook_token().get();
    SettingsView { settings, has_webhook_token: token_present(&answer) }
}

impl Settings {
    /// Where a session posts records, with the token to send: the keychain is read
    /// only when a webhook URL is set, and a failed read fails the session.
    pub fn webhook_target(&self, token: &Secret) -> (r: Result<Option<(String, Option<String>)>, String>)
        ensures
            optional_text(self.webhook_url@) is None ==> r == Ok::<
                Option<(String, Option<String>)>,
                String,
            >(None),
            optional_text(self.webhook_url@) matches Some(u) ==> exists|
                answer: Result<String, KeychainError>,
            |
                #[trigger] token.read_answer(answer) && match secret_reading(answer) {
                    Ok(secret) => r matches Ok(Some(t)) && t.0@ == u && t.1 == secret,
                    Err(m) => r == Err::<Option<(String, Option<String>)>, String>(m),
                },
    {
        match self.webhook_url() {
            None => Ok(None),
            Some(url) => {
                let secret = token.get()?;
                Ok(Some((url.to_owned(), secret)))
            },
        }
    }
}

} // verus!
