//! The credential bundle: five sensitive strings that are wiped from
//! memory when their owner goes out of scope.

use vstd::prelude::*;

use crate::error::{outcome, prefixed, Failure, PipelineError};
use crate::settings::{is_secret_key, wipe_string, Settings};

verus! {

/// The sensitive fields of an account. Every value of this type wipes its
/// strings when it is dropped, on every path out of a scope.
pub struct B2Credentials {
    pub key_id: String,
    pub app_key: String,
    pub folder_1_token: String,
    pub folder_2_token: String,
    pub token_secret: String,
}

/// What a credential bundle holds, as plain text.
pub ghost struct CredentialsView {
    pub key_id: Seq<char>,
    pub app_key: Seq<char>,
    pub folder_1_token: Seq<char>,
    pub folder_2_token: Seq<char>,
    pub token_secret: Seq<char>,
}

impl View for B2Credentials {
    type V = CredentialsView;

    open spec fn view(&self) -> CredentialsView {
        CredentialsView {
            key_id: self.key_id@,
            app_key: self.app_key@,
            folder_1_token: self.folder_1_token@,
            folder_2_token: self.folder_2_token@,
            token_secret: self.token_secret@,
        }
    }
}

impl Drop for B2Credentials {
    fn drop(&mut self)
        opens_invariants none
        no_unwind
    {
        wipe_string(&mut self.key_id);
        wipe_string(&mut self.app_key);
        wipe_string(&mut self.folder_1_token);
        wipe_string(&mut self.folder_2_token);
        wipe_string(&mut self.token_secret);
    }
}

/// The bundle with every field empty.
pub open spec fn empty_credentials() -> CredentialsView {
    CredentialsView {
        key_id: Seq::empty(),
        app_key: Seq::empty(),
        folder_1_token: Seq::empty(),
        folder_2_token: Seq::empty(),
        token_secret: Seq::empty(),
    }
}

/// What reading the secrets entry of the secure store came to.
pub enum SecretRead {
    /// The store's entry could not be opened. Holds the store's message.
    Unavailable(String),
    /// Nothing was ever saved.
    Absent,
    /// The read failed. Holds the store's message.
    Failed(String),
    /// What was stored does not parse. Holds the parser's message.
    Malformed(String),
    /// The stored bundle.
    Stored(B2Credentials),
}

/// The bundle that a read gives, or the failure: an absent entry is the
/// empty bundle and no error.
pub open spec fn loaded(read: SecretRead) -> Result<CredentialsView, Failure> {
    match read {
        SecretRead::Unavailable(message) => Err(Failure::KeyringError(message@)),
        SecretRead::Absent => Ok(empty_credentials()),
        SecretRead::Failed(cause) => Err(
            Failure::KeyringError("Keyring read error: "@ + cause@),
        ),
        SecretRead::Malformed(cause) => Err(Failure::SecretsCorrupt(cause@)),
        SecretRead::Stored(bundle) => Ok(bundle@),
    }
}

/// What writing the secrets entry of the secure store came to.
pub enum SecretWrite {
    /// The bundle could not be put into text. Holds the encoder's message.
    Unencodable(String),
    /// The store's entry could not be opened. Holds the store's message.
    Unavailable(String),
    /// The write failed. Holds the store's message.
    Failed(String),
    /// The bundle is stored.
    Written,
}

/// What a save reports for what the write came to.
pub open spec fn saved(write: SecretWrite) -> Result<(), Failure> {
    match write {
        SecretWrite::Unencodable(message) => Err(Failure::KeyringError(message@)),
        SecretWrite::Unavailable(message) => Err(Failure::KeyringError(message@)),
        SecretWrite::Failed(cause) => Err(Failure::KeyringError("Keyring set error: "@ + cause@)),
        SecretWrite::Written => Ok(()),
    }
}

/// The field that is kept on a save: the submitted value where there is
/// one and it is not empty, else what was stored.
pub open spec fn merged_field(
    values: Map<Seq<char>, Seq<char>>,
    key: Seq<char>,
    stored: Seq<char>,
) -> Seq<char> {
    if values.contains_key(key) && values[key].len() > 0 {
        values[key]
    } else {
        stored
    }
}

/// The bundle that is kept on a save, field by field.
pub open spec fn merged(stored: CredentialsView, values: Map<Seq<char>, Seq<char>>) -> CredentialsView {
    CredentialsView {
        key_id: merged_field(values, "B2_APPLICATION_KEY_ID"@, stored.key_id),
        app_key: merged_field(values, "B2_APPLICATION_KEY"@, stored.app_key),
        folder_1_token: merged_field(values, "FOLDER_1_TOKEN"@, stored.folder_1_token),
        folder_2_token: merged_field(values, "FOLDER_2_TOKEN"@, stored.folder_2_token),
        token_secret: merged_field(values, "TOKEN_SECRET"@, stored.token_secret),
    }
}

/// The names of the fields that hold a value, in the order of the bundle.
pub open spec fn saved_secret_keys(stored: CredentialsView) -> Seq<Seq<char>> {
    named_if_present("B2_APPLICATION_KEY_ID"@, stored.key_id) + named_if_present(
        "B2_APPLICATION_KEY"@,
        stored.app_key,
    ) + named_if_present("FOLDER_1_TOKEN"@, stored.folder_1_token) + named_if_present(
        "FOLDER_2_TOKEN"@,
        stored.folder_2_token,
    ) + named_if_present("TOKEN_SECRET"@, stored.token_secret)
}

/// The one name, where the value is not empty.
pub open spec fn named_if_present(name: Seq<char>, value: Seq<char>) -> Seq<Seq<char>> {
    if value.len() > 0 {
        seq![name]
    } else {
        Seq::empty()
    }
}

fn merge_field(values: &Settings, key: &str, stored: &str) -> (kept: String)
    ensures
        kept@ == merged_field(values@, key@, stored@),
{
    match values.get(key) {
        Some(v) => if v.is_empty() {
            stored.to_owned()
        } else {
            v.to_owned()
        },
        None => stored.to_owned(),
    }
}

impl B2Credentials {
    /// The bundle with every field empty.
    pub fn empty() -> (bundle: B2Credentials)
        ensures
            bundle@ == empty_credentials(),
    {
        B2Credentials {
            key_id: String::new(),
            app_key: String::new(),
            folder_1_token: String::new(),
            folder_2_token: String::new(),
            token_secret: String::new(),
        }
    }

    /// Turns what the secure store gave into the bundle to work with.
    /// Nothing stored yet is a valid state and gives the empty bundle;
    /// stored data that does not parse is `SecretsCorrupt`.
    pub fn load(read: SecretRead) -> (bundle: Result<B2Credentials, PipelineError>)
        ensures
            outcome(bundle) == loaded(read),
    {
        match read {
            SecretRead::Unavailable(message) => Err(PipelineError::KeyringError(message)),
            SecretRead::Absent => Ok(B2Credentials::empty()),
            SecretRead::Failed(cause) => Err(
                PipelineError::KeyringError(prefixed("Keyring read error: ", cause.as_str())),
            ),
            SecretRead::Malformed(cause) => Err(PipelineError::SecretsCorrupt(cause)),
            SecretRead::Stored(bundle) => Ok(bundle),
        }
    }

    /// Turns what became of a write to the secure store into the result
    /// of the save. Only a bundle that was written is saved; every
    /// failure is handed on with its message.
    pub fn save(write: SecretWrite) -> (result: Result<(), PipelineError>)
        ensures
            outcome(result) == saved(write),
    {
        match write {
            SecretWrite::Unencodable(message) => Err(PipelineError::KeyringError(message)),
            SecretWrite::Unavailable(message) => Err(PipelineError::KeyringError(message)),
            SecretWrite::Failed(cause) => Err(
                PipelineError::KeyringError(prefixed("Keyring set error: ", cause.as_str())),
            ),
            SecretWrite::Written => Ok(()),
        }
    }

    /// The bundle to store when `values` are submitted over this one: a
    /// submitted field wins where it is not empty, so a blank field never
    /// erases a stored secret.
    pub fn merged_with(&self, values: &Settings) -> (kept: B2Credentials)
        ensures
            kept@ == merged(self@, values@),
    {
        B2Credentials {
            key_id: merge_field(values, "B2_APPLICATION_KEY_ID", self.key_id.as_str()),
            app_key: merge_field(values, "B2_APPLICATION_KEY", self.app_key.as_str()),
            folder_1_token: merge_field(values, "FOLDER_1_TOKEN", self.folder_1_token.as_str()),
            folder_2_token: merge_field(values, "FOLDER_2_TOKEN", self.folder_2_token.as_str()),
            token_secret: merge_field(values, "TOKEN_SECRET", self.token_secret.as_str()),
        }
    }
}

/// A save with every sensitive field blank or absent keeps every stored
/// field as it was.
pub proof fn lemma_blank_save_keeps_secrets(
    stored: CredentialsView,
    values: Map<Seq<char>, Seq<char>>,
)
    requires
        forall|key: Seq<char>|
            is_secret_key(key) && values.contains_key(key) ==> values[key].len()
                == 0,
    ensures
        merged(stored, values) == stored,
{
    assert(is_secret_key("B2_APPLICATION_KEY_ID"@));
    assert(is_secret_key("B2_APPLICATION_KEY"@));
    assert(is_secret_key("FOLDER_1_TOKEN"@));
    assert(is_secret_key("FOLDER_2_TOKEN"@));
    assert(is_secret_key("TOKEN_SECRET"@));
}

/// Saving the same submission a second time changes nothing more.
pub proof fn lemma_merge_is_idempotent(stored: CredentialsView, values: Map<Seq<char>, Seq<char>>)
    ensures
        merged(merged(stored, values), values) == merged(stored, values),
{
}

/// Whether a field holds a value.
pub open spec fn is_present(value: Seq<char>) -> bool {
    value.len() > 0
}

/// The list of saved keys tells which fields hold a value and nothing
/// else: two bundles with values in the same fields give the same list,
/// whatever the values are.
pub proof fn lemma_saved_keys_hide_values(a: CredentialsView, b: CredentialsView)
    requires
        is_present(a.key_id) == is_present(b.key_id),
        is_present(a.app_key) == is_present(b.app_key),
        is_present(a.folder_1_token) == is_present(b.folder_1_token),
        is_present(a.folder_2_token) == is_present(b.folder_2_token),
        is_present(a.token_secret) == is_present(b.token_secret),
    ensures
        saved_secret_keys(a) == saved_secret_keys(b),
{
}

/// Every entry of the list is the name of a sensitive field.
pub proof fn lemma_saved_keys_are_names(stored: CredentialsView, i: int)
    requires
        0 <= i < saved_secret_keys(stored).len(),
    ensures
        is_secret_key(saved_secret_keys(stored)[i]),
{
}

/// Names the sensitive fields that hold a value, never the values.
pub fn get_saved_secret_keys(stored: &B2Credentials) -> (keys: Vec<String>)
    ensures
        keys.deep_view() == saved_secret_keys(stored@),
{
    let mut keys: Vec<String> = Vec::new();
    push_if_present(&mut keys, "B2_APPLICATION_KEY_ID", stored.key_id.as_str());
    push_if_present(&mut keys, "B2_APPLICATION_KEY", stored.app_key.as_str());
    push_if_present(&mut keys, "FOLDER_1_TOKEN", stored.folder_1_token.as_str());
    push_if_present(&mut keys, "FOLDER_2_TOKEN", stored.folder_2_token.as_str());
    push_if_present(&mut keys, "TOKEN_SECRET", stored.token_secret.as_str());
    keys
}

fn push_if_present(keys: &mut Vec<String>, name: &str, value: &str)
    ensures
        final(keys).deep_view() == old(keys).deep_view() + named_if_present(name@, value@),
{
    if !value.is_empty() {
        keys.push(name.to_owned());
    }
}

} // verus!
