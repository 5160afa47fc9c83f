//! What a save of the settings form stores, and what counts as a
//! configured account.

use vstd::prelude::*;

use crate::credentials::{merged, B2Credentials, CredentialsView};
use crate::settings::{
    config_key, is_config_key, is_secret_key, lemma_key_lists_disjoint, Settings,
};

verus! {

/// A settings map after its sensitive values were wiped: the same keys,
/// the sensitive ones with empty values.
pub open spec fn wiped(values: Map<Seq<char>, Seq<char>>) -> Map<Seq<char>, Seq<char>> {
    Map::new(
        |k: Seq<char>| values.contains_key(k),
        |k: Seq<char>|
            if is_secret_key(k) {
                Seq::empty()
            } else {
                values[k]
            },
    )
}

/// The part of a settings map that goes to the configuration file: the
/// entries under the allowed keys, and no others.
pub open spec fn config_part(values: Map<Seq<char>, Seq<char>>) -> Map<Seq<char>, Seq<char>> {
    values.restrict(Set::new(|k: Seq<char>| is_config_key(k)))
}

/// Whatever is submitted, no sensitive key reaches the configuration file.
pub proof fn lemma_config_holds_no_secret(values: Map<Seq<char>, Seq<char>>, key: Seq<char>)
    requires
        is_secret_key(key),
    ensures
        !config_part(values).contains_key(key),
{
    lemma_key_lists_disjoint(key);
}

/// Wiping leaves the configuration part of a submission as it is: only
/// sensitive values are touched.
pub proof fn lemma_wipe_keeps_config(values: Map<Seq<char>, Seq<char>>)
    ensures
        config_part(wiped(values)) == config_part(values),
{
    assert forall|k: Seq<char>| config_part(values).contains_key(k) implies config_part(
        wiped(values),
    )[k] == config_part(values)[k] by {
        lemma_key_lists_disjoint(k);
    }
}

/// Overwrites with zeros every sensitive value that the map holds.
pub fn zeroize_secrets_in_map(map: &mut Settings)
    ensures
        final(map)@ == wiped(old(map)@),
{
    map.wipe_value("B2_APPLICATION_KEY_ID");
    map.wipe_value("B2_APPLICATION_KEY");
    map.wipe_value("FOLDER_1_TOKEN");
    map.wipe_value("FOLDER_2_TOKEN");
    map.wipe_value("TOKEN_SECRET");
}

/// What a save writes: the configuration file's contents and the bundle
/// for the secure store.
pub struct SavedSettings {
    pub config: Settings,
    pub credentials: B2Credentials,
}

/// Whether `key` is the key of one of the first `upto` entries.
spec fn occurs_before(entries: Seq<(String, String)>, upto: int, key: Seq<char>) -> bool {
    exists|j: int| 0 <= j < upto && #[trigger] entries[j].0@ == key
}

/// Parts a submitted settings map into what is stored where. The bundle is
/// the stored one with the submitted, non-empty fields laid over it; the
/// configuration is the submitted entries under the allowed keys, so no
/// sensitive key ever reaches the file. The sensitive values of the
/// submitted map are wiped before this returns.
pub fn save_settings(values: &mut Settings, stored: &B2Credentials) -> (saved: SavedSettings)
    ensures
        saved.credentials@ == merged(stored@, old(values)@),
        saved.config@ == config_part(old(values)@),
        final(values)@ == wiped(old(values)@),
{
    let credentials = stored.merged_with(values);
    let mut config = Settings::new();
    let entries = values.entries();
    let mut i: usize = 0;
    while i < entries.len()
        invariant
            i <= entries@.len(),
            forall|j: int|
                0 <= j < entries@.len() ==> values@.contains_key(#[trigger] entries@[j].0@)
                    && values@[entries@[j].0@] == entries@[j].1@,
            forall|k: Seq<char>|
                values@.contains_key(k) ==> occurs_before(entries@, entries@.len() as int, k),
            forall|k: Seq<char>| #[trigger]
                config@.contains_key(k) <==> is_config_key(k) && occurs_before(
                    entries@,
                    i as int,
                    k,
                ),
            forall|k: Seq<char>| #[trigger] config@.contains_key(k) ==> config@[k] == values@[k],
        decreases entries@.len() - i,
    {
        let ghost before = config@;
        let key = entries[i].0.as_str();
        if config_key(key) {
            config.insert(key.to_owned(), entries[i].1.clone());
        }
        proof {
            let at = i as int;
            assert(values@.contains_key(entries@[at].0@));
            assert forall|k: Seq<char>| #[trigger]
                config@.contains_key(k) <==> is_config_key(k) && occurs_before(
                    entries@,
                    at + 1,
                    k,
                ) by {
                if occurs_before(entries@, at, k) {
                    let j = choose|j: int| 0 <= j < at && #[trigger] entries@[j].0@ == k;
                    assert(0 <= j < at + 1 && entries@[j].0@ == k);
                }
                if occurs_before(entries@, at + 1, k) {
                    let j = choose|j: int| 0 <= j < at + 1 && #[trigger] entries@[j].0@ == k;
                    if j < at {
                        assert(occurs_before(entries@, at, k));
                    }
                }
                if entries@[at].0@ == k {
                    assert(occurs_before(entries@, at + 1, k));
                }
                assert(before.contains_key(k) <==> is_config_key(k) && occurs_before(
                    entries@,
                    at,
                    k,
                ));
            }
            assert forall|k: Seq<char>| #[trigger] config@.contains_key(k) implies config@[k]
                == values@[k] by {
                if !before.contains_key(k) {
                    assert(entries@[at].0@ == k);
                }
            }
        }
        i = i + 1;
    }
    assert(config@ =~= config_part(values@)) by {
        assert forall|k: Seq<char>| config@.contains_key(k) == config_part(values@).contains_key(
            k,
        ) by {
            if occurs_before(entries@, i as int, k) {
                let j = choose|j: int| 0 <= j < i && #[trigger] entries@[j].0@ == k;
                assert(values@.contains_key(entries@[j].0@));
            }
        }
    }
    zeroize_secrets_in_map(values);
    SavedSettings { config, credentials }
}

/// Whether the three connection settings are present with a value.
pub open spec fn connection_configured(config: Map<Seq<char>, Seq<char>>) -> bool {
    &&& config.contains_key("DOMAIN"@) && config["DOMAIN"@].len() > 0
    &&& config.contains_key("BUCKET_NAME"@) && config["BUCKET_NAME"@].len() > 0
    &&& config.contains_key("S3_ENDPOINT"@) && config["S3_ENDPOINT"@].len() > 0
}

/// Whether the account's key pair is stored.
pub open spec fn key_pair_stored(stored: CredentialsView) -> bool {
    stored.key_id.len() > 0 && stored.app_key.len() > 0
}

fn has_value(config: &Settings, key: &str) -> (present: bool)
    ensures
        present == (config@.contains_key(key@) && config@[key@].len() > 0),
{
    match config.get(key) {
        Some(v) => !v.is_empty(),
        None => false,
    }
}

/// Whether domain, bucket and endpoint are all set. Where they are not,
/// the account is not configured whatever the secure store holds, and the
/// store need not be read.
pub fn has_connection_config(config: &Settings) -> (present: bool)
    ensures
        present == connection_configured(config@),
{
    has_value(config, "DOMAIN") && has_value(config, "BUCKET_NAME") && has_value(
        config,
        "S3_ENDPOINT",
    )
}

/// Whether uploads can be attempted: the connection settings and the key
/// pair are all present with a value.
pub fn has_settings(config: &Settings, stored: &B2Credentials) -> (configured: bool)
    ensures
        configured == (connection_configured(config@) && key_pair_stored(stored@)),
{
    has_connection_config(config) && !stored.key_id.as_str().is_empty()
        && !stored.app_key.as_str().is_empty()
}

} // verus!
