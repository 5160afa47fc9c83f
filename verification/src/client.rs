//! What an object-store client is bound to, and the single-slot cache that
//! keeps one client while endpoint and key pair stay the same.

use vstd::prelude::*;

use crate::credentials::B2Credentials;
use crate::error::prefixed;
use crate::settings::wipe_string;
use crate::text::{before_first, find_char, str_eq};

verus! {

/// The region that is used where the endpoint names none.
pub open spec fn default_region() -> Seq<char> {
    "us-east-005"@
}

/// Whether an endpoint has the form `s3.<region>.<domain suffix>`: it
/// begins with `s3.`, and a further dot ends the region.
pub open spec fn names_region(endpoint: Seq<char>) -> bool {
    seq!['s', '3', '.'].is_prefix_of(endpoint) && endpoint.skip(3).contains('.')
}

/// The region of an endpoint: the label between `s3.` and the next dot
/// where the endpoint has that form, the default region for any other
/// endpoint.
pub open spec fn region_of(endpoint: Seq<char>) -> Seq<char> {
    if names_region(endpoint) {
        before_first(endpoint.skip(3), '.')
    } else {
        default_region()
    }
}

/// Extracts the region from an endpoint such as
/// `s3.us-west-004.backblazeb2.com`.
pub fn parse_region(endpoint: &str) -> (region: String)
    ensures
        region@ == region_of(endpoint@),
{
    let n = endpoint.unicode_len();
    if n >= 3 && endpoint.get_char(0) == 's' && endpoint.get_char(1) == '3' && endpoint.get_char(2)
        == '.' {
        let end = find_char(endpoint, '.', 3);
        proof {
            // The first dot after the prefix is the first dot of what follows it.
            let rest = endpoint@.skip(3);
            rest.index_of_first_ensures('.');
            if end < n {
                assert(rest[end - 3] == endpoint@[end as int]);
            }
        }
        if end < n {
            endpoint.substring_char(3, end).to_owned()
        } else {
            "us-east-005".to_owned()
        }
    } else {
        "us-east-005".to_owned()
    }
}

/// What a client is bound to. The key pair it holds is a copy; it is wiped
/// when this value is dropped, after the client has taken it over.
pub struct ClientSettings {
    /// The endpoint as a URL, `https://<endpoint>`.
    pub endpoint_url: String,
    pub region: String,
    pub key_id: String,
    pub secret_key: String,
    /// Buckets are addressed in the path, not in the host name.
    pub path_style: bool,
}

/// What a client is bound to, as plain values.
pub ghost struct ClientBinding {
    pub endpoint_url: Seq<char>,
    pub region: Seq<char>,
    pub key_id: Seq<char>,
    pub secret_key: Seq<char>,
    pub path_style: bool,
}

impl View for ClientSettings {
    type V = ClientBinding;

    open spec fn view(&self) -> ClientBinding {
        ClientBinding {
            endpoint_url: self.endpoint_url@,
            region: self.region@,
            key_id: self.key_id@,
            secret_key: self.secret_key@,
            path_style: self.path_style,
        }
    }
}

impl Drop for ClientSettings {
    fn drop(&mut self)
        opens_invariants none
        no_unwind
    {
        wipe_string(&mut self.key_id);
        wipe_string(&mut self.secret_key);
    }
}

/// The binding of the client for an endpoint and a key pair.
pub open spec fn client_binding(
    endpoint: Seq<char>,
    key_id: Seq<char>,
    secret_key: Seq<char>,
) -> ClientBinding {
    ClientBinding {
        endpoint_url: "https://"@ + endpoint,
        region: region_of(endpoint),
        key_id,
        secret_key,
        path_style: true,
    }
}

fn client_settings(endpoint: &str, key_id: &str, secret_key: &str) -> (settings: ClientSettings)
    ensures
        settings@ == client_binding(endpoint@, key_id@, secret_key@),
{
    ClientSettings {
        endpoint_url: prefixed("https://", endpoint),
        region: parse_region(endpoint),
        key_id: key_id.to_owned(),
        secret_key: secret_key.to_owned(),
        path_style: true,
    }
}

/// Describes the client for an endpoint and the bundle's key pair: the
/// endpoint over HTTPS, the region that the endpoint names, the key pair,
/// and path-style addressing. Making a client of it is local work, without
/// a handshake.
pub fn build_client(endpoint: &str, creds: &B2Credentials) -> (settings: ClientSettings)
    ensures
        settings@ == client_binding(endpoint@, creds@.key_id, creds@.app_key),
{
    client_settings(endpoint, creds.key_id.as_str(), creds.app_key.as_str())
}

/// What a cached client was made for. Wiped when dropped.
struct CacheKey {
    endpoint: String,
    key_id: String,
    secret_key: String,
}

impl Drop for CacheKey {
    fn drop(&mut self)
        opens_invariants none
        no_unwind
    {
        wipe_string(&mut self.key_id);
        wipe_string(&mut self.secret_key);
    }
}

/// A cache of one client. It never evicts but by replacement.
pub struct ClientCache<C> {
    slot: Option<(CacheKey, C)>,
}

/// The one entry of a cache: a client and what it was made for.
pub ghost struct CacheSlot<C> {
    pub endpoint: Seq<char>,
    pub key_id: Seq<char>,
    pub secret_key: Seq<char>,
    pub client: C,
}

impl<C> CacheSlot<C> {
    /// Whether the entry was made for exactly this endpoint and key pair.
    pub open spec fn is_for(self, endpoint: Seq<char>, key_id: Seq<char>, secret_key: Seq<char>) -> bool {
        self.endpoint == endpoint && self.key_id == key_id && self.secret_key == secret_key
    }
}

/// The cache after a client was asked for: an entry made for the same
/// endpoint and key pair stays, and `fresh` is not used; otherwise the
/// entry, if any, is replaced by `fresh`.
pub open spec fn after_request<C>(
    slot: Option<CacheSlot<C>>,
    endpoint: Seq<char>,
    key_id: Seq<char>,
    secret_key: Seq<char>,
    fresh: C,
) -> Option<CacheSlot<C>> {
    match slot {
        Some(s) if s.is_for(endpoint, key_id, secret_key) => slot,
        _ => Some(CacheSlot { endpoint, key_id, secret_key, client: fresh }),
    }
}

impl<C> View for ClientCache<C> {
    type V = Option<CacheSlot<C>>;

    closed spec fn view(&self) -> Option<CacheSlot<C>> {
        match self.slot {
            Some((key, client)) => Some(
                CacheSlot {
                    endpoint: key.endpoint@,
                    key_id: key.key_id@,
                    secret_key: key.secret_key@,
                    client,
                },
            ),
            None => None,
        }
    }
}

impl<C> ClientCache<C> {
    /// A cache that holds nothing yet.
    pub fn new() -> (cache: ClientCache<C>)
        ensures
            cache@ is None,
    {
        ClientCache { slot: None }
    }

    /// Whether the cached client was made for this endpoint and key pair.
    pub fn holds(&self, endpoint: &str, key_id: &str, secret_key: &str) -> (hit: bool)
        ensures
            hit == (self@ matches Some(s) && s.is_for(endpoint@, key_id@, secret_key@)),
    {
        match &self.slot {
            Some((key, _)) => str_eq(key.endpoint.as_str(), endpoint) && str_eq(
                key.key_id.as_str(),
                key_id,
            ) && str_eq(key.secret_key.as_str(), secret_key),
            None => false,
        }
    }

    /// The client for an endpoint and a key pair. The cached client is
    /// handed out while it was made for the same three values; otherwise
    /// `build` makes a new one from the binding, which replaces the entry.
    /// What `build` is handed is wiped when `build` lets go of it, and so
    /// is the replaced entry's key pair.
    pub fn get_or_build<F: FnOnce(ClientSettings) -> C>(
        &mut self,
        endpoint: &str,
        key_id: &str,
        secret_key: &str,
        build: F,
    ) -> (client: &C)
        requires
            forall|settings: ClientSettings|
                settings@ == client_binding(endpoint@, key_id@, secret_key@) ==> build.requires(
                    (settings,),
                ),
        ensures
            final(self)@ == after_request(old(self)@, endpoint@, key_id@, secret_key@, *client),
            final(self)@ matches Some(s) && s.client == *client,
            old(self)@ matches Some(s) && s.is_for(endpoint@, key_id@, secret_key@)
                || exists|settings: ClientSettings|
                settings@ == client_binding(endpoint@, key_id@, secret_key@) && build.ensures(
                    (settings,),
                    *client,
                ),
    {
        if !self.holds(endpoint, key_id, secret_key) {
            let settings = client_settings(endpoint, key_id, secret_key);
            let client = build(settings);
            let key = CacheKey {
                endpoint: endpoint.to_owned(),
                key_id: key_id.to_owned(),
                secret_key: secret_key.to_owned(),
            };
            self.slot = Some((key, client));
        }
        match &self.slot {
            Some((_, client)) => client,
            None => unreached(),
        }
    }
}

/// A second request for the same endpoint and key pair finds the entry of
/// the first: the cache stays as it was and no new client is used.
pub proof fn lemma_same_request_reuses_slot<C>(
    slot: Option<CacheSlot<C>>,
    endpoint: Seq<char>,
    key_id: Seq<char>,
    secret_key: Seq<char>,
    first: C,
    second: C,
)
    ensures
        after_request(
            after_request(slot, endpoint, key_id, secret_key, first),
            endpoint,
            key_id,
            secret_key,
            second,
        ) == after_request(slot, endpoint, key_id, secret_key, first),
{
}

/// A request that differs in endpoint, key id or secret replaces the
/// entry: what the cache then holds is the new client alone.
pub proof fn lemma_other_request_replaces_slot<C>(
    slot: Option<CacheSlot<C>>,
    endpoint: Seq<char>,
    key_id: Seq<char>,
    secret_key: Seq<char>,
    fresh: C,
)
    requires
        slot matches Some(s) ==> !s.is_for(endpoint, key_id, secret_key),
    ensures
        after_request(slot, endpoint, key_id, secret_key, fresh) == Some(
            CacheSlot { endpoint, key_id, secret_key, client: fresh },
        ),
{
}

} // verus!
