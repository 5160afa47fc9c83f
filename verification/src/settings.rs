//! The flat string-keyed settings map that the settings form submits and
//! the configuration file holds, and the two lists of keys that part the
//! sensitive from the rest.

use vstd::prelude::*;

use crate::text::str_eq;

verus! {

/// `String::zeroize` of the zeroize crate: overwrites the string's buffer
/// with zeros and leaves the string empty.
#[verifier::external_body]
pub(crate) fn wipe_string(s: &mut String)
    ensures
        final(s)@ == Seq::<char>::empty(),
    opens_invariants none
    no_unwind
{
    zeroize::Zeroize::zeroize(s);
}

/// The keys of the five sensitive fields as the settings form names them.
pub open spec fn is_secret_key(key: Seq<char>) -> bool {
    ||| key == "B2_APPLICATION_KEY_ID"@
    ||| key == "B2_APPLICATION_KEY"@
    ||| key == "FOLDER_1_TOKEN"@
    ||| key == "FOLDER_2_TOKEN"@
    ||| key == "TOKEN_SECRET"@
}

/// The keys that the configuration file may hold. None of them is
/// sensitive.
pub open spec fn is_config_key(key: Seq<char>) -> bool {
    ||| key == "DOMAIN"@
    ||| key == "BUCKET_NAME"@
    ||| key == "S3_ENDPOINT"@
    ||| key == "FOLDER_1"@
    ||| key == "FOLDER_2"@
    ||| key == "DATE_FOLDERS"@
    ||| key == "UUID_FILENAMES"@
    ||| key == "OVERWRITE_UPLOADS"@
    ||| key == "TOKEN_MODE"@
    ||| key == "DEFAULT_TTL"@
    ||| key == "NOTIFICATIONS"@
}

/// No key is both sensitive and allowed in the configuration file.
pub proof fn lemma_key_lists_disjoint(key: Seq<char>)
    ensures
        !(is_secret_key(key) && is_config_key(key)),
{
    reveal_strlit("B2_APPLICATION_KEY_ID");
    reveal_strlit("B2_APPLICATION_KEY");
    reveal_strlit("FOLDER_1_TOKEN");
    reveal_strlit("FOLDER_2_TOKEN");
    reveal_strlit("TOKEN_SECRET");
    reveal_strlit("DOMAIN");
    reveal_strlit("BUCKET_NAME");
    reveal_strlit("S3_ENDPOINT");
    reveal_strlit("FOLDER_1");
    reveal_strlit("FOLDER_2");
    reveal_strlit("DATE_FOLDERS");
    reveal_strlit("UUID_FILENAMES");
    reveal_strlit("OVERWRITE_UPLOADS");
    reveal_strlit("TOKEN_MODE");
    reveal_strlit("DEFAULT_TTL");
    reveal_strlit("NOTIFICATIONS");
    if is_secret_key(key) && is_config_key(key) {
        // Keys of one length differ in their first character.
        assert(key.len() == 12 || key.len() == 14);
        assert("TOKEN_SECRET"@[0] == 'T');
        assert("DATE_FOLDERS"@[0] == 'D');
        assert("FOLDER_1_TOKEN"@[0] == 'F');
        assert("FOLDER_2_TOKEN"@[0] == 'F');
        assert("UUID_FILENAMES"@[0] == 'U');
    }
}

/// Whether `key` is one that the configuration file may hold.
pub fn config_key(key: &str) -> (allowed: bool)
    ensures
        allowed == is_config_key(key@),
{
    str_eq(key, "DOMAIN") || str_eq(key, "BUCKET_NAME") || str_eq(key, "S3_ENDPOINT") || str_eq(
        key,
        "FOLDER_1",
    ) || str_eq(key, "FOLDER_2") || str_eq(key, "DATE_FOLDERS") || str_eq(key, "UUID_FILENAMES")
        || str_eq(key, "OVERWRITE_UPLOADS") || str_eq(key, "TOKEN_MODE") || str_eq(
        key,
        "DEFAULT_TTL",
    ) || str_eq(key, "NOTIFICATIONS")
}

/// A map from setting keys to values. No key occurs twice.
pub struct Settings {
    entries: Vec<(String, String)>,
}

impl View for Settings {
    type V = Map<Seq<char>, Seq<char>>;

    closed spec fn view(&self) -> Map<Seq<char>, Seq<char>> {
        Map::new(
            |k: Seq<char>| self.holds(k),
            |k: Seq<char>| self.entries[self.position(k)].1@,
        )
    }
}

impl Settings {
    #[verifier::type_invariant]
    spec fn distinct_keys(self) -> bool {
        forall|i: int, j: int|
            0 <= i < j < self.entries.len() ==> self.entries[i].0@ != self.entries[j].0@
    }

    spec fn holds(self, key: Seq<char>) -> bool {
        exists|i: int| 0 <= i < self.entries.len() && #[trigger] self.entries[i].0@ == key
    }

    spec fn position(self, key: Seq<char>) -> int {
        choose|i: int| 0 <= i < self.entries.len() && #[trigger] self.entries[i].0@ == key
    }

    /// Where the keys are distinct, an entry is found at its own index.
    proof fn lemma_position(self, i: int)
        requires
            self.distinct_keys(),
            0 <= i < self.entries.len(),
        ensures
            self.holds(self.entries[i].0@),
            self.position(self.entries[i].0@) == i,
            self@.contains_key(self.entries[i].0@),
            self@[self.entries[i].0@] == self.entries[i].1@,
    {
    }

    /// A new value in the place of an entry's value is an insertion under
    /// that entry's key.
    proof fn lemma_value_replaced(self, after: Settings, i: int)
        requires
            self.distinct_keys(),
            0 <= i < self.entries.len(),
            after.entries.len() == self.entries.len(),
            forall|a: int|
                0 <= a < self.entries.len() ==> after.entries[a].0@ == self.entries[a].0@,
            forall|a: int|
                0 <= a < self.entries.len() && a != i ==> after.entries[a].1@
                    == self.entries[a].1@,
        ensures
            after.distinct_keys(),
            after@ == self@.insert(self.entries[i].0@, after.entries[i].1@),
    {
        assert forall|q: Seq<char>| after.holds(q) == self.holds(q) by {
            if after.holds(q) {
                assert(self.entries[after.position(q)].0@ == q);
            }
            if self.holds(q) {
                assert(after.entries[self.position(q)].0@ == q);
            }
        }
        assert forall|q: Seq<char>| after.holds(q) implies after@[q] == self@.insert(
            self.entries[i].0@,
            after.entries[i].1@,
        )[q] by {
            let w = after.position(q);
            after.lemma_position(w);
            self.lemma_position(w);
        }
        self.lemma_position(i);
        assert(after@ =~= self@.insert(self.entries[i].0@, after.entries[i].1@));
    }

    /// One more entry under a key that was not held is an insertion.
    proof fn lemma_entry_added(self, after: Settings)
        requires
            self.distinct_keys(),
            after.entries.len() == self.entries.len() + 1,
            forall|a: int| 0 <= a < self.entries.len() ==> after.entries[a] == self.entries[a],
            !self.holds(after.entries@.last().0@),
        ensures
            after.distinct_keys(),
            after@ == self@.insert(after.entries@.last().0@, after.entries@.last().1@),
    {
        let n = self.entries.len() as int;
        let key = after.entries[n].0@;
        assert forall|a: int, b: int| 0 <= a < b < after.entries.len() implies after.entries[a].0@
            != after.entries[b].0@ by {
            if b == n {
                assert(self.entries[a].0@ != key);
            }
        }
        assert forall|q: Seq<char>| after.holds(q) == (self.holds(q) || q == key) by {
            if after.holds(q) && q != key {
                assert(self.entries[after.position(q)].0@ == q);
            }
            if self.holds(q) {
                assert(after.entries[self.position(q)].0@ == q);
            }
            assert(after.entries[n].0@ == key);
        }
        assert forall|q: Seq<char>| after.holds(q) implies after@[q] == self@.insert(
            key,
            after.entries[n].1@,
        )[q] by {
            let w = after.position(q);
            after.lemma_position(w);
            if w < n {
                self.lemma_position(w);
            }
        }
        assert(after@ =~= self@.insert(key, after.entries[n].1@));
    }

    /// The empty map.
    pub fn new() -> (settings: Settings)
        ensures
            settings@ == Map::<Seq<char>, Seq<char>>::empty(),
    {
        Settings { entries: Vec::new() }
    }

    /// The index of `key` among the entries.
    fn find(&self, key: &str) -> (at: Option<usize>)
        ensures
            match at {
                Some(i) => i < self.entries.len() && self.entries[i as int].0@ == key@,
                None => !self.holds(key@),
            },
    {
        let mut i: usize = 0;
        while i < self.entries.len()
            invariant
                i <= self.entries.len(),
                forall|j: int| 0 <= j < i ==> self.entries[j].0@ != key@,
            decreases self.entries.len() - i,
        {
            if str_eq(self.entries[i].0.as_str(), key) {
                return Some(i);
            }
            i = i + 1;
        }
        None
    }

    /// The value stored under `key`.
    pub fn get(&self, key: &str) -> (value: Option<&str>)
        ensures
            match value {
                Some(v) => self@.contains_key(key@) && v@ == self@[key@],
                None => !self@.contains_key(key@),
            },
    {
        proof {
            use_type_invariant(self);
        }
        match self.find(key) {
            Some(i) => {
                proof {
                    self.lemma_position(i as int);
                }
                Some(self.entries[i].1.as_str())
            },
            None => None,
        }
    }

    /// Whether a value is stored under `key`.
    pub fn contains_key(&self, key: &str) -> (held: bool)
        ensures
            held == self@.contains_key(key@),
    {
        self.find(key).is_some()
    }

    /// Stores `value` under `key`, in place of what was there. A value
    /// that is replaced is wiped first.
    pub fn insert(&mut self, key: String, value: String)
        ensures
            final(self)@ == old(self)@.insert(key@, value@),
    {
        proof {
            use_type_invariant(&*self);
        }
        let ghost before = *self;
        let found = self.find(key.as_str());
        let mut entries: Vec<(String, String)> = Vec::new();
        std::mem::swap(&mut entries, &mut self.entries);
        match found {
            Some(i) => {
                // What is replaced may be sensitive: it does not outlive its entry.
                wipe_string(&mut entries[i].1);
                entries.set(i, (key, value));
                proof {
                    before.lemma_value_replaced(Settings { entries }, i as int);
                }
            },
            None => {
                entries.push((key, value));
                proof {
                    before.lemma_entry_added(Settings { entries });
                }
            },
        }
        std::mem::swap(&mut entries, &mut self.entries);
    }

    /// Overwrites the value under `key` with zeros and leaves it empty.
    /// Other entries stay as they are; an absent key stays absent.
    pub fn wipe_value(&mut self, key: &str)
        ensures
            final(self)@ == if old(self)@.contains_key(key@) {
                old(self)@.insert(key@, Seq::<char>::empty())
            } else {
                old(self)@
            },
    {
        proof {
            use_type_invariant(&*self);
        }
        let ghost before = *self;
        match self.find(key) {
            Some(i) => {
                let mut entries: Vec<(String, String)> = Vec::new();
                std::mem::swap(&mut entries, &mut self.entries);
                wipe_string(&mut entries[i].1);
                proof {
                    before.lemma_value_replaced(Settings { entries }, i as int);
                }
                std::mem::swap(&mut entries, &mut self.entries);
            },
            None => {},
        }
    }

    /// The number of entries.
    pub fn len(&self) -> (n: usize)
        ensures
            n == self@.dom().len(),
            self@.dom().finite(),
    {
        proof {
            use_type_invariant(self);
            self.lemma_domain_size();
        }
        self.entries.len()
    }

    /// The entries, each key once, in no particular order.
    pub fn entries(&self) -> (entries: &Vec<(String, String)>)
        ensures
            entries@.len() == self@.dom().len(),
            forall|i: int|
                0 <= i < entries@.len() ==> self@.contains_key(#[trigger] entries@[i].0@)
                    && self@[entries@[i].0@] == entries@[i].1@,
            forall|i: int, j: int|
                0 <= i < j < entries@.len() ==> entries@[i].0@ != entries@[j].0@,
            forall|k: Seq<char>| #[trigger]
                self@.contains_key(k) ==> exists|i: int|
                    0 <= i < entries@.len() && #[trigger] entries@[i].0@ == k,
    {
        proof {
            use_type_invariant(self);
            self.lemma_domain_size();
            assert forall|i: int| 0 <= i < self.entries@.len() implies self@.contains_key(
                #[trigger] self.entries@[i].0@,
            ) && self@[self.entries@[i].0@] == self.entries@[i].1@ by {
                self.lemma_position(i);
            }
        }
        &self.entries
    }

    /// The map has as many keys as there are entries.
    proof fn lemma_domain_size(self)
        requires
            self.distinct_keys(),
        ensures
            self@.dom().finite(),
            self@.dom().len() == self.entries.len(),
    {
        let keys = self.entries@.map_values(|e: (String, String)| e.0@);
        keys.unique_seq_to_set();
        assert forall|k: Seq<char>| keys.to_set().contains(k) == self@.dom().contains(k) by {
            if self.holds(k) {
                assert(keys[self.position(k)] == k);
            }
        }
        assert(keys.to_set() =~= self@.dom());
    }
}

} // verus!
