//! The registry of top-level keys: one for the user, and one for each
//! organization that the user belongs to.

use vstd::prelude::*;
use uuid::Uuid;
use crate::capability::{KeyDecryptable, KeyEncryptable};
use crate::carried::same_id;
use crate::error::CipherError;
use crate::key::SymmetricCryptoKey;

verus! {

/// The top-level keys of a user: the user's own, and those of organizations.
/// No organization has more than one key.
pub struct KeyRegistry<K> {
    user_key: K,
    org_keys: Vec<(Uuid, K)>,
}

/// Whether the entry of `entries` at `at` is that of `org`.
spec fn holds_at<K>(entries: Seq<(Uuid, K)>, org: Uuid, at: int) -> bool {
    0 <= at < entries.len() && entries[at].0 == org
}

/// Whether no organization has two entries in `entries`.
spec fn no_organization_twice<K>(entries: Seq<(Uuid, K)>) -> bool {
    forall|i: int, j: int|
        0 <= i < j < entries.len() ==> (#[trigger] entries[i]).0 != (#[trigger] entries[j]).0
}

/// What `entries` map each organization to.
spec fn keys_of<K>(entries: Seq<(Uuid, K)>) -> Map<Uuid, K> {
    Map::new(
        |org: Uuid| exists|at: int| holds_at(entries, org, at),
        |org: Uuid| entries[choose|at: int| holds_at(entries, org, at)].1,
    )
}

/// Where the entry of `org` stands in `entries`, if there is one.
fn position<K>(entries: &Vec<(Uuid, K)>, org: &Uuid) -> (at: Option<usize>)
    ensures
        match at {
            Some(i) => holds_at(entries@, *org, i as int),
            None => forall|i: int| !holds_at(entries@, *org, i),
        },
{
    let mut i: usize = 0;
    while i < entries.len()
        invariant
            i <= entries@.len(),
            forall|j: int| 0 <= j < i ==> !holds_at(entries@, *org, j),
        decreases entries.len() - i,
    {
        if same_id(&entries[i].0, org) {
            return Some(i);
        }
        i = i + 1;
    }
    None
}

/// Entries in which no organization occurs twice map an organization to the
/// key of its one entry.
proof fn lemma_keys_of_entry<K>(entries: Seq<(Uuid, K)>, at: int)
    requires
        no_organization_twice(entries),
        0 <= at < entries.len(),
    ensures
        keys_of(entries).contains_key(entries[at].0),
        keys_of(entries)[entries[at].0] == entries[at].1,
{
    let org = entries[at].0;
    assert(holds_at(entries, org, at));
    let chosen = choose|i: int| holds_at(entries, org, i);
    if chosen < at {
        assert(entries[chosen].0 != entries[at].0);
    } else if at < chosen {
        assert(entries[at].0 != entries[chosen].0);
    }
}

impl<K> KeyRegistry<K> {
    #[verifier::type_invariant]
    spec fn well_formed(&self) -> bool {
        no_organization_twice(self.org_keys@)
    }

    /// The user's own key.
    pub closed spec fn user_key(&self) -> K {
        self.user_key
    }

    /// The keys of the organizations, each by the organization's identifier.
    pub closed spec fn org_keys(&self) -> Map<Uuid, K> {
        keys_of(self.org_keys@)
    }

    /// The key that applies in `scope`: the user's own where the scope is no
    /// organization, else that of the organization, if the registry has it.
    pub open spec fn key_for(&self, scope: Option<Uuid>) -> Option<K> {
        match scope {
            None => Some(self.user_key()),
            Some(org) => if self.org_keys().contains_key(org) {
                Some(self.org_keys()[org])
            } else {
                None
            },
        }
    }

    /// A registry that holds the user's key and no other.
    pub fn new(user_key: K) -> (registry: KeyRegistry<K>)
        ensures
            registry.user_key() == user_key,
            registry.org_keys() == Map::<Uuid, K>::empty(),
    {
        let registry = KeyRegistry { user_key, org_keys: Vec::new() };
        assert(registry.org_keys() =~= Map::<Uuid, K>::empty());
        registry
    }

    /// The registry in which `key` is the key of `org`, in place of the one it
    /// had, if any, and all else is as in `self`.
    pub fn with_org_key(self, org: Uuid, key: K) -> (registry: KeyRegistry<K>)
        ensures
            registry.user_key() == self.user_key(),
            registry.org_keys() == self.org_keys().insert(org, key),
    {
        proof {
            use_type_invariant(&self);
        }
        let ghost before = self.org_keys@;
        let KeyRegistry { user_key, org_keys } = self;
        let mut org_keys = org_keys;
        let found = position(&org_keys, &org);
        match found {
            Some(i) => {
                org_keys.set(i, (org, key));
            },
            None => {
                org_keys.push((org, key));
            },
        }
        proof {
            let after = org_keys@;
            let place = match found {
                Some(i) => i as int,
                None => before.len() as int,
            };
            assert(after[place] == (org, key));
            assert forall|a: int, b: int| 0 <= a < b < after.len() implies (#[trigger] after[a]).0 != (
            #[trigger] after[b]).0 by {
                if found is Some {
                    assert(holds_at(before, org, place));
                    assert(after[a].0 == before[a].0 && after[b].0 == before[b].0);
                } else if b == place {
                    assert(!holds_at(before, org, a));
                }
            }
            lemma_keys_of_entry(after, place);
            assert forall|o: Uuid| o != org implies (#[trigger] keys_of(after).contains_key(o)
                == keys_of(before).contains_key(o)) && (keys_of(after).contains_key(o) ==> keys_of(
                after,
            )[o] == keys_of(before)[o]) by {
                if keys_of(after).contains_key(o) {
                    let at = choose|at: int| holds_at(after, o, at);
                    assert(holds_at(before, o, at));
                    lemma_keys_of_entry(before, at);
                    lemma_keys_of_entry(after, at);
                }
                if keys_of(before).contains_key(o) {
                    let at = choose|at: int| holds_at(before, o, at);
                    assert(holds_at(after, o, at));
                }
            }
            assert(keys_of(after) =~= keys_of(before).insert(org, key));
        }
        KeyRegistry { user_key, org_keys }
    }

    /// The key that applies in the scope `org_id`, if the registry has one.
    pub fn get_key(&self, org_id: &Option<Uuid>) -> (key: Option<&K>)
        ensures
            key matches Some(k) ==> self.key_for(*org_id) == Some(*k),
            key is None ==> self.key_for(*org_id) is None,
    {
        match org_id {
            None => Some(&self.user_key),
            Some(org) => {
                proof {
                    use_type_invariant(self);
                }
                match position(&self.org_keys, org) {
                    Some(i) => {
                        proof {
                            lemma_keys_of_entry(self.org_keys@, i as int);
                        }
                        Some(&self.org_keys[i].1)
                    },
                    None => None,
                }
            },
        }
    }
}

/// What can say which top-level key applies to it.
pub trait LocateKey {
    /// The scope whose key applies to `self`, for a caller who proposes
    /// `org_id`.
    spec fn key_scope(&self, org_id: Option<Uuid>) -> Option<Uuid>;

    /// The key in `enc` that applies to `self`, if `enc` has it.
    fn locate_key<'a, K>(&self, enc: &'a KeyRegistry<K>, org_id: &Option<Uuid>) -> (key: Option<&'a K>)
        ensures
            key matches Some(k) ==> enc.key_for(self.key_scope(*org_id)) == Some(*k),
            key is None ==> enc.key_for(self.key_scope(*org_id)) is None,
    ;
}

/// What decrypting `item` comes to under the key that `enc` holds for it.
pub open spec fn decrypted_from<K: SymmetricCryptoKey, O: DeepView, T: LocateKey + KeyDecryptable<K, O>>(
    item: T,
    enc: KeyRegistry<K>,
    org_id: Option<Uuid>,
) -> Result<O::V, CipherError> {
    match enc.key_for(item.key_scope(org_id)) {
        Some(key) => item.decrypted(key@),
        None => Err(CipherError::KeyNotFound),
    }
}

/// Decrypts `item` under the key that `enc` holds for it.
pub fn decrypt<K: SymmetricCryptoKey, O: DeepView, T: LocateKey + KeyDecryptable<K, O>>(
    item: &T,
    enc: &KeyRegistry<K>,
    org_id: &Option<Uuid>,
) -> (out: Result<O, CipherError>)
    ensures
        out matches Ok(v) ==> decrypted_from::<K, O, T>(*item, *enc, *org_id) == Ok::<O::V, CipherError>(
            v.deep_view(),
        ),
        out matches Err(e) ==> decrypted_from::<K, O, T>(*item, *enc, *org_id) == Err::<O::V, CipherError>(e),
{
    match item.locate_key(enc, org_id) {
        Some(key) => item.decrypt_with_key(key),
        None => Err(CipherError::KeyNotFound),
    }
}

/// The error with which encrypting `item` under the key that `enc` holds for
/// it ends, if it fails.
pub open spec fn encrypt_failure_from<
    K: SymmetricCryptoKey,
    O: KeyDecryptable<K, T>,
    T: LocateKey + KeyEncryptable<K, O>,
>(item: T, enc: KeyRegistry<K>, org_id: Option<Uuid>) -> Option<CipherError> {
    match enc.key_for(item.key_scope(org_id)) {
        Some(key) => item.encrypt_failure(key@),
        None => Some(CipherError::KeyNotFound),
    }
}

/// Encrypts `item` under the key that `enc` holds for it.
pub fn encrypt<K: SymmetricCryptoKey, O: KeyDecryptable<K, T>, T: LocateKey + KeyEncryptable<K, O>>(
    item: T,
    enc: &KeyRegistry<K>,
    org_id: &Option<Uuid>,
) -> (out: Result<O, CipherError>)
    ensures
        out matches Ok(c) ==> {
            &&& encrypt_failure_from::<K, O, T>(item, *enc, *org_id) is None
            &&& enc.key_for(item.key_scope(*org_id)) matches Some(key)
            &&& item.sealed_as(key@, &c)
        },
        out matches Err(e) ==> encrypt_failure_from::<K, O, T>(item, *enc, *org_id) == Some(e),
{
    match item.locate_key(enc, org_id) {
        Some(key) => item.encrypt_with_key(key),
        None => Err(CipherError::KeyNotFound),
    }
}

} // verus!
