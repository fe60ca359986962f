//! The key-package directory: which bundle each client has published.

use crate::assoc::{
    has_key, keys_of, keys_unique, lemma_keys_enumerate, lemma_to_map_at, lemma_to_map_empty,
    lemma_to_map_push, lemma_to_map_update, to_map,
};
use crate::identity::ClientId;
use vstd::prelude::*;

verus! {

/// What the directory `key_packages` holds for `client`.
pub open spec fn lookup(key_packages: Map<Seq<char>, Seq<u8>>, client: Seq<char>) -> Option<
    Seq<u8>,
> {
    if key_packages.contains_key(client) {
        Some(key_packages[client])
    } else {
        None
    }
}

/// Model of what a fetch returns.
pub open spec fn key_package_view(found: Option<Vec<u8>>) -> Option<Seq<u8>> {
    match found {
        Some(key_package) => Some(key_package@),
        None => None,
    }
}

/// The directory after each of `stores`, an identity with a key package, was
/// stored in turn.
pub open spec fn after_stores(
    key_packages: Map<Seq<char>, Seq<u8>>,
    stores: Seq<(Seq<char>, Seq<u8>)>,
) -> Map<Seq<char>, Seq<u8>>
    decreases stores.len(),
{
    if stores.len() == 0 {
        key_packages
    } else {
        after_stores(key_packages, stores.drop_last()).insert(stores.last().0, stores.last().1)
    }
}

/// Maps each client identity to the key package it published last. The
/// packages are opaque bytes.
#[derive(Debug)]
pub struct KeyPackageDirectory {
    entries: Vec<(ClientId, Vec<u8>)>,
}

impl View for KeyPackageDirectory {
    type V = Map<Seq<char>, Seq<u8>>;

    closed spec fn view(&self) -> Map<Seq<char>, Seq<u8>> {
        to_map(self.entries.deep_view())
    }
}

impl KeyPackageDirectory {
    /// No identity has two entries.
    #[verifier::type_invariant]
    spec fn inv(&self) -> bool {
        keys_unique(self.entries.deep_view())
    }

    /// An empty directory.
    pub fn new() -> (directory: Self)
        ensures
            directory@ == Map::<Seq<char>, Seq<u8>>::empty(),
    {
        let directory = KeyPackageDirectory { entries: Vec::new() };
        proof {
            lemma_to_map_empty(directory.entries.deep_view());
        }
        directory
    }

    /// Position of the entry of `client_id`, if it has one.
    fn position(&self, client_id: &ClientId) -> (found: Option<usize>)
        ensures
            match found {
                Some(i) => i < self.entries.len() && self.entries[i as int].0@ == client_id@,
                None => !has_key(self.entries.deep_view(), client_id@),
            },
    {
        let mut i: usize = 0;
        while i < self.entries.len()
            invariant
                i <= self.entries.len(),
                forall|j: int| 0 <= j < i ==> self.entries[j].0@ != client_id@,
            decreases self.entries.len() - i,
        {
            if self.entries[i].0 == *client_id {
                return Some(i);
            }
            i += 1;
        }
        assert forall|j: int| 0 <= j < self.entries.deep_view().len() implies (
        #[trigger] self.entries.deep_view()[j]).0 != client_id@ by {
            assert(self.entries.deep_view()[j].0 == self.entries[j].0@);
        }
        None
    }

    /// Stores `key_package` for `client_id`, in place of what was stored for
    /// it before.
    pub fn store(&mut self, client_id: ClientId, key_package: Vec<u8>)
        ensures
            final(self)@ == old(self)@.insert(client_id@, key_package@),
    {
        proof {
            use_type_invariant(&*self);
            assert(key_package.deep_view() =~= key_package@);
        }
        let found = self.position(&client_id);
        let ghost before = self.entries.deep_view();
        let mut entries: Vec<(ClientId, Vec<u8>)> = Vec::new();
        std::mem::swap(&mut entries, &mut self.entries);
        proof {
            lemma_to_map_empty(self.entries.deep_view());
        }
        match found {
            Some(i) => {
                entries.set(i, (client_id, key_package));
                proof {
                    assert(before[i as int].0 == client_id@);
                    assert(entries.deep_view() =~= before.update(
                        i as int,
                        (before[i as int].0, key_package@),
                    ));
                    lemma_to_map_update(before, i as int, key_package@);
                }
            },
            None => {
                entries.push((client_id, key_package));
                proof {
                    assert(entries.deep_view() =~= before.push((client_id@, key_package@)));
                    lemma_to_map_push(before, client_id@, key_package@);
                }
            },
        }
        self.entries = entries;
    }

    /// The key package stored for `client_id`, if there is one.
    pub fn fetch(&self, client_id: &ClientId) -> (found: Option<Vec<u8>>)
        ensures
            key_package_view(found) == lookup(self@, client_id@),
    {
        proof {
            use_type_invariant(self);
        }
        match self.position(client_id) {
            Some(i) => {
                let key_package = self.entries[i].1.clone();
                proof {
                    assert(has_key(self.entries.deep_view(), self.entries.deep_view()[i as int].0));
                    assert(key_package@ =~= self.entries[i as int].1@);
                    assert(self.entries.deep_view()[i as int].1 =~= self.entries[i as int].1@);
                    lemma_to_map_at(self.entries.deep_view(), i as int);
                }
                Some(key_package)
            },
            None => None,
        }
    }

    /// The identities that have a key package stored, each once.
    pub fn client_ids(&self) -> (ids: Vec<ClientId>)
        ensures
            ids.deep_view().no_duplicates(),
            ids.deep_view().to_set() == self@.dom(),
            ids.len() == self@.dom().len(),
    {
        proof {
            use_type_invariant(self);
        }
        let mut ids: Vec<ClientId> = Vec::new();
        let mut i: usize = 0;
        while i < self.entries.len()
            invariant
                i <= self.entries.len(),
                ids.len() == i,
                forall|j: int| 0 <= j < i ==> ids[j]@ == self.entries[j].0@,
            decreases self.entries.len() - i,
        {
            ids.push(self.entries[i].0.clone());
            i += 1;
        }
        proof {
            assert(ids.deep_view() =~= keys_of(self.entries.deep_view()));
            lemma_keys_enumerate(self.entries.deep_view());
        }
        ids
    }
}

/// A fetch finds the key package that was stored, and a second store for
/// the same identity overwrites the first: the later package alone is found.
pub proof fn lemma_fetch_finds_last_store(
    key_packages: Map<Seq<char>, Seq<u8>>,
    client: Seq<char>,
    first: Seq<u8>,
    second: Seq<u8>,
)
    ensures
        lookup(key_packages.insert(client, first), client) == Some(first),
        lookup(key_packages.insert(client, first).insert(client, second), client) == Some(
            second,
        ),
{
}

/// Storing for one identity changes nothing for another.
pub proof fn lemma_store_leaves_others(
    key_packages: Map<Seq<char>, Seq<u8>>,
    client: Seq<char>,
    key_package: Seq<u8>,
    other: Seq<char>,
)
    requires
        other != client,
    ensures
        lookup(key_packages.insert(client, key_package), other) == lookup(key_packages, other),
{
}

/// An identity for which nothing was ever stored has no key package: in a
/// directory that started empty, a fetch for it finds nothing.
pub proof fn lemma_never_stored_is_absent(stores: Seq<(Seq<char>, Seq<u8>)>, client: Seq<char>)
    requires
        forall|i: int| 0 <= i < stores.len() ==> (#[trigger] stores[i]).0 != client,
    ensures
        lookup(after_stores(Map::empty(), stores), client) is None,
    decreases stores.len(),
{
    if stores.len() > 0 {
        let earlier = stores.drop_last();
        assert forall|i: int| 0 <= i < earlier.len() implies (#[trigger] earlier[i]).0
            != client by {
            assert(earlier[i] == stores[i]);
        }
        lemma_never_stored_is_absent(earlier, client);
        assert(stores.last() == stores[stores.len() - 1]);
    }
}

} // verus!
