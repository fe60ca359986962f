//! Identities of clients and groups, and lists of them.

use vstd::prelude::*;

verus! {

/// Identity of a client.
pub type ClientId = String;

/// Identity of a group.
pub type GroupId = String;

/// Whether `client` occurs in `clients`.
pub fn contains_client(clients: &Vec<ClientId>, client: &ClientId) -> (found: bool)
    ensures
        found == clients.deep_view().contains(client@),
{
    let mut i: usize = 0;
    while i < clients.len()
        invariant
            i <= clients.len(),
            forall|j: int| 0 <= j < i ==> clients.deep_view()[j] != client@,
        decreases clients.len() - i,
    {
        if clients[i] == *client {
            assert(clients.deep_view()[i as int] == client@);
            return true;
        }
        i += 1;
    }
    false
}

/// A copy of a list of identities.
pub fn clone_clients(clients: &Vec<ClientId>) -> (copy: Vec<ClientId>)
    ensures
        copy.deep_view() == clients.deep_view(),
{
    let mut copy: Vec<ClientId> = Vec::new();
    let mut i: usize = 0;
    while i < clients.len()
        invariant
            i <= clients.len(),
            copy.len() == i,
            forall|j: int| 0 <= j < i ==> copy[j]@ == clients[j]@,
        decreases clients.len() - i,
    {
        copy.push(clients[i].clone());
        i += 1;
    }
    assert(copy.deep_view() =~= clients.deep_view());
    copy
}

/// A copy of a byte string.
pub fn clone_bytes(bytes: &Vec<u8>) -> (copy: Vec<u8>)
    ensures
        copy@ == bytes@,
{
    let copy = bytes.clone();
    assert(copy@ =~= bytes@);
    copy
}

} // verus!
