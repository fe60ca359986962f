//! The state store: the key-package directory and the group registry.

use crate::directory::{key_package_view, lookup, KeyPackageDirectory};
use crate::error::ServiceError;
use crate::group::GroupState;
use crate::identity::{ClientId, GroupId};
use crate::message::MlsMessageType;
use crate::registry::{
    after_create, after_join, after_relay, create_outcome, group_outcome_view, groups_valid,
    join_outcome, relay_outcome, unit_outcome_view, GroupRegistry, GroupsView,
};
use vstd::prelude::*;

verus! {

/// Mathematical model of the state store.
pub struct ServiceView {
    /// The key package that each client has published.
    pub key_packages: Map<Seq<char>, Seq<u8>>,
    /// The record of each registered group.
    pub groups: GroupsView,
}

/// The state store. The directory and the registry are independent: no
/// operation touches both.
#[derive(Debug)]
pub struct DeliveryService {
    /// The key-package directory.
    pub key_packages: KeyPackageDirectory,
    /// The group registry.
    pub groups: GroupRegistry,
}

impl View for DeliveryService {
    type V = ServiceView;

    open spec fn view(&self) -> ServiceView {
        ServiceView { key_packages: self.key_packages@, groups: self.groups@ }
    }
}

impl DeliveryService {
    /// A store with no key package and no group.
    pub fn new() -> (service: Self)
        ensures
            service@.key_packages == Map::<Seq<char>, Seq<u8>>::empty(),
            service@.groups == GroupsView::empty(),
    {
        DeliveryService { key_packages: KeyPackageDirectory::new(), groups: GroupRegistry::new() }
    }

    /// Stores `key_package` as the key package of `client_id`, in place of
    /// the one it had. This never fails.
    pub fn store_key_package(&mut self, client_id: ClientId, key_package: Vec<u8>) -> (outcome:
        Result<(), ServiceError>)
        ensures
            outcome is Ok,
            final(self)@.key_packages == old(self)@.key_packages.insert(client_id@, key_package@),
            final(self)@.groups == old(self)@.groups,
    {
        self.key_packages.store(client_id, key_package);
        Ok(())
    }

    /// The key package of `client_id`, or `None` where it has none.
    pub fn fetch_key_package(&self, client_id: &ClientId) -> (found: Option<Vec<u8>>)
        ensures
            key_package_view(found) == lookup(self@.key_packages, client_id@),
    {
        self.key_packages.fetch(client_id)
    }

    /// The identities that have a key package, each once, in no promised
    /// order.
    pub fn list_key_packages(&self) -> (clients: Vec<ClientId>)
        ensures
            clients.deep_view().no_duplicates(),
            clients.deep_view().to_set() == self@.key_packages.dom(),
            clients.len() == self@.key_packages.dom().len(),
    {
        self.key_packages.client_ids()
    }

    /// Registers the group `group_id` with `creator_id` as its only member,
    /// and returns its record. A group that is registered already is left as
    /// it is, and the request is refused.
    pub fn create_group(&mut self, group_id: GroupId, creator_id: ClientId) -> (outcome: Result<
        GroupState,
        ServiceError,
    >)
        ensures
            final(self)@.groups == after_create(old(self)@.groups, group_id@, creator_id@),
            group_outcome_view(outcome) == create_outcome(
                old(self)@.groups,
                group_id@,
                creator_id@,
            ),
            groups_valid(final(self)@.groups),
            final(self)@.key_packages == old(self)@.key_packages,
    {
        self.groups.create_group(group_id, creator_id)
    }

    /// Adds `client_id` to the members of the group `group_id`, unless it is
    /// one already, and returns the group's record. The request is refused
    /// where no such group is registered.
    pub fn join_group(&mut self, group_id: &GroupId, client_id: ClientId) -> (outcome: Result<
        GroupState,
        ServiceError,
    >)
        ensures
            final(self)@.groups == after_join(old(self)@.groups, group_id@, client_id@),
            group_outcome_view(outcome) == join_outcome(old(self)@.groups, group_id@, client_id@),
            groups_valid(final(self)@.groups),
            final(self)@.key_packages == old(self)@.key_packages,
    {
        self.groups.join_group(group_id, client_id)
    }

    /// Appends a message of `sender_id` to the log of the group `group_id`.
    /// The request is refused where no such group is registered, and where
    /// the sender is not a member of it at this moment. Nobody is notified.
    pub fn relay_message(
        &mut self,
        group_id: &GroupId,
        sender_id: ClientId,
        message: Vec<u8>,
        message_type: MlsMessageType,
    ) -> (outcome: Result<(), ServiceError>)
        ensures
            final(self)@.groups == after_relay(
                old(self)@.groups,
                group_id@,
                sender_id@,
                message@,
                message_type,
            ),
            unit_outcome_view(outcome) == relay_outcome(old(self)@.groups, group_id@, sender_id@),
            groups_valid(final(self)@.groups),
            final(self)@.key_packages == old(self)@.key_packages,
    {
        self.groups.relay_message(group_id, sender_id, message, message_type)
    }

    /// The record of the group `group_id`, if it is registered.
    pub fn get_group(&self, group_id: &GroupId) -> (found: Option<GroupState>)
        ensures
            found is Some <==> self@.groups.contains_key(group_id@),
            found matches Some(group) ==> group@ == self@.groups[group_id@] && group.wf(),
            groups_valid(self@.groups),
    {
        self.groups.get_group(group_id)
    }
}

} // verus!
