//! The request and response envelopes exchanged with clients.

use crate::identity::{clone_bytes, clone_clients, ClientId, GroupId};
use vstd::prelude::*;

verus! {

/// Kind of a relayed protocol message. The service records it and never
/// interprets it.
#[derive(Debug, Clone, Copy, PartialEq, Eq, Structural)]
pub enum MlsMessageType {
    Welcome,
    Add,
    Application,
    Commit,
    Proposal,
}

impl View for MlsMessageType {
    type V = MlsMessageType;

    open spec fn view(&self) -> MlsMessageType {
        *self
    }
}

impl DeepView for MlsMessageType {
    type V = MlsMessageType;

    open spec fn deep_view(&self) -> MlsMessageType {
        *self
    }
}

/// An envelope: the first six kinds are requests of a client, the other five
/// are responses of the service.
#[derive(Debug, PartialEq, Eq)]
#[allow(inconsistent_fields)]
pub enum DeliveryMessage {
    /// Publish `key_package` as the key package of `client_id`.
    StoreKeyPackage { client_id: ClientId, key_package: Vec<u8> },
    /// Ask for the key package of `client_id`.
    FetchKeyPackage { client_id: ClientId },
    /// Ask for the identities that have a key package published.
    ListKeyPackages,
    /// Register the group `group_id` with `creator_id` as its only member.
    CreateGroup { group_id: GroupId, creator_id: ClientId },
    /// Add `client_id` to the members of the group `group_id`.
    JoinGroup { group_id: GroupId, client_id: ClientId },
    /// Append `message` to the log of the group `group_id`.
    RelayMessage {
        group_id: GroupId,
        sender_id: ClientId,
        message: Vec<u8>,
        message_type: MlsMessageType,
    },
    /// The key package of `client_id`, or `None` where it has published none.
    KeyPackageResponse { client_id: ClientId, key_package: Option<Vec<u8>> },
    /// The identities that have a key package published.
    KeyPackageListResponse { clients: Vec<ClientId> },
    /// The members of the group `group_id`.
    GroupResponse { group_id: GroupId, members: Vec<ClientId> },
    /// The request was carried out.
    MessageResponse { success: bool, message: String },
    /// The request was refused or could not be read.
    Error { message: String },
}

/// Mathematical model of an envelope.
#[allow(inconsistent_fields)]
pub enum MessageView {
    StoreKeyPackage { client_id: Seq<char>, key_package: Seq<u8> },
    FetchKeyPackage { client_id: Seq<char> },
    ListKeyPackages,
    CreateGroup { group_id: Seq<char>, creator_id: Seq<char> },
    JoinGroup { group_id: Seq<char>, client_id: Seq<char> },
    RelayMessage {
        group_id: Seq<char>,
        sender_id: Seq<char>,
        message: Seq<u8>,
        message_type: MlsMessageType,
    },
    KeyPackageResponse { client_id: Seq<char>, key_package: Option<Seq<u8>> },
    KeyPackageListResponse { clients: Seq<Seq<char>> },
    GroupResponse { group_id: Seq<char>, members: Seq<Seq<char>> },
    MessageResponse { success: bool, message: Seq<char> },
    Error { message: Seq<char> },
}

/// The part of the service's state that a request works on.
#[derive(Debug, Clone, Copy, PartialEq, Eq, Structural)]
pub enum Route {
    /// The request reads the key-package directory.
    DirectoryRead,
    /// The request changes the key-package directory.
    DirectoryWrite,
    /// The request works on the group registry.
    Registry,
    /// The envelope is no request.
    Invalid,
}

impl MessageView {
    /// Whether the envelope is one of the six requests.
    pub open spec fn is_request(self) -> bool {
        self.route() != Route::Invalid
    }

    /// The part of the state that the envelope, taken as a request, works on.
    pub open spec fn route(self) -> Route {
        match self {
            MessageView::StoreKeyPackage { .. } => Route::DirectoryWrite,
            MessageView::FetchKeyPackage { .. } => Route::DirectoryRead,
            MessageView::ListKeyPackages => Route::DirectoryRead,
            MessageView::CreateGroup { .. } => Route::Registry,
            MessageView::JoinGroup { .. } => Route::Registry,
            MessageView::RelayMessage { .. } => Route::Registry,
            _ => Route::Invalid,
        }
    }
}

impl View for DeliveryMessage {
    type V = MessageView;

    open spec fn view(&self) -> MessageView {
        match self {
            DeliveryMessage::StoreKeyPackage { client_id, key_package } => {
                MessageView::StoreKeyPackage { client_id: client_id@, key_package: key_package@ }
            },
            DeliveryMessage::FetchKeyPackage { client_id } => MessageView::FetchKeyPackage {
                client_id: client_id@,
            },
            DeliveryMessage::ListKeyPackages => MessageView::ListKeyPackages,
            DeliveryMessage::CreateGroup { group_id, creator_id } => MessageView::CreateGroup {
                group_id: group_id@,
                creator_id: creator_id@,
            },
            DeliveryMessage::JoinGroup { group_id, client_id } => MessageView::JoinGroup {
                group_id: group_id@,
                client_id: client_id@,
            },
            DeliveryMessage::RelayMessage { group_id, sender_id, message, message_type } => {
                MessageView::RelayMessage {
                    group_id: group_id@,
                    sender_id: sender_id@,
                    message: message@,
                    message_type: *message_type,
                }
            },
            DeliveryMessage::KeyPackageResponse { client_id, key_package } => {
                MessageView::KeyPackageResponse {
                    client_id: client_id@,
                    key_package: match key_package {
                        Some(bytes) => Some(bytes@),
                        None => None,
                    },
                }
            },
            DeliveryMessage::KeyPackageListResponse { clients } => {
                MessageView::KeyPackageListResponse { clients: clients.deep_view() }
            },
            DeliveryMessage::GroupResponse { group_id, members } => MessageView::GroupResponse {
                group_id: group_id@,
                members: members.deep_view(),
            },
            DeliveryMessage::MessageResponse { success, message } => {
                MessageView::MessageResponse { success: *success, message: message@ }
            },
            DeliveryMessage::Error { message } => MessageView::Error { message: message@ },
        }
    }
}

impl Clone for DeliveryMessage {
    fn clone(&self) -> (copy: Self)
        ensures
            copy@ == self@,
    {
        match self {
            DeliveryMessage::StoreKeyPackage { client_id, key_package } => {
                DeliveryMessage::StoreKeyPackage {
                    client_id: client_id.clone(),
                    key_package: clone_bytes(key_package),
                }
            },
            DeliveryMessage::FetchKeyPackage { client_id } => DeliveryMessage::FetchKeyPackage {
                client_id: client_id.clone(),
            },
            DeliveryMessage::ListKeyPackages => DeliveryMessage::ListKeyPackages,
            DeliveryMessage::CreateGroup { group_id, creator_id } => DeliveryMessage::CreateGroup {
                group_id: group_id.clone(),
                creator_id: creator_id.clone(),
            },
            DeliveryMessage::JoinGroup { group_id, client_id } => DeliveryMessage::JoinGroup {
                group_id: group_id.clone(),
                client_id: client_id.clone(),
            },
            DeliveryMessage::RelayMessage { group_id, sender_id, message, message_type } => {
                DeliveryMessage::RelayMessage {
                    group_id: group_id.clone(),
                    sender_id: sender_id.clone(),
                    message: clone_bytes(message),
                    message_type: *message_type,
                }
            },
            DeliveryMessage::KeyPackageResponse { client_id, key_package } => {
                DeliveryMessage::KeyPackageResponse {
                    client_id: client_id.clone(),
                    key_package: match key_package {
                        Some(bytes) => Some(clone_bytes(bytes)),
                        None => None,
                    },
                }
            },
            DeliveryMessage::KeyPackageListResponse { clients } => {
                DeliveryMessage::KeyPackageListResponse { clients: clone_clients(clients) }
            },
            DeliveryMessage::GroupResponse { group_id, members } => DeliveryMessage::GroupResponse {
                group_id: group_id.clone(),
                members: clone_clients(members),
            },
            DeliveryMessage::MessageResponse { success, message } => {
                DeliveryMessage::MessageResponse { success: *success, message: message.clone() }
            },
            DeliveryMessage::Error { message } => DeliveryMessage::Error {
                message: message.clone(),
            },
        }
    }
}

impl DeliveryMessage {
    /// The part of the state that the envelope, taken as a request, works on.
    pub fn route(&self) -> (route: Route)
        ensures
            route == self@.route(),
    {
        match self {
            DeliveryMessage::StoreKeyPackage { .. } => Route::DirectoryWrite,
            DeliveryMessage::FetchKeyPackage { .. } => Route::DirectoryRead,
            DeliveryMessage::ListKeyPackages => Route::DirectoryRead,
            DeliveryMessage::CreateGroup { .. } => Route::Registry,
            DeliveryMessage::JoinGroup { .. } => Route::Registry,
            DeliveryMessage::RelayMessage { .. } => Route::Registry,
            _ => Route::Invalid,
        }
    }

    /// Whether the envelope is one of the six requests.
    pub fn is_request(&self) -> (request: bool)
        ensures
            request == self@.is_request(),
    {
        match self.route() {
            Route::Invalid => false,
            _ => true,
        }
    }
}

} // verus!
