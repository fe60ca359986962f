//! The protocol dispatcher: from a request and the state to a response.

use crate::directory::{lookup, KeyPackageDirectory};
use crate::error::{ErrorView, ServiceError};
use crate::group::{GroupState, GroupView, LogEntry};
use crate::identity::GroupId;
use crate::message::{DeliveryMessage, MessageView, Route};
use crate::registry::{
    after_create, after_join, after_relay, create_outcome, group_outcome_view, groups_valid,
    join_outcome, relay_outcome, GroupRegistry, GroupsView,
};
use crate::service::{DeliveryService, ServiceView};
use vstd::prelude::*;
use vstd::string::StringExecFns;

verus! {

/// The response to a request that stored a key package.
pub open spec fn stored_answer(client_id: Seq<char>) -> MessageView {
    MessageView::MessageResponse { success: true, message: "KeyPackage stored for "@ + client_id }
}

/// The response to a request for the key package of `client_id`: the package
/// where one is stored, and else an explicit `None`, which is no error.
pub open spec fn fetched_answer(key_packages: Map<Seq<char>, Seq<u8>>, client_id: Seq<char>)
    -> MessageView {
    MessageView::KeyPackageResponse { client_id, key_package: lookup(key_packages, client_id) }
}

/// Whether `response` lists the identities that have a key package, each
/// once. The order is not fixed.
pub open spec fn is_listing(key_packages: Map<Seq<char>, Seq<u8>>, response: MessageView) -> bool {
    &&& response matches MessageView::KeyPackageListResponse { clients }
    &&& clients.no_duplicates()
    &&& clients.to_set() == key_packages.dom()
}

/// The response to a request that returns a group record: the members of the
/// group, or the refusal behind `prefix`.
pub open spec fn group_answer(
    group_id: Seq<char>,
    outcome: Result<GroupView, ErrorView>,
    prefix: Seq<char>,
) -> MessageView {
    match outcome {
        Ok(group) => MessageView::GroupResponse { group_id, members: group.members },
        Err(error) => MessageView::Error { message: prefix + error.message() },
    }
}

/// The response to a request to relay a message.
pub open spec fn relay_answer(outcome: Result<(), ErrorView>) -> MessageView {
    match outcome {
        Ok(_) => MessageView::MessageResponse {
            success: true,
            message: "Message relayed successfully"@,
        },
        Err(error) => MessageView::Error {
            message: "Failed to relay message: "@ + error.message(),
        },
    }
}

/// The response to an envelope that is no request.
pub open spec fn invalid_answer() -> MessageView {
    MessageView::Error { message: "Invalid message type for server"@ }
}

/// The response to bytes that could not be read as an envelope; `detail`
/// says what was wrong with them.
pub open spec fn malformed_answer(detail: Seq<char>) -> MessageView {
    MessageView::Error { message: "Invalid message format: "@ + detail }
}

/// Whether `response` is what the service answers to `request`, a request
/// for the directory, where the directory holds `key_packages`. The listing
/// has many answers, the other requests one.
pub open spec fn directory_answers(
    key_packages: Map<Seq<char>, Seq<u8>>,
    request: MessageView,
    response: MessageView,
) -> bool {
    match request {
        MessageView::StoreKeyPackage { client_id, .. } => response == stored_answer(client_id),
        MessageView::FetchKeyPackage { client_id } => response == fetched_answer(
            key_packages,
            client_id,
        ),
        MessageView::ListKeyPackages => is_listing(key_packages, response),
        _ => false,
    }
}

/// The directory after the service has answered `request`.
pub open spec fn directory_after(key_packages: Map<Seq<char>, Seq<u8>>, request: MessageView)
    -> Map<Seq<char>, Seq<u8>> {
    match request {
        MessageView::StoreKeyPackage { client_id, key_package } => key_packages.insert(
            client_id,
            key_package,
        ),
        _ => key_packages,
    }
}

/// What the service answers to `request`, a request for the registry, where
/// the registry holds `groups`.
pub open spec fn registry_answer(groups: GroupsView, request: MessageView) -> MessageView {
    match request {
        MessageView::CreateGroup { group_id, creator_id } => group_answer(
            group_id,
            create_outcome(groups, group_id, creator_id),
            "Failed to create group: "@,
        ),
        MessageView::JoinGroup { group_id, client_id } => group_answer(
            group_id,
            join_outcome(groups, group_id, client_id),
            "Failed to join group: "@,
        ),
        MessageView::RelayMessage { group_id, sender_id, .. } => relay_answer(
            relay_outcome(groups, group_id, sender_id),
        ),
        _ => invalid_answer(),
    }
}

/// The registry after the service has answered `request`.
pub open spec fn registry_after(groups: GroupsView, request: MessageView) -> GroupsView {
    match request {
        MessageView::CreateGroup { group_id, creator_id } => after_create(
            groups,
            group_id,
            creator_id,
        ),
        MessageView::JoinGroup { group_id, client_id } => after_join(groups, group_id, client_id),
        MessageView::RelayMessage { group_id, sender_id, message, message_type } => after_relay(
            groups,
            group_id,
            sender_id,
            message,
            message_type,
        ),
        _ => groups,
    }
}

/// Whether `response` is what the service answers to the envelope `request`
/// in the state `state`.
pub open spec fn answers(state: ServiceView, request: MessageView, response: MessageView) -> bool {
    match request.route() {
        Route::DirectoryRead | Route::DirectoryWrite => directory_answers(
            state.key_packages,
            request,
            response,
        ),
        Route::Registry => response == registry_answer(state.groups, request),
        Route::Invalid => response == invalid_answer(),
    }
}

/// The state after the service has answered the envelope `request` in the
/// state `state`.
pub open spec fn after_request(state: ServiceView, request: MessageView) -> ServiceView {
    ServiceView {
        key_packages: directory_after(state.key_packages, request),
        groups: registry_after(state.groups, request),
    }
}

/// The state after the service has answered each of `requests` in turn.
pub open spec fn after_requests(state: ServiceView, requests: Seq<MessageView>) -> ServiceView
    decreases requests.len(),
{
    if requests.len() == 0 {
        state
    } else {
        after_request(after_requests(state, requests.drop_last()), requests.last())
    }
}

/// The log of the group `id`; a group that is not registered has none.
pub open spec fn log_of(groups: GroupsView, id: Seq<char>) -> Seq<LogEntry> {
    if groups.contains_key(id) {
        groups[id].messages
    } else {
        Seq::empty()
    }
}

/// The entries that `requests`, answered in turn from the state `state`,
/// relay into the group `id`: one for each request to relay to that group
/// that the service accepts, in the order of the requests.
pub open spec fn relayed_into(state: ServiceView, requests: Seq<MessageView>, id: Seq<char>) -> Seq<
    LogEntry,
>
    decreases requests.len(),
{
    if requests.len() == 0 {
        Seq::empty()
    } else {
        let earlier = relayed_into(state, requests.drop_last(), id);
        let before = after_requests(state, requests.drop_last());
        match requests.last() {
            MessageView::RelayMessage { group_id, sender_id, message, message_type } => {
                if group_id == id && relay_outcome(before.groups, group_id, sender_id) is Ok {
                    earlier.push((sender_id, message, message_type))
                } else {
                    earlier
                }
            },
            _ => earlier,
        }
    }
}

/// The response to an envelope that is no request.
pub fn invalid_request() -> (response: DeliveryMessage)
    ensures
        response@ == invalid_answer(),
{
    DeliveryMessage::Error { message: String::from_str("Invalid message type for server") }
}

/// The response to bytes that could not be read as an envelope.
pub fn malformed_request(detail: &String) -> (response: DeliveryMessage)
    ensures
        response@ == malformed_answer(detail@),
{
    DeliveryMessage::Error {
        message: String::from_str("Invalid message format: ").concat(detail.as_str()),
    }
}

/// The response that tells of a refusal, behind `prefix`.
fn refusal(prefix: &str, error: &ServiceError) -> (response: DeliveryMessage)
    ensures
        response@ == (MessageView::Error { message: prefix@ + error@.message() }),
{
    let text = error.message();
    DeliveryMessage::Error { message: String::from_str(prefix).concat(text.as_str()) }
}

/// The response to a request that returns a group record.
fn group_response(group_id: GroupId, outcome: Result<GroupState, ServiceError>, prefix: &str) -> (response:
    DeliveryMessage)
    ensures
        response@ == group_answer(group_id@, group_outcome_view(outcome), prefix@),
{
    match outcome {
        Ok(group) => DeliveryMessage::GroupResponse { group_id, members: group.members },
        Err(error) => refusal(prefix, &error),
    }
}

/// Answers a request that reads the key-package directory.
pub fn handle_directory_read(message: DeliveryMessage, directory: &KeyPackageDirectory) -> (response:
    DeliveryMessage)
    requires
        message@.route() == Route::DirectoryRead,
    ensures
        directory_answers(directory@, message@, response@),
{
    match message {
        DeliveryMessage::FetchKeyPackage { client_id } => {
            let key_package = directory.fetch(&client_id);
            DeliveryMessage::KeyPackageResponse { client_id, key_package }
        },
        _ => {
            let clients = directory.client_ids();
            DeliveryMessage::KeyPackageListResponse { clients }
        },
    }
}

/// Answers a request that changes the key-package directory.
pub fn handle_directory_write(message: DeliveryMessage, directory: &mut KeyPackageDirectory) -> (response:
    DeliveryMessage)
    requires
        message@.route() == Route::DirectoryWrite,
    ensures
        directory_answers(old(directory)@, message@, response@),
        final(directory)@ == directory_after(old(directory)@, message@),
{
    match message {
        DeliveryMessage::StoreKeyPackage { client_id, key_package } => {
            let response = DeliveryMessage::MessageResponse {
                success: true,
                message: String::from_str("KeyPackage stored for ").concat(client_id.as_str()),
            };
            directory.store(client_id, key_package);
            response
        },
        _ => invalid_request(),
    }
}

/// Answers a request that works on the group registry.
pub fn handle_registry(message: DeliveryMessage, registry: &mut GroupRegistry) -> (response:
    DeliveryMessage)
    requires
        message@.route() == Route::Registry,
    ensures
        response@ == registry_answer(old(registry)@, message@),
        final(registry)@ == registry_after(old(registry)@, message@),
        groups_valid(final(registry)@),
{
    match message {
        DeliveryMessage::CreateGroup { group_id, creator_id } => {
            let outcome = registry.create_group(group_id.clone(), creator_id);
            group_response(group_id, outcome, "Failed to create group: ")
        },
        DeliveryMessage::JoinGroup { group_id, client_id } => {
            let outcome = registry.join_group(&group_id, client_id);
            group_response(group_id, outcome, "Failed to join group: ")
        },
        DeliveryMessage::RelayMessage { group_id, sender_id, message, message_type } => {
            match registry.relay_message(&group_id, sender_id, message, message_type) {
                Ok(()) => DeliveryMessage::MessageResponse {
                    success: true,
                    message: String::from_str("Message relayed successfully"),
                },
                Err(error) => refusal("Failed to relay message: ", &error),
            }
        },
        _ => invalid_request(),
    }
}

/// Answers one envelope received from a client. A request is routed to the
/// directory or to the registry; anything else is refused.
pub fn handle_message(message: DeliveryMessage, service: &mut DeliveryService) -> (response:
    DeliveryMessage)
    ensures
        answers(old(service)@, message@, response@),
        final(service)@ == after_request(old(service)@, message@),
        !response@.is_request(),
{
    match message.route() {
        Route::DirectoryRead => handle_directory_read(message, &service.key_packages),
        Route::DirectoryWrite => handle_directory_write(message, &mut service.key_packages),
        Route::Registry => handle_registry(message, &mut service.groups),
        Route::Invalid => invalid_request(),
    }
}

/// The log of a group holds the accepted relays in the order of the calls:
/// whatever requests the service answers, and in whatever order, the log of
/// a group afterwards is its log before, followed by the entries of the
/// accepted requests to relay to it, first come, first logged. Nothing else
/// is added, nothing is dropped, and nothing changes place.
pub proof fn lemma_log_keeps_call_order(
    state: ServiceView,
    requests: Seq<MessageView>,
    id: Seq<char>,
)
    ensures
        log_of(after_requests(state, requests).groups, id) == log_of(state.groups, id)
            + relayed_into(state, requests, id),
        state.groups.contains_key(id) ==> after_requests(state, requests).groups.contains_key(id),
    decreases requests.len(),
{
    if requests.len() == 0 {
        assert(log_of(state.groups, id) + Seq::<LogEntry>::empty() =~= log_of(state.groups, id));
    } else {
        let earlier = requests.drop_last();
        lemma_log_keeps_call_order(state, earlier, id);
        let before = after_requests(state, earlier);
        let after = after_requests(state, requests);
        let logged = relayed_into(state, earlier, id);
        match requests.last() {
            MessageView::RelayMessage { group_id, sender_id, message, message_type } => {
                if group_id == id && relay_outcome(before.groups, group_id, sender_id) is Ok {
                    assert(log_of(after.groups, id) =~= log_of(state.groups, id) + logged.push(
                        (sender_id, message, message_type),
                    ));
                }
            },
            MessageView::CreateGroup { group_id, creator_id } => {
                if group_id == id && !before.groups.contains_key(id) {
                    assert(logged =~= Seq::<LogEntry>::empty());
                    assert(log_of(after.groups, id) =~= log_of(state.groups, id) + logged);
                }
            },
            _ => {},
        }
    }
}

/// The directory and the registry are independent: a request for the one
/// leaves the other as it is.
pub proof fn lemma_requests_touch_one_part(state: ServiceView, request: MessageView)
    ensures
        request.route() != Route::DirectoryWrite ==> after_request(state, request).key_packages
            == state.key_packages,
        request.route() != Route::Registry ==> after_request(state, request).groups
            == state.groups,
{
}

} // verus!
