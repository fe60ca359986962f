use mls_delivery_service::directory::KeyPackageDirectory;
use mls_delivery_service::dispatch::{
    handle_directory_read, handle_directory_write, handle_message, handle_registry,
    invalid_request, malformed_request,
};
use mls_delivery_service::message::{DeliveryMessage, MlsMessageType, Route};
use mls_delivery_service::registry::GroupRegistry;
use mls_delivery_service::service::DeliveryService;

fn id(text: &str) -> String {
    text.to_string()
}

fn error(text: &str) -> DeliveryMessage {
    DeliveryMessage::Error { message: text.to_string() }
}

fn requests() -> Vec<DeliveryMessage> {
    vec![
        DeliveryMessage::StoreKeyPackage { client_id: id("a"), key_package: vec![1] },
        DeliveryMessage::FetchKeyPackage { client_id: id("a") },
        DeliveryMessage::ListKeyPackages,
        DeliveryMessage::CreateGroup { group_id: id("g"), creator_id: id("a") },
        DeliveryMessage::JoinGroup { group_id: id("g"), client_id: id("b") },
        DeliveryMessage::RelayMessage {
            group_id: id("g"),
            sender_id: id("a"),
            message: vec![1],
            message_type: MlsMessageType::Commit,
        },
    ]
}

fn responses() -> Vec<DeliveryMessage> {
    vec![
        DeliveryMessage::KeyPackageResponse { client_id: id("a"), key_package: None },
        DeliveryMessage::KeyPackageResponse { client_id: id("a"), key_package: Some(vec![1]) },
        DeliveryMessage::KeyPackageListResponse { clients: vec![id("a")] },
        DeliveryMessage::GroupResponse { group_id: id("g"), members: vec![id("a")] },
        DeliveryMessage::MessageResponse { success: true, message: id("ok") },
        DeliveryMessage::Error { message: id("no") },
    ]
}

#[test]
fn requests_are_routed_to_their_part() {
    let routes: Vec<Route> = requests().iter().map(|request| request.route()).collect();
    assert_eq!(
        routes,
        vec![
            Route::DirectoryWrite,
            Route::DirectoryRead,
            Route::DirectoryRead,
            Route::Registry,
            Route::Registry,
            Route::Registry,
        ]
    );
    for request in requests() {
        assert!(request.is_request());
    }
}

#[test]
fn responses_are_no_requests() {
    for response in responses() {
        assert_eq!(response.route(), Route::Invalid);
        assert!(!response.is_request());
    }
}

#[test]
fn store_request_is_acknowledged() {
    let mut service = DeliveryService::new();
    let response = handle_message(
        DeliveryMessage::StoreKeyPackage { client_id: id("alice"), key_package: vec![1, 2] },
        &mut service,
    );
    assert_eq!(
        response,
        DeliveryMessage::MessageResponse {
            success: true,
            message: id("KeyPackage stored for alice"),
        }
    );
    assert_eq!(service.fetch_key_package(&id("alice")), Some(vec![1, 2]));
}

#[test]
fn fetch_request_returns_the_package() {
    let mut service = DeliveryService::new();
    service.store_key_package(id("alice"), vec![1, 2]).unwrap();
    let response =
        handle_message(DeliveryMessage::FetchKeyPackage { client_id: id("alice") }, &mut service);
    assert_eq!(
        response,
        DeliveryMessage::KeyPackageResponse { client_id: id("alice"), key_package: Some(vec![1, 2]) }
    );
}

#[test]
fn fetch_request_for_an_unknown_identity_is_answered_with_none() {
    let mut service = DeliveryService::new();
    let response = handle_message(
        DeliveryMessage::FetchKeyPackage { client_id: id("nonexistent_user") },
        &mut service,
    );
    assert_eq!(
        response,
        DeliveryMessage::KeyPackageResponse { client_id: id("nonexistent_user"), key_package: None }
    );
}

#[test]
fn list_request_returns_the_identities() {
    let mut service = DeliveryService::new();
    assert_eq!(
        handle_message(DeliveryMessage::ListKeyPackages, &mut service),
        DeliveryMessage::KeyPackageListResponse { clients: vec![] }
    );
    service.store_key_package(id("b"), vec![]).unwrap();
    service.store_key_package(id("a"), vec![]).unwrap();
    match handle_message(DeliveryMessage::ListKeyPackages, &mut service) {
        DeliveryMessage::KeyPackageListResponse { mut clients } => {
            clients.sort();
            assert_eq!(clients, vec![id("a"), id("b")]);
        }
        other => panic!("unexpected response {:?}", other),
    }
}

#[test]
fn create_request_returns_the_members() {
    let mut service = DeliveryService::new();
    let response = handle_message(
        DeliveryMessage::CreateGroup { group_id: id("g1"), creator_id: id("alice") },
        &mut service,
    );
    assert_eq!(
        response,
        DeliveryMessage::GroupResponse { group_id: id("g1"), members: vec![id("alice")] }
    );
}

#[test]
fn create_request_for_a_registered_group_is_an_error() {
    let mut service = DeliveryService::new();
    service.create_group(id("g1"), id("alice")).unwrap();
    let response = handle_message(
        DeliveryMessage::CreateGroup { group_id: id("g1"), creator_id: id("bob") },
        &mut service,
    );
    assert_eq!(response, error("Failed to create group: Group already exists: g1"));
    assert_eq!(service.get_group(&id("g1")).unwrap().members, vec![id("alice")]);
}

#[test]
fn join_request_returns_the_members() {
    let mut service = DeliveryService::new();
    service.create_group(id("g1"), id("alice")).unwrap();
    let response = handle_message(
        DeliveryMessage::JoinGroup { group_id: id("g1"), client_id: id("bob") },
        &mut service,
    );
    assert_eq!(
        response,
        DeliveryMessage::GroupResponse { group_id: id("g1"), members: vec![id("alice"), id("bob")] }
    );
}

#[test]
fn join_request_for_an_unknown_group_is_an_error() {
    let mut service = DeliveryService::new();
    let response = handle_message(
        DeliveryMessage::JoinGroup { group_id: id("g9"), client_id: id("bob") },
        &mut service,
    );
    assert_eq!(response, error("Failed to join group: Group not found: g9"));
}

#[test]
fn relay_request_is_acknowledged() {
    let mut service = DeliveryService::new();
    service.create_group(id("g1"), id("alice")).unwrap();
    let response = handle_message(
        DeliveryMessage::RelayMessage {
            group_id: id("g1"),
            sender_id: id("alice"),
            message: vec![4, 5, 6],
            message_type: MlsMessageType::Application,
        },
        &mut service,
    );
    assert_eq!(
        response,
        DeliveryMessage::MessageResponse {
            success: true,
            message: id("Message relayed successfully"),
        }
    );
    assert_eq!(
        service.get_group(&id("g1")).unwrap().messages,
        vec![(id("alice"), vec![4, 5, 6], MlsMessageType::Application)]
    );
}

#[test]
fn relay_request_of_a_stranger_is_an_error() {
    let mut service = DeliveryService::new();
    service.create_group(id("g1"), id("alice")).unwrap();
    let response = handle_message(
        DeliveryMessage::RelayMessage {
            group_id: id("g1"),
            sender_id: id("carol"),
            message: vec![4],
            message_type: MlsMessageType::Application,
        },
        &mut service,
    );
    assert_eq!(response, error("Failed to relay message: Sender not in group: carol"));
    assert!(service.get_group(&id("g1")).unwrap().messages.is_empty());
}

#[test]
fn relay_request_to_an_unknown_group_is_an_error() {
    let mut service = DeliveryService::new();
    let response = handle_message(
        DeliveryMessage::RelayMessage {
            group_id: id("g7"),
            sender_id: id("alice"),
            message: vec![],
            message_type: MlsMessageType::Welcome,
        },
        &mut service,
    );
    assert_eq!(response, error("Failed to relay message: Group not found: g7"));
}

#[test]
fn a_response_received_as_a_request_is_rejected() {
    let mut service = DeliveryService::new();
    service.store_key_package(id("a"), vec![1]).unwrap();
    service.create_group(id("g"), id("a")).unwrap();
    for response in responses() {
        assert_eq!(handle_message(response, &mut service), error("Invalid message type for server"));
    }
    assert_eq!(service.list_key_packages(), vec![id("a")]);
    assert_eq!(service.get_group(&id("g")).unwrap().members, vec![id("a")]);
}

#[test]
fn every_answer_is_a_response() {
    let mut service = DeliveryService::new();
    for request in requests() {
        assert!(!handle_message(request, &mut service).is_request());
    }
}

#[test]
fn invalid_and_malformed_requests_have_fixed_texts() {
    assert_eq!(invalid_request(), error("Invalid message type for server"));
    assert_eq!(
        malformed_request(&id("expected value at line 1 column 1")),
        error("Invalid message format: expected value at line 1 column 1")
    );
    assert_eq!(malformed_request(&id("")), error("Invalid message format: "));
}

#[test]
fn the_parts_answer_as_the_whole_does() {
    let mut service = DeliveryService::new();
    let mut directory = KeyPackageDirectory::new();
    let mut registry = GroupRegistry::new();
    let mut all = requests();
    all.extend(requests());
    for request in all {
        let whole = handle_message(request.clone(), &mut service);
        let part = match request.route() {
            Route::DirectoryRead => handle_directory_read(request, &directory),
            Route::DirectoryWrite => handle_directory_write(request, &mut directory),
            Route::Registry => handle_registry(request, &mut registry),
            Route::Invalid => invalid_request(),
        };
        assert_eq!(part, whole);
    }
    assert_eq!(registry.get_group(&id("g")), service.get_group(&id("g")));
    assert_eq!(directory.fetch(&id("a")), service.fetch_key_package(&id("a")));
}

#[test]
fn message_clone_is_equal() {
    for message in requests().into_iter().chain(responses()) {
        assert_eq!(message.clone(), message);
    }
}
