use mls_delivery_service::directory::KeyPackageDirectory;
use mls_delivery_service::error::ServiceError;
use mls_delivery_service::group::GroupState;
use mls_delivery_service::message::MlsMessageType;
use mls_delivery_service::registry::GroupRegistry;
use mls_delivery_service::service::DeliveryService;

fn id(text: &str) -> String {
    text.to_string()
}

#[test]
fn new_group_has_only_its_creator() {
    let group = GroupState::new(id("g1"), id("alice"));
    assert_eq!(group.id, "g1");
    assert_eq!(group.creator, "alice");
    assert_eq!(group.members, vec![id("alice")]);
    assert!(group.messages.is_empty());
}

#[test]
fn add_member_appends_a_newcomer() {
    let mut group = GroupState::new(id("g1"), id("alice"));
    group.add_member(id("bob"));
    group.add_member(id("carol"));
    assert_eq!(group.members, vec![id("alice"), id("bob"), id("carol")]);
}

#[test]
fn add_member_skips_a_member() {
    let mut group = GroupState::new(id("g1"), id("alice"));
    group.add_member(id("bob"));
    group.add_member(id("alice"));
    group.add_member(id("bob"));
    assert_eq!(group.members, vec![id("alice"), id("bob")]);
}

#[test]
fn add_message_appends_in_order() {
    let mut group = GroupState::new(id("g1"), id("alice"));
    group.add_member(id("bob"));
    group.add_message(id("alice"), vec![1], MlsMessageType::Commit);
    group.add_message(id("bob"), vec![2, 3], MlsMessageType::Application);
    group.add_message(id("alice"), vec![1], MlsMessageType::Commit);
    assert_eq!(
        group.messages,
        vec![
            (id("alice"), vec![1], MlsMessageType::Commit),
            (id("bob"), vec![2, 3], MlsMessageType::Application),
            (id("alice"), vec![1], MlsMessageType::Commit),
        ]
    );
    assert_eq!(group.members, vec![id("alice"), id("bob")]);
}

#[test]
fn is_member_tells_members_apart() {
    let mut group = GroupState::new(id("g1"), id("alice"));
    group.add_member(id("bob"));
    assert!(group.is_member(&id("alice")));
    assert!(group.is_member(&id("bob")));
    assert!(!group.is_member(&id("carol")));
    assert!(!group.is_member(&id("")));
}

#[test]
fn group_clone_is_equal_and_independent() {
    let mut group = GroupState::new(id("g1"), id("alice"));
    group.add_message(id("alice"), vec![9, 8], MlsMessageType::Welcome);
    let copy = group.clone();
    assert_eq!(copy, group);
    group.add_member(id("bob"));
    assert_eq!(copy.members, vec![id("alice")]);
}

#[test]
fn directory_starts_empty() {
    let directory = KeyPackageDirectory::new();
    assert_eq!(directory.fetch(&id("alice")), None);
    assert!(directory.client_ids().is_empty());
}

#[test]
fn directory_store_then_fetch() {
    let mut directory = KeyPackageDirectory::new();
    directory.store(id("alice"), vec![1, 2, 3]);
    directory.store(id("bob"), vec![]);
    assert_eq!(directory.fetch(&id("alice")), Some(vec![1, 2, 3]));
    assert_eq!(directory.fetch(&id("bob")), Some(vec![]));
    assert_eq!(directory.fetch(&id("carol")), None);
}

#[test]
fn directory_store_overwrites() {
    let mut directory = KeyPackageDirectory::new();
    directory.store(id("alice"), vec![1, 2, 3]);
    directory.store(id("bob"), vec![7]);
    directory.store(id("alice"), vec![4, 5]);
    assert_eq!(directory.fetch(&id("alice")), Some(vec![4, 5]));
    assert_eq!(directory.fetch(&id("bob")), Some(vec![7]));
    assert_eq!(directory.client_ids().len(), 2);
}

#[test]
fn directory_lists_each_identity_once() {
    let mut directory = KeyPackageDirectory::new();
    directory.store(id("carol"), vec![1]);
    directory.store(id("alice"), vec![2]);
    directory.store(id("carol"), vec![3]);
    directory.store(id("bob"), vec![4]);
    let mut ids = directory.client_ids();
    ids.sort();
    assert_eq!(ids, vec![id("alice"), id("bob"), id("carol")]);
}

#[test]
fn store_key_package_always_succeeds() {
    let mut service = DeliveryService::new();
    assert_eq!(service.store_key_package(id("alice"), vec![1]), Ok(()));
    assert_eq!(service.store_key_package(id("alice"), vec![2]), Ok(()));
    assert_eq!(service.store_key_package(id(""), vec![]), Ok(()));
}

#[test]
fn fetch_returns_what_was_stored_last() {
    let mut service = DeliveryService::new();
    service.store_key_package(id("c"), vec![10, 20]).unwrap();
    assert_eq!(service.fetch_key_package(&id("c")), Some(vec![10, 20]));
    service.store_key_package(id("c"), vec![30]).unwrap();
    assert_eq!(service.fetch_key_package(&id("c")), Some(vec![30]));
}

#[test]
fn fetch_of_an_identity_never_stored_is_absent() {
    let mut service = DeliveryService::new();
    assert_eq!(service.fetch_key_package(&id("nobody")), None);
    service.store_key_package(id("somebody"), vec![1]).unwrap();
    assert_eq!(service.fetch_key_package(&id("nobody")), None);
    assert_eq!(service.fetch_key_package(&id("somebody ")), None);
}

#[test]
fn list_key_packages_is_a_snapshot_of_the_identities() {
    let mut service = DeliveryService::new();
    assert!(service.list_key_packages().is_empty());
    service.store_key_package(id("b"), vec![1]).unwrap();
    service.store_key_package(id("a"), vec![2]).unwrap();
    service.store_key_package(id("b"), vec![3]).unwrap();
    let mut clients = service.list_key_packages();
    clients.sort();
    assert_eq!(clients, vec![id("a"), id("b")]);
}

#[test]
fn create_group_returns_the_new_record() {
    let mut service = DeliveryService::new();
    let group = service.create_group(id("g1"), id("alice")).unwrap();
    assert_eq!(group, GroupState::new(id("g1"), id("alice")));
    assert_eq!(service.get_group(&id("g1")), Some(group));
}

#[test]
fn create_group_twice_is_refused_and_keeps_the_first_record() {
    let mut service = DeliveryService::new();
    service.create_group(id("g"), id("alice")).unwrap();
    service.join_group(&id("g"), id("bob")).unwrap();
    let before = service.get_group(&id("g")).unwrap();
    assert_eq!(
        service.create_group(id("g"), id("mallory")),
        Err(ServiceError::GroupAlreadyExists(id("g")))
    );
    assert_eq!(
        service.create_group(id("g"), id("alice")),
        Err(ServiceError::GroupAlreadyExists(id("g")))
    );
    let after = service.get_group(&id("g")).unwrap();
    assert_eq!(after, before);
    assert_eq!(after.creator, "alice");
    assert_eq!(after.members, vec![id("alice"), id("bob")]);
}

#[test]
fn join_group_of_an_unknown_group_is_refused() {
    let mut service = DeliveryService::new();
    assert_eq!(
        service.join_group(&id("nowhere"), id("bob")),
        Err(ServiceError::GroupNotFound(id("nowhere")))
    );
    assert_eq!(service.get_group(&id("nowhere")), None);
}

#[test]
fn join_group_twice_lists_the_member_once() {
    let mut service = DeliveryService::new();
    service.create_group(id("g"), id("alice")).unwrap();
    let first = service.join_group(&id("g"), id("m")).unwrap();
    let second = service.join_group(&id("g"), id("m")).unwrap();
    assert_eq!(first.members, vec![id("alice"), id("m")]);
    assert_eq!(second.members, vec![id("alice"), id("m")]);
    let stored = service.get_group(&id("g")).unwrap();
    assert_eq!(stored.members.iter().filter(|member| *member == "m").count(), 1);
}

#[test]
fn join_group_of_the_creator_changes_nothing() {
    let mut service = DeliveryService::new();
    service.create_group(id("g"), id("alice")).unwrap();
    let group = service.join_group(&id("g"), id("alice")).unwrap();
    assert_eq!(group.members, vec![id("alice")]);
}

#[test]
fn relay_message_succeeds_for_members_only() {
    let mut service = DeliveryService::new();
    service.create_group(id("g"), id("alice")).unwrap();
    assert_eq!(
        service.relay_message(&id("g"), id("alice"), vec![1], MlsMessageType::Proposal),
        Ok(())
    );
    assert_eq!(
        service.relay_message(&id("g"), id("bob"), vec![2], MlsMessageType::Proposal),
        Err(ServiceError::SenderNotMember(id("bob")))
    );
    service.join_group(&id("g"), id("bob")).unwrap();
    assert_eq!(
        service.relay_message(&id("g"), id("bob"), vec![2], MlsMessageType::Proposal),
        Ok(())
    );
    let log = service.get_group(&id("g")).unwrap().messages;
    assert_eq!(
        log,
        vec![
            (id("alice"), vec![1], MlsMessageType::Proposal),
            (id("bob"), vec![2], MlsMessageType::Proposal),
        ]
    );
}

#[test]
fn relay_message_to_an_unknown_group_is_refused() {
    let mut service = DeliveryService::new();
    service.create_group(id("g"), id("alice")).unwrap();
    assert_eq!(
        service.relay_message(&id("h"), id("alice"), vec![1], MlsMessageType::Add),
        Err(ServiceError::GroupNotFound(id("h")))
    );
    assert!(service.get_group(&id("g")).unwrap().messages.is_empty());
}

#[test]
fn relay_message_keeps_the_order_of_the_calls() {
    let mut service = DeliveryService::new();
    service.create_group(id("g"), id("a")).unwrap();
    service.create_group(id("h"), id("a")).unwrap();
    service.join_group(&id("g"), id("b")).unwrap();
    let kinds = [
        MlsMessageType::Welcome,
        MlsMessageType::Add,
        MlsMessageType::Application,
        MlsMessageType::Commit,
        MlsMessageType::Proposal,
    ];
    let mut expected = Vec::new();
    for round in 0..10u8 {
        let sender = if round % 2 == 0 { id("a") } else { id("b") };
        let kind = kinds[(round % 5) as usize];
        service.relay_message(&id("g"), sender.clone(), vec![round, round], kind).unwrap();
        expected.push((sender, vec![round, round], kind));
        service.relay_message(&id("h"), id("a"), vec![round], kind).unwrap();
        let refused = service.relay_message(&id("g"), id("z"), vec![round], kind);
        assert_eq!(refused, Err(ServiceError::SenderNotMember(id("z"))));
    }
    assert_eq!(service.get_group(&id("g")).unwrap().messages, expected);
    assert_eq!(service.get_group(&id("h")).unwrap().messages.len(), 10);
}

#[test]
fn relay_message_does_not_deduplicate() {
    let mut service = DeliveryService::new();
    service.create_group(id("g"), id("a")).unwrap();
    for _ in 0..3 {
        service.relay_message(&id("g"), id("a"), vec![5], MlsMessageType::Application).unwrap();
    }
    assert_eq!(service.get_group(&id("g")).unwrap().messages.len(), 3);
}

#[test]
fn joins_in_any_order_give_the_same_members() {
    let joiners = [id("m1"), id("m2"), id("m3"), id("m4")];
    let orders: [[usize; 4]; 4] = [[0, 1, 2, 3], [3, 2, 1, 0], [1, 3, 0, 2], [2, 0, 3, 1]];
    for order in orders {
        let mut service = DeliveryService::new();
        service.create_group(id("g"), id("creator")).unwrap();
        for index in order {
            assert!(service.join_group(&id("g"), joiners[index].clone()).is_ok());
        }
        let mut members = service.get_group(&id("g")).unwrap().members;
        assert_eq!(members[0], "creator");
        members.sort();
        assert_eq!(members, vec![id("creator"), id("m1"), id("m2"), id("m3"), id("m4")]);
    }
}

#[test]
fn groups_and_key_packages_do_not_mix() {
    let mut service = DeliveryService::new();
    service.store_key_package(id("x"), vec![1]).unwrap();
    service.create_group(id("x"), id("y")).unwrap();
    assert_eq!(service.fetch_key_package(&id("x")), Some(vec![1]));
    assert_eq!(service.fetch_key_package(&id("y")), None);
    assert_eq!(service.list_key_packages(), vec![id("x")]);
    assert_eq!(service.get_group(&id("y")), None);
}

#[test]
fn registry_alone_serves_groups() {
    let mut registry = GroupRegistry::new();
    assert_eq!(registry.get_group(&id("g")), None);
    registry.create_group(id("g"), id("a")).unwrap();
    registry.create_group(id("h"), id("b")).unwrap();
    registry.join_group(&id("h"), id("a")).unwrap();
    registry.relay_message(&id("h"), id("a"), vec![], MlsMessageType::Welcome).unwrap();
    assert_eq!(registry.get_group(&id("g")).unwrap().members, vec![id("a")]);
    let h = registry.get_group(&id("h")).unwrap();
    assert_eq!(h.members, vec![id("b"), id("a")]);
    assert_eq!(h.messages, vec![(id("a"), vec![], MlsMessageType::Welcome)]);
}

#[test]
fn error_messages_name_the_subject() {
    assert_eq!(
        ServiceError::GroupAlreadyExists(id("g1")).message(),
        "Group already exists: g1"
    );
    assert_eq!(ServiceError::GroupNotFound(id("g2")).message(), "Group not found: g2");
    assert_eq!(ServiceError::SenderNotMember(id("carol")).message(), "Sender not in group: carol");
    let error = ServiceError::GroupNotFound(id("g"));
    assert_eq!(error.clone(), error);
}
