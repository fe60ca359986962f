//! The group registry: the record of each registered group.

use crate::assoc::{
    has_key, keys_unique, lemma_to_map_at, lemma_to_map_empty, lemma_to_map_push,
    lemma_to_map_update, to_map,
};
use crate::error::{ErrorView, ServiceError};
use crate::group::{lemma_joined_wf, GroupState, GroupView};
use crate::identity::{ClientId, GroupId};
use crate::message::MlsMessageType;
use vstd::prelude::*;

verus! {

/// Mathematical model of the registry: the record of each registered group,
/// by the group's identity.
pub type GroupsView = Map<Seq<char>, GroupView>;

/// Every record is filed under its own identity and is well formed.
pub open spec fn groups_valid(groups: GroupsView) -> bool {
    forall|id: Seq<char>| #[trigger]
        groups.contains_key(id) ==> groups[id].id == id && groups[id].wf()
}

/// The registry after a request to create the group `id`.
pub open spec fn after_create(groups: GroupsView, id: Seq<char>, creator: Seq<char>)
    -> GroupsView {
    if groups.contains_key(id) {
        groups
    } else {
        groups.insert(id, GroupView::created(id, creator))
    }
}

/// What a request to create the group `id` returns.
pub open spec fn create_outcome(groups: GroupsView, id: Seq<char>, creator: Seq<char>) -> Result<
    GroupView,
    ErrorView,
> {
    if groups.contains_key(id) {
        Err(ErrorView::GroupAlreadyExists(id))
    } else {
        Ok(GroupView::created(id, creator))
    }
}

/// The registry after a request of `client` to join the group `id`.
pub open spec fn after_join(groups: GroupsView, id: Seq<char>, client: Seq<char>) -> GroupsView {
    if groups.contains_key(id) {
        groups.insert(id, groups[id].joined(client))
    } else {
        groups
    }
}

/// What a request of `client` to join the group `id` returns.
pub open spec fn join_outcome(groups: GroupsView, id: Seq<char>, client: Seq<char>) -> Result<
    GroupView,
    ErrorView,
> {
    if groups.contains_key(id) {
        Ok(groups[id].joined(client))
    } else {
        Err(ErrorView::GroupNotFound(id))
    }
}

/// What a request of `sender` to relay a message to the group `id` returns.
pub open spec fn relay_outcome(groups: GroupsView, id: Seq<char>, sender: Seq<char>) -> Result<
    (),
    ErrorView,
> {
    if !groups.contains_key(id) {
        Err(ErrorView::GroupNotFound(id))
    } else if !groups[id].is_member(sender) {
        Err(ErrorView::SenderNotMember(sender))
    } else {
        Ok(())
    }
}

/// The registry after a request of `sender` to relay a message to the group
/// `id`: the entry is appended where the request is accepted, and nothing
/// changes where it is refused.
pub open spec fn after_relay(
    groups: GroupsView,
    id: Seq<char>,
    sender: Seq<char>,
    payload: Seq<u8>,
    kind: MlsMessageType,
) -> GroupsView {
    if relay_outcome(groups, id, sender) is Ok {
        groups.insert(id, groups[id].relayed(sender, payload, kind))
    } else {
        groups
    }
}

/// The registry after each of `clients` asked in turn to join the group `id`.
pub open spec fn after_joins(groups: GroupsView, id: Seq<char>, clients: Seq<Seq<char>>)
    -> GroupsView
    decreases clients.len(),
{
    if clients.len() == 0 {
        groups
    } else {
        after_join(after_joins(groups, id, clients.drop_last()), id, clients.last())
    }
}

/// Whether `x` occurs in `s` at one place and no other.
pub open spec fn occurs_once<A>(s: Seq<A>, x: A) -> bool {
    exists|i: int|
        0 <= i < s.len() && #[trigger] s[i] == x && forall|j: int|
            0 <= j < s.len() && #[trigger] s[j] == x ==> j == i
}

/// Model of the result of an operation that returns a group record.
pub open spec fn group_outcome_view(outcome: Result<GroupState, ServiceError>) -> Result<
    GroupView,
    ErrorView,
> {
    match outcome {
        Ok(group) => Ok(group@),
        Err(error) => Err(error@),
    }
}

/// Model of the result of an operation that returns nothing.
pub open spec fn unit_outcome_view(outcome: Result<(), ServiceError>) -> Result<(), ErrorView> {
    match outcome {
        Ok(_) => Ok(()),
        Err(error) => Err(error@),
    }
}

/// The records of a list of groups, each beside its identity.
pub open spec fn filed(groups: Seq<GroupState>) -> Seq<(Seq<char>, GroupView)> {
    Seq::new(groups.len(), |i: int| (groups[i]@.id, groups[i]@))
}

/// Holds the record of each registered group.
#[derive(Debug)]
pub struct GroupRegistry {
    groups: Vec<GroupState>,
}

impl View for GroupRegistry {
    type V = GroupsView;

    closed spec fn view(&self) -> GroupsView {
        to_map(filed(self.groups@))
    }
}

impl GroupRegistry {
    /// No identity has two records, and each record is well formed.
    #[verifier::type_invariant]
    spec fn inv(&self) -> bool {
        &&& keys_unique(filed(self.groups@))
        &&& forall|i: int| 0 <= i < self.groups.len() ==> (#[trigger] self.groups[i]).wf()
    }

    /// What the invariant says of the model.
    proof fn lemma_valid(&self)
        requires
            self.inv(),
        ensures
            groups_valid(self@),
    {
        let entries = filed(self.groups@);
        assert forall|id: Seq<char>| #[trigger] self@.contains_key(id) implies self@[id].id == id
            && self@[id].wf() by {
            let i = choose|i: int| 0 <= i < entries.len() && (#[trigger] entries[i]).0 == id;
            lemma_to_map_at(entries, i);
            assert(self.groups[i].wf());
        }
    }

    /// An empty registry.
    pub fn new() -> (registry: Self)
        ensures
            registry@ == GroupsView::empty(),
    {
        let registry = GroupRegistry { groups: Vec::new() };
        proof {
            lemma_to_map_empty(filed(registry.groups@));
        }
        registry
    }

    /// Position of the record of `group_id`, if it has one.
    fn position(&self, group_id: &GroupId) -> (found: Option<usize>)
        ensures
            match found {
                Some(i) => i < self.groups.len() && self.groups[i as int].id@ == group_id@,
                None => !has_key(filed(self.groups@), group_id@),
            },
    {
        let mut i: usize = 0;
        while i < self.groups.len()
            invariant
                i <= self.groups.len(),
                forall|j: int| 0 <= j < i ==> self.groups[j].id@ != group_id@,
            decreases self.groups.len() - i,
        {
            if self.groups[i].id == *group_id {
                return Some(i);
            }
            i += 1;
        }
        assert forall|j: int| 0 <= j < filed(self.groups@).len() implies (#[trigger] filed(
            self.groups@,
        )[j]).0 != group_id@ by {
            assert(filed(self.groups@)[j].0 == self.groups[j].id@);
        }
        None
    }

    /// Registers the group `group_id` with `creator_id` as its only member,
    /// and returns its record. A group that is registered already is left as
    /// it is, and the request is refused.
    pub fn create_group(&mut self, group_id: GroupId, creator_id: ClientId) -> (outcome: Result<
        GroupState,
        ServiceError,
    >)
        ensures
            final(self)@ == after_create(old(self)@, group_id@, creator_id@),
            group_outcome_view(outcome) == create_outcome(old(self)@, group_id@, creator_id@),
            groups_valid(final(self)@),
    {
        proof {
            use_type_invariant(&*self);
            self.lemma_valid();
        }
        match self.position(&group_id) {
            Some(i) => {
                proof {
                    lemma_to_map_at(filed(self.groups@), i as int);
                }
                Err(ServiceError::GroupAlreadyExists(group_id))
            },
            None => {
                let group = GroupState::new(group_id, creator_id);
                let copy = group.clone();
                let ghost before = filed(self.groups@);
                let mut groups: Vec<GroupState> = Vec::new();
                std::mem::swap(&mut groups, &mut self.groups);
                groups.push(group);
                proof {
                    assert(filed(groups@) =~= before.push((group_id@, group@)));
                    lemma_to_map_push(before, group_id@, group@);
                }
                self.groups = groups;
                proof {
                    use_type_invariant(&*self);
                    self.lemma_valid();
                }
                Ok(copy)
            },
        }
    }

    /// Adds `client_id` to the members of the group `group_id`, unless it is
    /// one already, and returns the group's record. The request is refused
    /// where no such group is registered.
    pub fn join_group(&mut self, group_id: &GroupId, client_id: ClientId) -> (outcome: Result<
        GroupState,
        ServiceError,
    >)
        ensures
            final(self)@ == after_join(old(self)@, group_id@, client_id@),
            group_outcome_view(outcome) == join_outcome(old(self)@, group_id@, client_id@),
            groups_valid(final(self)@),
    {
        proof {
            use_type_invariant(&*self);
            self.lemma_valid();
        }
        match self.position(group_id) {
            Some(i) => {
                let ghost before = filed(self.groups@);
                proof {
                    lemma_to_map_at(before, i as int);
                }
                let mut groups: Vec<GroupState> = Vec::new();
                std::mem::swap(&mut groups, &mut self.groups);
                groups[i].add_member(client_id);
                let copy = groups[i].clone();
                proof {
                    assert(filed(groups@) =~= before.update(i as int, (before[i as int].0, copy@)));
                    lemma_to_map_update(before, i as int, copy@);
                }
                self.groups = groups;
                proof {
                    use_type_invariant(&*self);
                    self.lemma_valid();
                }
                Ok(copy)
            },
            None => Err(ServiceError::GroupNotFound(group_id.clone())),
        }
    }

    /// Appends a message of `sender_id` to the log of the group `group_id`.
    /// The request is refused where no such group is registered, and where
    /// the sender is not a member of it at this moment.
    pub fn relay_message(
        &mut self,
        group_id: &GroupId,
        sender_id: ClientId,
        message: Vec<u8>,
        message_type: MlsMessageType,
    ) -> (outcome: Result<(), ServiceError>)
        ensures
            final(self)@ == after_relay(
                old(self)@,
                group_id@,
                sender_id@,
                message@,
                message_type,
            ),
            unit_outcome_view(outcome) == relay_outcome(old(self)@, group_id@, sender_id@),
            outcome is Ok <==> old(self)@.contains_key(group_id@) && old(self)@[group_id@].is_member(
                sender_id@,
            ),
            groups_valid(final(self)@),
    {
        proof {
            use_type_invariant(&*self);
            self.lemma_valid();
        }
        match self.position(group_id) {
            Some(i) => {
                let ghost before = filed(self.groups@);
                proof {
                    lemma_to_map_at(before, i as int);
                }
                if !self.groups[i].is_member(&sender_id) {
                    return Err(ServiceError::SenderNotMember(sender_id));
                }
                let mut groups: Vec<GroupState> = Vec::new();
                std::mem::swap(&mut groups, &mut self.groups);
                groups[i].add_message(sender_id, message, message_type);
                proof {
                    let after = groups[i as int]@;
                    assert(filed(groups@) =~= before.update(i as int, (before[i as int].0, after)));
                    lemma_to_map_update(before, i as int, after);
                }
                self.groups = groups;
                proof {
                    use_type_invariant(&*self);
                    self.lemma_valid();
                }
                Ok(())
            },
            None => Err(ServiceError::GroupNotFound(group_id.clone())),
        }
    }

    /// The record of the group `group_id`, if it is registered.
    pub fn get_group(&self, group_id: &GroupId) -> (found: Option<GroupState>)
        ensures
            found is Some <==> self@.contains_key(group_id@),
            found matches Some(group) ==> group@ == self@[group_id@] && group.wf(),
            groups_valid(self@),
    {
        proof {
            use_type_invariant(self);
            self.lemma_valid();
        }
        match self.position(group_id) {
            Some(i) => {
                proof {
                    lemma_to_map_at(filed(self.groups@), i as int);
                }
                Some(self.groups[i].clone())
            },
            None => None,
        }
    }
}

/// Creating, joining and relaying keep every record filed under its own
/// identity and well formed.
pub proof fn lemma_requests_keep_valid(
    groups: GroupsView,
    id: Seq<char>,
    client: Seq<char>,
    payload: Seq<u8>,
    kind: MlsMessageType,
)
    requires
        groups_valid(groups),
    ensures
        groups_valid(after_create(groups, id, client)),
        groups_valid(after_join(groups, id, client)),
        groups_valid(after_relay(groups, id, client, payload, kind)),
{
    assert(GroupView::created(id, client).wf());
    assert(groups_valid(after_create(groups, id, client))) by {
        let after = after_create(groups, id, client);
        assert forall|k: Seq<char>| #[trigger] after.contains_key(k) implies after[k].id == k
            && after[k].wf() by {
            if k != id {
                assert(groups.contains_key(k));
            } else if groups.contains_key(id) {
            }
        }
    }
    assert(groups_valid(after_join(groups, id, client))) by {
        let after = after_join(groups, id, client);
        assert forall|k: Seq<char>| #[trigger] after.contains_key(k) implies after[k].id == k
            && after[k].wf() by {
            assert(groups.contains_key(k));
            if k == id {
                lemma_joined_wf(groups[id], client);
            }
        }
    }
    assert(groups_valid(after_relay(groups, id, client, payload, kind))) by {
        let after = after_relay(groups, id, client, payload, kind);
        assert forall|k: Seq<char>| #[trigger] after.contains_key(k) implies after[k].id == k
            && after[k].wf() by {
            assert(groups.contains_key(k));
        }
    }
}

/// Creating a group a second time is refused, whoever asks, and changes
/// nothing: the record that the first request made stays as it was.
pub proof fn lemma_second_create_is_refused(
    groups: GroupsView,
    id: Seq<char>,
    creator: Seq<char>,
    other: Seq<char>,
)
    ensures
        create_outcome(after_create(groups, id, creator), id, other) == Err::<
            GroupView,
            ErrorView,
        >(ErrorView::GroupAlreadyExists(id)),
        after_create(after_create(groups, id, creator), id, other) == after_create(
            groups,
            id,
            creator,
        ),
        !groups.contains_key(id) ==> after_create(after_create(groups, id, creator), id, other)[id]
            == GroupView::created(id, creator),
{
}

/// Joining is idempotent: a second request of the same client is accepted,
/// changes nothing, and the client is listed once.
pub proof fn lemma_second_join_changes_nothing(
    groups: GroupsView,
    id: Seq<char>,
    client: Seq<char>,
)
    requires
        groups_valid(groups),
        groups.contains_key(id),
    ensures
        join_outcome(after_join(groups, id, client), id, client) is Ok,
        after_join(after_join(groups, id, client), id, client) == after_join(groups, id, client),
        occurs_once(after_join(after_join(groups, id, client), id, client)[id].members, client),
{
    let once = after_join(groups, id, client);
    lemma_joined_wf(groups[id], client);
    let members = once[id].members;
    assert(members.contains(client)) by {
        if !groups[id].is_member(client) {
            assert(members[members.len() - 1] == client);
        }
    }
    assert(after_join(once, id, client) =~= once);
    let i = choose|i: int| 0 <= i < members.len() && members[i] == client;
    assert(0 <= i < members.len() && members[i] == client && forall|j: int|
        0 <= j < members.len() && #[trigger] members[j] == client ==> j == i);
}

/// Joins are never lost, in whatever order they are served: after any
/// sequence of requests to join a registered group, each of them accepted,
/// its members are those it had before and those who asked, each listed once.
pub proof fn lemma_joins_add_up(groups: GroupsView, id: Seq<char>, clients: Seq<Seq<char>>)
    requires
        groups_valid(groups),
        groups.contains_key(id),
    ensures
        groups_valid(after_joins(groups, id, clients)),
        after_joins(groups, id, clients).contains_key(id),
        after_joins(groups, id, clients)[id].members.to_set() == groups[id].members.to_set().union(
            clients.to_set(),
        ),
        after_joins(groups, id, clients)[id].members.no_duplicates(),
        forall|n: int|
            0 <= n < clients.len() ==> join_outcome(
                #[trigger] after_joins(groups, id, clients.take(n)),
                id,
                clients[n],
            ) is Ok,
    decreases clients.len(),
{
    let all = after_joins(groups, id, clients);
    if clients.len() == 0 {
        assert(all[id].members.to_set() =~= groups[id].members.to_set().union(clients.to_set()));
    } else {
        let earlier = clients.drop_last();
        let last = clients.last();
        let before = after_joins(groups, id, earlier);
        lemma_joins_add_up(groups, id, earlier);
        lemma_requests_keep_valid(before, id, last, Seq::empty(), MlsMessageType::Add);
        let old_members = before[id].members;
        let new_members = all[id].members;
        assert forall|c: Seq<char>| new_members.to_set().contains(c) <==> groups[id].members.to_set().union(
            clients.to_set(),
        ).contains(c) by {
            if new_members.contains(c) {
                let i = choose|i: int| 0 <= i < new_members.len() && new_members[i] == c;
                if i < old_members.len() {
                    assert(old_members[i] == c);
                    assert(old_members.to_set().contains(c));
                    if earlier.contains(c) {
                        let k = choose|k: int| 0 <= k < earlier.len() && earlier[k] == c;
                        assert(clients[k] == c);
                    }
                } else {
                    assert(c == last);
                    assert(clients[clients.len() - 1] == c);
                }
            }
            if groups[id].members.contains(c) {
                assert(old_members.to_set().contains(c));
                let i = choose|i: int| 0 <= i < old_members.len() && old_members[i] == c;
                assert(new_members[i] == c);
            }
            if clients.contains(c) {
                let k = choose|k: int| 0 <= k < clients.len() && clients[k] == c;
                if k < earlier.len() {
                    assert(earlier[k] == c);
                    assert(earlier.to_set().contains(c));
                    assert(old_members.to_set().contains(c));
                    let i = choose|i: int| 0 <= i < old_members.len() && old_members[i] == c;
                    assert(new_members[i] == c);
                } else {
                    assert(c == last);
                    if before[id].is_member(last) {
                    } else {
                        assert(new_members[new_members.len() - 1] == c);
                    }
                }
            }
        }
        assert(new_members.to_set() =~= groups[id].members.to_set().union(clients.to_set()));
        assert forall|n: int| 0 <= n < clients.len() implies join_outcome(
            #[trigger] after_joins(groups, id, clients.take(n)),
            id,
            clients[n],
        ) is Ok by {
            if n < earlier.len() {
                assert(clients.take(n) =~= earlier.take(n));
                assert(clients[n] == earlier[n]);
            } else {
                assert(clients.take(n) =~= earlier);
            }
        }
    }
}

/// Joins after creation: a group that was just created and then joined by
/// `clients`, in any order, has its creator and those clients as members.
pub proof fn lemma_joins_after_create(
    groups: GroupsView,
    id: Seq<char>,
    creator: Seq<char>,
    clients: Seq<Seq<char>>,
)
    requires
        groups_valid(groups),
        !groups.contains_key(id),
    ensures
        after_joins(after_create(groups, id, creator), id, clients)[id].members.to_set() == set![
            creator,
        ].union(clients.to_set()),
{
    let created = after_create(groups, id, creator);
    lemma_requests_keep_valid(groups, id, creator, Seq::empty(), MlsMessageType::Add);
    lemma_joins_add_up(created, id, clients);
    assert(created[id].members.to_set() =~= set![creator]) by {
        assert(created[id].members[0] == creator);
    }
}

} // verus!
