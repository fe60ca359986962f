//! One messaging group: its members and its log of relayed messages.

use crate::identity::{clone_bytes, clone_clients, contains_client, ClientId, GroupId};
use crate::message::MlsMessageType;
use vstd::prelude::*;

verus! {

/// One relayed entry as stored: sender, payload, kind.
pub type RelayedMessage = (ClientId, Vec<u8>, MlsMessageType);

/// Mathematical model of a relayed entry.
pub type LogEntry = (Seq<char>, Seq<u8>, MlsMessageType);

/// Mathematical model of a group record.
pub struct GroupView {
    pub id: Seq<char>,
    pub creator: Seq<char>,
    pub members: Seq<Seq<char>>,
    pub messages: Seq<LogEntry>,
}

impl GroupView {
    /// The record of a group that was just created: the creator is its only
    /// member and nothing has been relayed.
    pub open spec fn created(id: Seq<char>, creator: Seq<char>) -> GroupView {
        GroupView { id, creator, members: seq![creator], messages: Seq::empty() }
    }

    pub open spec fn is_member(self, client: Seq<char>) -> bool {
        self.members.contains(client)
    }

    /// The record after `client` joined: a member stays where it is, a
    /// newcomer goes to the end.
    pub open spec fn joined(self, client: Seq<char>) -> GroupView {
        if self.is_member(client) {
            self
        } else {
            GroupView { members: self.members.push(client), ..self }
        }
    }

    /// The record after one more entry was appended to the log.
    pub open spec fn relayed(self, sender: Seq<char>, payload: Seq<u8>, kind: MlsMessageType)
        -> GroupView {
        GroupView { messages: self.messages.push((sender, payload, kind)), ..self }
    }

    /// No member is listed twice, the creator is the first member, and every
    /// logged entry was sent by a member.
    pub open spec fn wf(self) -> bool {
        &&& self.members.no_duplicates()
        &&& self.members.len() > 0
        &&& self.members[0] == self.creator
        &&& forall|i: int|
            0 <= i < self.messages.len() ==> self.is_member((#[trigger] self.messages[i]).0)
    }
}

/// A group record.
#[derive(Debug, PartialEq, Eq)]
pub struct GroupState {
    pub id: GroupId,
    pub members: Vec<ClientId>,
    pub creator: ClientId,
    pub messages: Vec<RelayedMessage>,
}

impl View for GroupState {
    type V = GroupView;

    open spec fn view(&self) -> GroupView {
        GroupView {
            id: self.id@,
            creator: self.creator@,
            members: self.members.deep_view(),
            messages: self.messages.deep_view(),
        }
    }
}

/// A copy of a message log.
pub fn clone_messages(messages: &Vec<RelayedMessage>) -> (copy: Vec<RelayedMessage>)
    ensures
        copy.deep_view() == messages.deep_view(),
{
    let mut copy: Vec<RelayedMessage> = Vec::new();
    let mut i: usize = 0;
    while i < messages.len()
        invariant
            i <= messages.len(),
            copy.len() == i,
            forall|j: int| 0 <= j < i ==> copy[j].deep_view() == messages[j].deep_view(),
        decreases messages.len() - i,
    {
        let entry = &messages[i];
        copy.push((entry.0.clone(), clone_bytes(&entry.1), entry.2));
        i += 1;
    }
    assert(copy.deep_view() =~= messages.deep_view());
    copy
}

impl GroupState {
    /// The record satisfies the invariant of its model.
    pub open spec fn wf(&self) -> bool {
        self@.wf()
    }

    /// A new group whose only member is its creator.
    pub fn new(id: GroupId, creator: ClientId) -> (group: Self)
        ensures
            group@ == GroupView::created(id@, creator@),
            group.wf(),
    {
        let mut members: Vec<ClientId> = Vec::new();
        members.push(creator.clone());
        let group = GroupState { id, members, creator, messages: Vec::new() };
        assert(group@.members =~= seq![creator@]);
        assert(group@.messages =~= Seq::<LogEntry>::empty());
        group
    }

    /// Adds `client_id` to the members unless it is one already.
    pub fn add_member(&mut self, client_id: ClientId)
        ensures
            final(self)@ == old(self)@.joined(client_id@),
            old(self).wf() ==> final(self).wf(),
    {
        if !contains_client(&self.members, &client_id) {
            self.members.push(client_id);
            assert(self@.members =~= old(self)@.members.push(client_id@));
            assert(self@.messages =~= old(self)@.messages);
            proof {
                if old(self).wf() {
                    lemma_joined_wf(old(self)@, client_id@);
                }
            }
        }
    }

    /// Appends one entry to the log. Only a member may send to its group.
    pub fn add_message(&mut self, sender: ClientId, message: Vec<u8>, msg_type: MlsMessageType)
        requires
            old(self)@.is_member(sender@),
        ensures
            final(self)@ == old(self)@.relayed(sender@, message@, msg_type),
            old(self).wf() ==> final(self).wf(),
    {
        proof {
            assert(message.deep_view() =~= message@);
        }
        self.messages.push((sender, message, msg_type));
        assert(self@.messages =~= old(self)@.messages.push((sender@, message@, msg_type)));
        assert(self@.members =~= old(self)@.members);
    }

    /// Whether `client` is a member.
    pub fn is_member(&self, client: &ClientId) -> (found: bool)
        ensures
            found == self@.is_member(client@),
    {
        contains_client(&self.members, client)
    }
}

impl Clone for GroupState {
    fn clone(&self) -> (copy: Self)
        ensures
            copy@ == self@,
    {
        GroupState {
            id: self.id.clone(),
            members: clone_clients(&self.members),
            creator: self.creator.clone(),
            messages: clone_messages(&self.messages),
        }
    }
}

/// Joining keeps a record well formed.
pub proof fn lemma_joined_wf(group: GroupView, client: Seq<char>)
    requires
        group.wf(),
    ensures
        group.joined(client).wf(),
{
    let after = group.joined(client);
    if !group.is_member(client) {
        assert forall|i: int, j: int|
            0 <= i < after.members.len() && 0 <= j < after.members.len() && i != j implies after.members[i]
            != after.members[j] by {
            if i < group.members.len() && j < group.members.len() {
            } else if i < group.members.len() {
                assert(group.members.contains(group.members[i]));
            } else {
                assert(group.members.contains(group.members[j]));
            }
        }
        assert forall|i: int| 0 <= i < after.messages.len() implies after.is_member(
            (#[trigger] after.messages[i]).0,
        ) by {
            let sender = group.messages[i].0;
            assert(group.is_member(sender));
            let k = choose|k: int| 0 <= k < group.members.len() && group.members[k] == sender;
            assert(after.members[k] == sender);
        }
    }
}

} // verus!
