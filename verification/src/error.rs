//! The ways in which a group operation is refused.

use crate::identity::{ClientId, GroupId};
use vstd::prelude::*;
use vstd::string::StringExecFns;

verus! {

/// Why a group operation was refused. Each variant carries the identity that
/// the refusal is about.
#[derive(Debug, PartialEq, Eq)]
pub enum ServiceError {
    /// A group of this identity is registered already.
    GroupAlreadyExists(GroupId),
    /// No group of this identity is registered.
    GroupNotFound(GroupId),
    /// This client is not a member of the group it sent to.
    SenderNotMember(ClientId),
}

/// Mathematical model of a [`ServiceError`].
pub enum ErrorView {
    GroupAlreadyExists(Seq<char>),
    GroupNotFound(Seq<char>),
    SenderNotMember(Seq<char>),
}

impl ErrorView {
    /// The text that describes the refusal.
    pub open spec fn message(self) -> Seq<char> {
        match self {
            ErrorView::GroupAlreadyExists(id) => "Group already exists: "@ + id,
            ErrorView::GroupNotFound(id) => "Group not found: "@ + id,
            ErrorView::SenderNotMember(id) => "Sender not in group: "@ + id,
        }
    }
}

impl View for ServiceError {
    type V = ErrorView;

    open spec fn view(&self) -> ErrorView {
        match self {
            ServiceError::GroupAlreadyExists(id) => ErrorView::GroupAlreadyExists(id@),
            ServiceError::GroupNotFound(id) => ErrorView::GroupNotFound(id@),
            ServiceError::SenderNotMember(id) => ErrorView::SenderNotMember(id@),
        }
    }
}

impl Clone for ServiceError {
    fn clone(&self) -> (copy: Self)
        ensures
            copy@ == self@,
    {
        match self {
            ServiceError::GroupAlreadyExists(id) => ServiceError::GroupAlreadyExists(id.clone()),
            ServiceError::GroupNotFound(id) => ServiceError::GroupNotFound(id.clone()),
            ServiceError::SenderNotMember(id) => ServiceError::SenderNotMember(id.clone()),
        }
    }
}

impl ServiceError {
    /// The text that describes the refusal.
    pub fn message(&self) -> (text: String)
        ensures
            text@ == self@.message(),
    {
        match self {
            ServiceError::GroupAlreadyExists(id) => String::from_str(
                "Group already exists: ",
            ).concat(id.as_str()),
            ServiceError::GroupNotFound(id) => String::from_str("Group not found: ").concat(
                id.as_str(),
            ),
            ServiceError::SenderNotMember(id) => String::from_str("Sender not in group: ").concat(
                id.as_str(),
            ),
        }
    }
}

} // verus!
