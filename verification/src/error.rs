//! Why a registry operation was refused.

use vstd::prelude::*;

verus! {

/// The ways in which a registry operation fails.
#[derive(Debug, PartialEq, Eq)]
pub enum ChatError {
    /// The name is taken.
    AlreadyExists,
    /// No user or chat room of that name.
    NotFound,
    /// The user is no member of the chat room.
    Rejected,
    /// The password could not be hashed or checked; the text says why.
    Hashing(String),
}

/// What a `ChatError` says, with its text as a character sequence.
pub ghost enum ChatErrorView {
    AlreadyExists,
    NotFound,
    Rejected,
    Hashing(Seq<char>),
}

impl View for ChatError {
    type V = ChatErrorView;

    open spec fn view(&self) -> ChatErrorView {
        match *self {
            ChatError::AlreadyExists => ChatErrorView::AlreadyExists,
            ChatError::NotFound => ChatErrorView::NotFound,
            ChatError::Rejected => ChatErrorView::Rejected,
            ChatError::Hashing(detail) => ChatErrorView::Hashing(detail@),
        }
    }
}

impl ChatErrorView {
    /// The line that describes the failure.
    pub open spec fn message(self) -> Seq<char> {
        match self {
            ChatErrorView::AlreadyExists => "ERROR: This user already exists."@,
            ChatErrorView::NotFound => "User not found"@,
            ChatErrorView::Rejected => "You are not in this chat"@,
            ChatErrorView::Hashing(detail) => detail,
        }
    }
}

impl ChatError {
    /// The line that describes the failure.
    pub fn message(&self) -> (text: String)
        ensures
            text@ == self@.message(),
    {
        match self {
            ChatError::AlreadyExists => "ERROR: This user already exists.".to_owned(),
            ChatError::NotFound => "User not found".to_owned(),
            ChatError::Rejected => "You are not in this chat".to_owned(),
            ChatError::Hashing(detail) => detail.clone(),
        }
    }
}

} // verus!
