//! The error taxonomy shared by the broker and the manager.

use vstd::prelude::*;

verus! {

/// The category of a failure. It is what survives every boundary: a broker
/// turns it into a remote status code, the manager reads it back from one.
#[derive(Clone, Copy, Debug, PartialEq, Eq, Structural)]
pub enum ErrorKind {
    /// An unknown queue label, an unknown or consumed channel id, an unknown node.
    NotFound,
    /// A queue label that already exists.
    Conflict,
    /// A channel id that is not well formed.
    InvalidArgument,
    /// No live node, or a node without a held connection.
    Unavailable,
    /// An engine torn down during a publish, or a transport failure.
    Internal,
}

impl ErrorKind {
    /// The remote status code that stands for this category.
    pub open spec fn spec_code(self) -> int {
        match self {
            ErrorKind::InvalidArgument => 3,
            ErrorKind::NotFound => 5,
            ErrorKind::Conflict => 6,
            ErrorKind::Internal => 13,
            ErrorKind::Unavailable => 14,
        }
    }

    /// The category that a remote status code stands for. A code that names
    /// none of the categories is an internal failure.
    pub open spec fn spec_from_code(code: int) -> ErrorKind {
        if code == 3 {
            ErrorKind::InvalidArgument
        } else if code == 5 {
            ErrorKind::NotFound
        } else if code == 6 {
            ErrorKind::Conflict
        } else if code == 14 {
            ErrorKind::Unavailable
        } else {
            ErrorKind::Internal
        }
    }

    /// The HTTP status that answers a request that failed in this category.
    pub open spec fn spec_http_status(self) -> int {
        match self {
            ErrorKind::InvalidArgument => 400,
            ErrorKind::NotFound => 404,
            ErrorKind::Conflict => 409,
            ErrorKind::Internal => 500,
            ErrorKind::Unavailable => 503,
        }
    }

    /// The HTTP status that the manager answers with for this category.
    pub fn http_status(self) -> (status: u16)
        ensures
            status == self.spec_http_status(),
    {
        match self {
            ErrorKind::InvalidArgument => 400,
            ErrorKind::NotFound => 404,
            ErrorKind::Conflict => 409,
            ErrorKind::Internal => 500,
            ErrorKind::Unavailable => 503,
        }
    }

    /// The remote status code sent for this category.
    pub fn code(self) -> (code: i32)
        ensures
            code == self.spec_code(),
    {
        match self {
            ErrorKind::InvalidArgument => 3,
            ErrorKind::NotFound => 5,
            ErrorKind::Conflict => 6,
            ErrorKind::Internal => 13,
            ErrorKind::Unavailable => 14,
        }
    }

    /// Reads a category back from a remote status code.
    pub fn from_code(code: i32) -> (kind: ErrorKind)
        ensures
            kind == Self::spec_from_code(code as int),
    {
        if code == 3 {
            ErrorKind::InvalidArgument
        } else if code == 5 {
            ErrorKind::NotFound
        } else if code == 6 {
            ErrorKind::Conflict
        } else if code == 14 {
            ErrorKind::Unavailable
        } else {
            ErrorKind::Internal
        }
    }

    /// A category survives the trip through its status code.
    pub proof fn law_code_round_trip(kind: ErrorKind)
        ensures
            Self::spec_from_code(kind.spec_code()) == kind,
    {
    }
}

/// Why a broker operation failed.
#[derive(Clone, Copy, Debug, PartialEq, Eq, Structural)]
pub enum BrokerError {
    /// A queue with the label already exists on this node.
    QueueExists,
    /// No queue with the label exists on this node.
    UnknownQueue,
    /// The channel id is unknown, or its ticket was already consumed.
    UnknownChannel,
    /// The channel id is not a well-formed identifier.
    MalformedChannelId,
    /// The queue's engine was torn down.
    EngineClosed,
    /// The queue's engine took no further envelope.
    EngineFull,
}

impl BrokerError {
    pub open spec fn spec_kind(self) -> ErrorKind {
        match self {
            BrokerError::QueueExists => ErrorKind::Conflict,
            BrokerError::UnknownQueue => ErrorKind::NotFound,
            BrokerError::UnknownChannel => ErrorKind::NotFound,
            BrokerError::MalformedChannelId => ErrorKind::InvalidArgument,
            BrokerError::EngineClosed => ErrorKind::Internal,
            BrokerError::EngineFull => ErrorKind::Internal,
        }
    }

    pub open spec fn spec_message(self) -> Seq<char> {
        match self {
            BrokerError::QueueExists => "Queue already exists"@,
            BrokerError::UnknownQueue => "Queue not found"@,
            BrokerError::UnknownChannel => "Channel not found"@,
            BrokerError::MalformedChannelId => "Invalid channel_id: not a uuid v4"@,
            BrokerError::EngineClosed => "Queue is closed"@,
            BrokerError::EngineFull => "Queue is full"@,
        }
    }

    /// The category of this failure.
    pub fn kind(self) -> (kind: ErrorKind)
        ensures
            kind == self.spec_kind(),
    {
        match self {
            BrokerError::QueueExists => ErrorKind::Conflict,
            BrokerError::UnknownQueue => ErrorKind::NotFound,
            BrokerError::UnknownChannel => ErrorKind::NotFound,
            BrokerError::MalformedChannelId => ErrorKind::InvalidArgument,
            BrokerError::EngineClosed => ErrorKind::Internal,
            BrokerError::EngineFull => ErrorKind::Internal,
        }
    }

    /// The text sent to the caller with this failure.
    pub fn message(self) -> (text: String)
        ensures
            text@ == self.spec_message(),
    {
        match self {
            BrokerError::QueueExists => "Queue already exists".to_owned(),
            BrokerError::UnknownQueue => "Queue not found".to_owned(),
            BrokerError::UnknownChannel => "Channel not found".to_owned(),
            BrokerError::MalformedChannelId => "Invalid channel_id: not a uuid v4".to_owned(),
            BrokerError::EngineClosed => "Queue is closed".to_owned(),
            BrokerError::EngineFull => "Queue is full".to_owned(),
        }
    }
}

} // verus!
