//! The errors that end a session before it has begun.

use vstd::prelude::*;
use vstd::string::*;

verus! {

/// Why a listening session could not start. Every one of these is fatal:
/// the dispatch loop is not entered once any of them has occurred.
#[derive(Clone, Debug, PartialEq, Eq)]
pub enum ListenError {
    /// A filter was asked for by a name that no filter has; holds that name.
    UnrecognizedFilter(String),
    /// The configuration knows no chain of this identifier.
    ChainNotFound(String),
    /// The connection to the event source could not be made; holds the cause.
    SubscriptionSetup(String),
    /// The connection was made, but the subscriptions could not be
    /// registered; holds the cause.
    SubscriptionRequest(String),
}

impl ListenError {
    /// The text of the message that describes this error to the user.
    pub open spec fn message_text(self) -> Seq<char> {
        match self {
            ListenError::UnrecognizedFilter(token) => "unrecognized event type: "@ + token@,
            ListenError::ChainNotFound(id) => "chain '"@ + id@ + "' not found in configuration"@,
            ListenError::SubscriptionSetup(cause) => "could not initialize event monitor: "@
                + cause@,
            ListenError::SubscriptionRequest(cause) => "could not initialize subscriptions: "@
                + cause@,
        }
    }

    /// Writes out the message that describes this error to the user.
    pub fn message(&self) -> (text: String)
        ensures
            text@ == self.message_text(),
    {
        match self {
            ListenError::UnrecognizedFilter(token) => {
                "unrecognized event type: ".to_owned().concat(token.as_str())
            },
            ListenError::ChainNotFound(id) => {
                "chain '".to_owned().concat(id.as_str()).concat("' not found in configuration")
            },
            ListenError::SubscriptionSetup(cause) => {
                "could not initialize event monitor: ".to_owned().concat(cause.as_str())
            },
            ListenError::SubscriptionRequest(cause) => {
                "could not initialize subscriptions: ".to_owned().concat(cause.as_str())
            },
        }
    }
}

} // verus!
