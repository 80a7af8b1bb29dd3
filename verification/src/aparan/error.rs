//! Errors of the Aparan context.
use vstd::prelude::*;
use vstd::std_specs::convert::FromSpecImpl;

verus! {

/// The error that a channel's receiving end gives back once the channel is empty and closed.
#[verifier::external_type_specification]
#[verifier::external_body]
pub struct ExRecvError(async_channel::RecvError);

/// A general error, carried through from whatever failed.
#[verifier::external_type_specification]
#[verifier::external_body]
pub struct ExAnyhowError(anyhow::Error);

/// An application-specific error.
#[derive(Debug)]
pub enum AparanError {
    /// A receive was asked for while no registered channel is subscribed.
    NoSubscriptions,
    /// The channel could not be received from.
    ChannelReceiveError(async_channel::RecvError),
    /// Any other failure.
    Other(anyhow::Error),
}

/// A result whose error is an [`AparanError`].
pub type Result<T> = core::result::Result<T, AparanError>;

impl From<async_channel::RecvError> for AparanError {
    fn from(err: async_channel::RecvError) -> (res: Self) {
        AparanError::ChannelReceiveError(err)
    }
}

impl FromSpecImpl<async_channel::RecvError> for AparanError {
    open spec fn obeys_from_spec() -> bool {
        true
    }

    open spec fn from_spec(err: async_channel::RecvError) -> Self {
        AparanError::ChannelReceiveError(err)
    }
}

impl From<anyhow::Error> for AparanError {
    fn from(err: anyhow::Error) -> (res: Self) {
        AparanError::Other(err)
    }
}

impl FromSpecImpl<anyhow::Error> for AparanError {
    open spec fn obeys_from_spec() -> bool {
        true
    }

    open spec fn from_spec(err: anyhow::Error) -> Self {
        AparanError::Other(err)
    }
}

/// Builds the general error with the given message.
///
/// Trusted: calls `anyhow::Error::msg`, which wraps the message into an error
/// value; nothing is claimed of the value, which is opaque here.
#[verifier::external_body]
pub(crate) fn error_with_message(message: &'static str) -> (err: anyhow::Error) {
    anyhow::Error::msg(message)
}

} // verus!
