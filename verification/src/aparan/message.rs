//! Messages exchanged between workers.
use vstd::prelude::*;

verus! {

/// What a message may carry: a value that can be printed and shared between threads.
pub trait Sendable: core::fmt::Debug + Send + Sync {}

impl Sendable for String {}

impl Sendable for i32 {}

/// A message that borrows its body.
///
/// The body type is a parameter so that a message can carry either a concrete
/// value or a trait object (`Message<'a, dyn Sendable>`).
pub struct Message<'a, B: ?Sized> {
    body: &'a B,
}

impl<'a, B: ?Sized + Sendable> Message<'a, B> {
    /// The body that the message carries.
    pub closed spec fn body_ref(&self) -> &'a B {
        self.body
    }

    /// Wraps `body` into a message.
    pub fn new(body: &'a B) -> (message: Self)
        ensures
            message.body_ref() == body,
    {
        Message { body }
    }

    /// The body of the message.
    pub fn get_body(&self) -> (body: &'a B)
        ensures
            body == self.body_ref(),
    {
        self.body
    }
}

} // verus!
