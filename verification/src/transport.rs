//! Dedicated data transports.

use vstd::prelude::*;

verus! {

/// A dedicated transport connection supplied by a tunnel node.
///
/// Unlike a [`Stream`](crate::Stream), it does not pass application data through the multiplexed
/// control session.
pub struct Transport<T> {
    inner: T,
    generation: u64,
}

impl<T> Transport<T> {
    /// The connection.
    pub closed spec fn connection(self) -> T {
        self.inner
    }

    /// The generation that the connection was supplied for.
    pub closed spec fn birth(self) -> u64 {
        self.generation
    }

    /// A connection with the generation that it was supplied for.
    pub closed spec fn of(inner: T, generation: u64) -> Self {
        Transport { inner, generation }
    }

    /// A connection and its generation make a transport of that connection and that generation,
    /// and of no other.
    pub proof fn law_made_of(inner: T, generation: u64)
        ensures
            Self::of(inner, generation).connection() == inner,
            Self::of(inner, generation).birth() == generation,
    {
    }

    pub fn new(inner: T, generation: u64) -> (result: Self)
        ensures
            result == Self::of(inner, generation),
            result.connection() == inner,
            result.birth() == generation,
    {
        Transport { inner, generation }
    }

    pub fn generation(&self) -> (result: u64)
        ensures
            result == self.birth(),
    {
        self.generation
    }

    /// The connection, for its owner's I/O.
    pub fn inner_mut(&mut self) -> (result: &mut T)
        ensures
            *result == old(self).connection(),
            final(self).connection() == *final(result),
            final(self).birth() == old(self).birth(),
    {
        &mut self.inner
    }

    /// Takes the connection out.
    pub fn into_inner(self) -> (result: T)
        ensures
            result == self.connection(),
    {
        self.inner
    }
}

/// A transport gives its connection and its generation back as they were.
pub proof fn law_transports_keep_their_connection<T>(
    inner: T,
    generation: u64,
    transport: Transport<T>,
    told: u64,
    out: T,
)
    requires
        call_ensures(Transport::<T>::new, (inner, generation), transport),
        call_ensures(Transport::<T>::generation, (&transport,), told),
        call_ensures(Transport::<T>::into_inner, (transport,), out),
    ensures
        told == generation,
        out == inner,
{
}

} // verus!
