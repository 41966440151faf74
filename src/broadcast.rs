use crate::game::{State, StateView};
use tokio::sync::watch;
use vstd::prelude::*;

verus! {

/// The sending half of a latest-value channel of tokio.
#[verifier::external_type_specification]
#[verifier::external_body]
#[verifier::reject_recursive_types(T)]
pub struct ExSender<T>(watch::Sender<T>);

/// The receiving half of a latest-value channel of tokio.
#[verifier::external_type_specification]
#[verifier::external_body]
#[verifier::reject_recursive_types(T)]
pub struct ExReceiver<T>(watch::Receiver<T>);

/// Relies on tokio::sync::watch::channel to open a channel that holds `init`
/// as its first value.
pub assume_specification<T>[ watch::channel::<T> ](init: T) -> (watch::Sender<T>, watch::Receiver<T>);

/// Relies on tokio::sync::watch::Sender::send_replace to publish a value to all
/// receivers, replacing the one held; it never fails.
pub assume_specification<T>[ watch::Sender::<T>::send_replace ](s: &watch::Sender<T>, value: T) -> T;

/// Relies on tokio::sync::watch::Sender::subscribe to hand out a new receiver
/// positioned at the value held now.
pub assume_specification<T>[ watch::Sender::<T>::subscribe ](s: &watch::Sender<T>) -> watch::Receiver<T>;

/// The publishing side of a game's state channel. `latest` is the value the
/// channel holds: the last one handed to it.
pub struct Publisher {
    sender: watch::Sender<State>,
    latest: Ghost<StateView>,
}

/// A subscription to a game's state channel, made at the value `seen`.
pub struct Subscription {
    pub receiver: watch::Receiver<State>,
    seen: Ghost<StateView>,
}

impl Subscription {
    /// The value the channel held when this subscription was made.
    pub closed spec fn seen(&self) -> StateView {
        self.seen@
    }
}

impl Publisher {
    /// The value the channel holds: every receiver, old or new, reads it.
    pub closed spec fn latest(&self) -> StateView {
        self.latest@
    }

    /// Opens a channel that holds `init`, with a first subscription to it.
    pub fn new(init: State) -> (r: (Publisher, Subscription))
        ensures
            r.0.latest() == init@,
            r.1.seen() == init@,
    {
        let ghost v = init@;
        let (sender, receiver) = watch::channel(init);
        (Publisher { sender, latest: Ghost(v) }, Subscription { receiver, seen: Ghost(v) })
    }

    /// Replaces the value the channel holds with `value`.
    pub fn publish(&mut self, value: State)
        ensures
            final(self).latest() == value@,
    {
        let ghost v = value@;
        self.sender.send_replace(value);
        self.latest = Ghost(v);
    }

    /// A new subscription, made at the value the channel holds.
    pub fn subscribe(&self) -> (r: Subscription)
        ensures
            r.seen() == self.latest(),
    {
        Subscription { receiver: self.sender.subscribe(), seen: Ghost(self.latest@) }
    }
}

} // verus!
