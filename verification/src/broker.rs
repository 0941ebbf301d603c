//! A message broker that lets actors register under a name, and sends them
//! messages by name.

use crate::strmap::StrMap;
use std::sync::mpsc::Sender;
use vstd::prelude::*;

verus! {

/// `std::sync::mpsc::Sender`, the sending end of a channel, carried through as
/// it is.
#[verifier::external_type_specification]
#[verifier::external_body]
#[verifier::reject_recursive_types(T)]
pub struct ExSender<T>(std::sync::mpsc::Sender<T>);

/// Sends `message` on `sender` with `Sender::send` and tells whether it went
/// through. The send fails when the receiving end has been dropped, which
/// nothing here can see, so no clause states the outcome.
#[verifier::external_body]
fn send_on<M>(sender: &Sender<M>, message: M) -> (sent: bool) {
    sender.send(message).is_ok()
}

/// The messages of the broker protocol.
#[derive(Clone, Copy, Debug, PartialEq, Eq, Structural)]
pub enum Message {
    AddWorker,
    RemoveWorker,
    Shutdown,
}

/// The name of a message, as it is displayed.
pub open spec fn message_name(m: Message) -> Seq<char> {
    match m {
        Message::AddWorker => "AddWorker"@,
        Message::RemoveWorker => "RemoveWorker"@,
        Message::Shutdown => "Shutdown"@,
    }
}

impl Message {
    /// The name of the message, as it is displayed.
    pub fn name(&self) -> (s: String)
        ensures
            s@ == message_name(*self),
    {
        match self {
            Message::AddWorker => "AddWorker".to_owned(),
            Message::RemoveWorker => "RemoveWorker".to_owned(),
            Message::Shutdown => "Shutdown".to_owned(),
        }
    }
}

/// Why the broker refused a request.
#[derive(Clone, Copy, Debug, PartialEq, Eq, Structural)]
pub enum BrokerError {
    DuplicateTarget,
    NoSuchTarget,
    SendingError,
}

/// What a send returns, given whether the channel took the message.
pub fn delivery_result(sent: bool) -> (r: Result<(), BrokerError>)
    ensures
        sent ==> r == Ok::<(), BrokerError>(()),
        !sent ==> r == Err::<(), BrokerError>(BrokerError::SendingError),
{
    if sent {
        Ok(())
    } else {
        Err(BrokerError::SendingError)
    }
}

/// The registered actors, each reached through the sending end of a channel.
#[verifier::reject_recursive_types(M)]
pub struct MessageBroker<M> {
    actors: StrMap<Sender<M>>,
}

impl<M> MessageBroker<M> {
    /// The actors, by name.
    pub closed spec fn actors(&self) -> Map<Seq<char>, Sender<M>> {
        self.actors@
    }

    /// The names of the actors, in the order they registered.
    pub closed spec fn names(&self) -> Seq<Seq<char>> {
        self.actors.key_seq()
    }

    /// Well-formedness of the broker.
    pub closed spec fn wf(&self) -> bool {
        self.actors.wf()
    }

    /// A broker with no actor.
    pub fn new() -> (b: Self)
        ensures
            b.wf(),
            b.actors() == Map::<Seq<char>, Sender<M>>::empty(),
    {
        MessageBroker { actors: StrMap::new() }
    }

    /// Registers `sender` under the name `target`; fails if that name is taken.
    pub fn add_actor(&mut self, target: &str, sender: Sender<M>) -> (r: Result<(), BrokerError>)
        requires
            old(self).wf(),
        ensures
            final(self).wf(),
            old(self).actors().contains_key(target@) ==> r == Err::<(), BrokerError>(
                BrokerError::DuplicateTarget,
            ) && *final(self) == *old(self),
            !old(self).actors().contains_key(target@) ==> r == Ok::<(), BrokerError>(())
                && final(self).actors() == old(self).actors().insert(target@, sender),
    {
        if self.actors.contains_key(target) {
            return Err(BrokerError::DuplicateTarget);
        }
        self.actors.insert(target.to_owned(), sender);
        Ok(())
    }

    /// Unregisters the actor named `target`; fails if there is none.
    pub fn remove_actor(&mut self, target: &str) -> (r: Result<(), BrokerError>)
        requires
            old(self).wf(),
        ensures
            final(self).wf(),
            !old(self).actors().contains_key(target@) ==> r == Err::<(), BrokerError>(
                BrokerError::NoSuchTarget,
            ) && *final(self) == *old(self),
            old(self).actors().contains_key(target@) ==> r == Ok::<(), BrokerError>(())
                && final(self).actors() == old(self).actors().remove(target@),
    {
        if !self.actors.contains_key(target) {
            return Err(BrokerError::NoSuchTarget);
        }
        self.actors.remove(target);
        Ok(())
    }

    /// Sends `message` to the actor named `target`. Fails with `NoSuchTarget`
    /// if there is none, and with `SendingError` if its channel is closed.
    pub fn send_message(&mut self, target: &str, message: M) -> (r: Result<(), BrokerError>)
        requires
            old(self).wf(),
        ensures
            *final(self) == *old(self),
            r == Err::<(), BrokerError>(BrokerError::NoSuchTarget) <==> !old(
                self,
            ).actors().contains_key(target@),
            r is Err ==> r == Err::<(), BrokerError>(BrokerError::NoSuchTarget) || r == Err::<
                (),
                BrokerError,
            >(BrokerError::SendingError),
    {
        match self.actors.get(target) {
            None => Err(BrokerError::NoSuchTarget),
            Some(sender) => delivery_result(send_on(sender, message)),
        }
    }

    /// Sends a copy of `message` to every actor, in the order they registered;
    /// a closed channel is passed over.
    pub fn broadcast_message(&mut self, message: M) where M: Clone
        requires
            old(self).wf(),
        ensures
            *final(self) == *old(self),
    {
        let n = self.actors.len();
        let mut i: usize = 0;
        while i < n
            invariant
                self.wf(),
                n == self.names().len(),
                i <= n,
            decreases n - i,
        {
            proof {
                self.actors.lemma_shape();
            }
            let _ = send_on(self.actors.value_at(i), message.clone());
            i = i + 1;
        }
    }
}

/// A name is taken once registered, and unregistering it gives the actors back
/// as they were.
pub proof fn law_register_then_unregister<M>(b: MessageBroker<M>, target: Seq<char>, sender: Sender<M>)
    requires
        b.wf(),
        !b.actors().contains_key(target),
    ensures
        b.actors().insert(target, sender).contains_key(target),
        b.actors().insert(target, sender).remove(target) == b.actors(),
{
    assert(b.actors().insert(target, sender).remove(target) =~= b.actors());
}

} // verus!
