//! The parts of a data network: senders and receivers of messages, and the mapping of them
//! between message types.
use std::marker::PhantomData;

use vstd::prelude::*;

use crate::primitives::NodeIndex;

verus! {

/// Who a message goes to.
#[derive(Clone, Copy, Debug, PartialEq, Eq)]
pub enum Recipient {
    Everyone,
    Node(NodeIndex),
}

/// What can go wrong when sending.
#[derive(Clone, Copy, Debug, PartialEq, Eq, Structural)]
pub enum SendError {
    SendFailed,
}

/// For sending arbitrary messages.
pub trait Sender<D> {
    fn send(&self, data: D, recipient: Recipient) -> Result<(), SendError>;
}

/// A sender of messages of type `D` used for messages that convert into `D`.
pub struct MapSender<D, S> {
    sender: S,
    _phantom: PhantomData<D>,
}

impl<D, S> MapSender<D, S> {
    pub closed spec fn inner(&self) -> S {
        self.sender
    }
}

/// Turns a sender into one for messages that convert into its message type.
pub trait SenderMap<FromData>: Sender<FromData> + Sized {
    fn map(self) -> (res: MapSender<FromData, Self>)
        ensures
            res.inner() == self,
    {
        MapSender { sender: self, _phantom: PhantomData }
    }
}

impl<D, S: Sender<D>> SenderMap<D> for S {
}

impl<D, S: Sender<D>, IntoD: Into<D>> Sender<IntoD> for MapSender<D, S> {
    /// Converts the message and sends it with the inner sender.
    fn send(&self, data: IntoD, recipient: Recipient) -> (res: Result<(), SendError>)
        ensures
            exists|converted: D|
                #![trigger call_ensures(IntoD::into, (data,), converted)]
                call_ensures(IntoD::into, (data,), converted) && call_ensures(
                    <S as Sender<D>>::send,
                    (&self.inner(), converted, recipient),
                    res,
                ),
    {
        let converted: D = data.into();
        let res = self.sender.send(converted, recipient);
        res
    }
}

/// For receiving arbitrary messages.
pub trait Receiver<D> {
    fn next(&mut self) -> Option<D>;
}

/// A receiver of messages of type `D` used for messages that convert from `D`.
pub struct MapReceiver<D, R> {
    receiver: R,
    _phantom: PhantomData<D>,
}

impl<D, R> MapReceiver<D, R> {
    pub closed spec fn inner(&self) -> R {
        self.receiver
    }
}

/// Turns a receiver into one for messages that convert from its message type.
pub trait ReceiverMap<FromData>: Receiver<FromData> + Sized {
    fn map(self) -> (res: MapReceiver<FromData, Self>)
        ensures
            res.inner() == self,
    {
        MapReceiver { receiver: self, _phantom: PhantomData }
    }
}

impl<D, R: Receiver<D>> ReceiverMap<D> for R {
}

/// A bare version of network components.
pub trait Network<D> {
    type S: Sender<D>;

    type R: Receiver<D>;

    fn into(self) -> (Self::S, Self::R);
}

/// A network whose sender and receiver can be reached in place.
pub trait NetworkExt<D>: Network<D> {
    fn sender(&self) -> &Self::S;

    fn receiver(&mut self) -> &mut Self::R;
}

/// Abstraction for requesting stale blocks.
pub trait RequestBlocks {
    /// Request the given block; meant only for old forks.
    fn request_stale_block(&self, block: crate::primitives::BlockId);
}

} // verus!
