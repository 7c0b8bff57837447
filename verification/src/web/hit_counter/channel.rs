//! The two ends of the hit channel: the handle through which request
//! handlers record views, and the inbox from which the aggregator's driver
//! reads them.

use crate::domain::clip::field::ShortCode;
use crate::web::hit_counter::aggregator::{Event, Message, MessageView};
use vstd::prelude::*;

verus! {

/// The sending end of a `crossbeam_channel` channel, carried as it is.
#[verifier::external_type_specification]
#[verifier::external_body]
#[verifier::reject_recursive_types(T)]
pub struct ExSender<T>(crossbeam_channel::Sender<T>);

/// The receiving end of a `crossbeam_channel` channel, carried as it is.
#[verifier::external_type_specification]
#[verifier::external_body]
#[verifier::reject_recursive_types(T)]
pub struct ExReceiver<T>(crossbeam_channel::Receiver<T>);

/// The producer end of the hit channel. It can be shared by any number of
/// request handlers; the channel closes when the handle is dropped.
pub struct HitCounter {
    tx: crossbeam_channel::Sender<Message>,
}

/// The consumer end of the hit channel.
pub struct Inbox {
    rx: crossbeam_channel::Receiver<Message>,
}

/// Calls `crossbeam_channel::unbounded`, which creates a channel of
/// unlimited capacity and returns its two ends. Nothing is claimed of them.
#[verifier::external_body]
fn open_channel() -> (ends: (
    crossbeam_channel::Sender<Message>,
    crossbeam_channel::Receiver<Message>,
)) {
    crossbeam_channel::unbounded()
}

/// Calls `crossbeam_channel::Sender::send`. On a channel of unlimited
/// capacity the call does not block. It fails only when the receiving end
/// is gone, and then hands the message back: that the message in the error
/// is the one that was passed in is all that is claimed.
#[verifier::external_body]
fn send(tx: &crossbeam_channel::Sender<Message>, message: Message) -> (outcome: Result<
    (),
    Message,
>)
    ensures
        outcome matches Err(returned) ==> returned == message,
{
    match tx.send(message) {
        Ok(()) => Ok(()),
        Err(error) => Err(error.0),
    }
}

/// Calls `crossbeam_channel::Receiver::try_recv`, which returns at once
/// with a message, or with the news that the channel is empty, or that it is
/// empty and every sender is gone. Which of the three comes back depends on
/// the other threads; claimed is only that it is one of the three.
#[verifier::external_body]
fn try_receive(rx: &crossbeam_channel::Receiver<Message>) -> (event: Event)
    ensures
        event is Received || event is Idle || event is Closed,
{
    match rx.try_recv() {
        Ok(message) => Event::Received(message),
        Err(crossbeam_channel::TryRecvError::Empty) => Event::Idle,
        Err(crossbeam_channel::TryRecvError::Disconnected) => Event::Closed,
    }
}

impl HitCounter {
    /// Opens a hit channel and returns its two ends.
    pub fn new() -> (ends: (HitCounter, Inbox)) {
        let (tx, rx) = open_channel();
        (HitCounter { tx }, Inbox { rx })
    }

    /// Records `hits` more views of `shortcode`: sends the increment to the
    /// aggregator and returns without waiting for it to be merged or
    /// persisted. When the aggregator is no longer reachable the increment
    /// comes back undelivered.
    pub fn record(&self, shortcode: ShortCode, hits: u32) -> (outcome: Result<(), Message>)
        ensures
            outcome matches Err(undelivered) ==> undelivered@ == MessageView::Increment(
                shortcode@,
                hits as nat,
            ),
    {
        send(&self.tx, Message::Increment(shortcode, hits))
    }

    /// Asks the aggregator to hand out what is pending for commit now.
    pub fn flush(&self) -> (outcome: Result<(), Message>)
        ensures
            outcome matches Err(undelivered) ==> undelivered@ == MessageView::FlushTick,
    {
        send(&self.tx, Message::FlushTick)
    }
}

impl Inbox {
    /// What the channel holds for the aggregator at this moment: the next
    /// message, or the news that it is idle or closed.
    pub fn poll(&self) -> (event: Event)
        ensures
            event is Received || event is Idle || event is Closed,
    {
        try_receive(&self.rx)
    }
}

} // verus!
