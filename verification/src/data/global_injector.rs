use vstd::prelude::*;

verus! {

/// The sending side of a `crossbeam_channel` channel.
#[verifier::external_type_specification]
#[verifier::external_body]
#[verifier::reject_recursive_types(T)]
pub struct ExChannelSender<T>(crossbeam_channel::Sender<T>);

/// The receiving side of a `crossbeam_channel` channel.
#[verifier::external_type_specification]
#[verifier::external_body]
#[verifier::reject_recursive_types(T)]
pub struct ExChannelReceiver<T>(crossbeam_channel::Receiver<T>);

/// Why the shared queue did not do what it was asked.
#[derive(Debug)]
pub enum InjectorError<T> {
    /// Every receiver is gone; the value that could not be sent comes back.
    Send(T),
    /// Nothing could be received.
    Recv,
}

/// `crossbeam_channel::unbounded`: a new channel without a bound.
#[verifier::external_body]
fn unbounded_channel<T>() -> (crossbeam_channel::Sender<T>, crossbeam_channel::Receiver<T>) {
    crossbeam_channel::unbounded()
}

/// `crossbeam_channel::Sender::send`. Other threads share the channel, so
/// whether the send succeeds is not stated; when it fails, the value that
/// comes back is the one that was to be sent.
#[verifier::external_body]
fn channel_send<T>(sender: &crossbeam_channel::Sender<T>, val: T) -> (r: Result<(), T>)
    ensures
        r matches Err(back) ==> back == val,
{
    sender.send(val).map_err(|e| e.into_inner())
}

/// `crossbeam_channel::Sender::len`: the number of messages in the channel
/// at some moment of the call.
#[verifier::external_body]
fn sender_len<T>(sender: &crossbeam_channel::Sender<T>) -> usize {
    sender.len()
}

/// `crossbeam_channel::Sender::clone`: another handle to the same channel.
#[verifier::external_body]
fn sender_clone<T>(sender: &crossbeam_channel::Sender<T>) -> crossbeam_channel::Sender<T> {
    sender.clone()
}

/// `crossbeam_channel::Receiver::recv`: waits until a message can be taken
/// or every sender is gone.
#[verifier::external_body]
fn channel_recv<T>(receiver: &crossbeam_channel::Receiver<T>) -> Option<T> {
    receiver.recv().ok()
}

/// `crossbeam_channel::Receiver::try_recv`: takes a message if one is there,
/// without waiting.
#[verifier::external_body]
fn channel_try_recv<T>(receiver: &crossbeam_channel::Receiver<T>) -> Option<T> {
    receiver.try_recv().ok()
}

/// `crossbeam_channel::Receiver::len`: the number of messages in the channel
/// at some moment of the call.
#[verifier::external_body]
fn receiver_len<T>(receiver: &crossbeam_channel::Receiver<T>) -> usize {
    receiver.len()
}

/// `crossbeam_channel::Receiver::clone`: another handle to the same channel.
#[verifier::external_body]
fn receiver_clone<T>(receiver: &crossbeam_channel::Receiver<T>) -> crossbeam_channel::Receiver<T> {
    receiver.clone()
}

/// The two ends of a new shared queue without a bound.
pub fn global_injector<T>() -> (InjectorSender<T>, InjectorReceiver<T>) {
    let (sender, receiver) = unbounded_channel();
    (InjectorSender { inner: sender }, InjectorReceiver { inner: receiver })
}

/// The sending end of the shared queue. Any thread may hold one.
#[verifier::reject_recursive_types(T)]
pub struct InjectorSender<T> {
    inner: crossbeam_channel::Sender<T>,
}

impl<T> InjectorSender<T> {
    /// Puts a value on the queue. When every receiver is gone the value
    /// comes back in the error.
    pub fn send(&self, val: T) -> (r: Result<(), InjectorError<T>>)
        ensures
            r matches Err(e) ==> e == InjectorError::Send(val),
    {
        match channel_send(&self.inner, val) {
            Ok(_) => Ok(()),
            Err(back) => Err(InjectorError::Send(back)),
        }
    }

    /// How many values the queue held at some moment of the call.
    pub fn len(&self) -> usize {
        sender_len(&self.inner)
    }

    /// Whether the queue was empty at some moment of the call.
    pub fn is_empty(&self) -> bool {
        sender_len(&self.inner) == 0
    }
}

impl<T> Clone for InjectorSender<T> {
    fn clone(&self) -> InjectorSender<T> {
        InjectorSender { inner: sender_clone(&self.inner) }
    }
}

/// The receiving end of the shared queue. Any thread may hold one.
#[verifier::reject_recursive_types(T)]
pub struct InjectorReceiver<T> {
    inner: crossbeam_channel::Receiver<T>,
}

impl<T> InjectorReceiver<T> {
    /// Takes a value from the queue, waiting until there is one. Fails when
    /// the queue is empty and every sender is gone.
    pub fn recv(&self) -> (r: Result<T, InjectorError<T>>)
        ensures
            r matches Err(e) ==> e == InjectorError::<T>::Recv,
    {
        match channel_recv(&self.inner) {
            Some(val) => Ok(val),
            None => Err(InjectorError::Recv),
        }
    }

    /// Takes a value from the queue if one is there.
    pub fn try_recv(&self) -> (r: Result<T, InjectorError<T>>)
        ensures
            r matches Err(e) ==> e == InjectorError::<T>::Recv,
    {
        match channel_try_recv(&self.inner) {
            Some(val) => Ok(val),
            None => Err(InjectorError::Recv),
        }
    }

    /// How many values the queue held at some moment of the call.
    pub fn len(&self) -> usize {
        receiver_len(&self.inner)
    }

    /// Whether the queue was empty at some moment of the call.
    pub fn is_empty(&self) -> bool {
        receiver_len(&self.inner) == 0
    }
}

impl<T> Clone for InjectorReceiver<T> {
    fn clone(&self) -> InjectorReceiver<T> {
        InjectorReceiver { inner: receiver_clone(&self.inner) }
    }
}

} // verus!
