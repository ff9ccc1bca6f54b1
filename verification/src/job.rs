//! Background work units. A job carries a payload and the sending end of
//! the event channel; whoever runs the job computes with the payload and
//! sends the outcome back through the channel. Spawning the job onto a
//! thread is the caller's business — the library only builds jobs and
//! sends their results.

use vstd::prelude::*;

verus! {

#[verifier::external_type_specification]
#[verifier::external_body]
#[verifier::reject_recursive_types(T)]
pub struct ExSender<T>(std::sync::mpsc::Sender<T>);

/// Relies on Sender::clone: the clone feeds the same channel; nothing
/// about the value itself is promised or relied on.
#[verifier::external_body]
pub(crate) fn clone_sender<T>(tx: &std::sync::mpsc::Sender<T>) -> (r: std::sync::mpsc::Sender<T>) {
    tx.clone()
}

/// Relies on Sender::send: the message is delivered unless the receiving
/// end is gone; the result reports which of the two happened.
#[verifier::external_body]
fn send_into<T>(tx: &std::sync::mpsc::Sender<T>, message: T) -> (r: bool) {
    match tx.send(message) {
        Ok(()) => true,
        Err(_) => false,
    }
}

/// A unit of background work: a payload and the channel end its result is
/// announced through.
#[verifier::reject_recursive_types(T)]
pub struct Job<D, T> {
    pub tx: Option<std::sync::mpsc::Sender<T>>,
    pub data: D,
}

impl<D, T> Job<D, T> {
    pub fn new(data: D) -> (r: Self)
        ensures
            r.data == data,
            r.tx is None,
    {
        Job { data, tx: None }
    }

    pub fn tx(self, tx: std::sync::mpsc::Sender<T>) -> (r: Self)
        ensures
            r.data == self.data,
            r.tx is Some,
    {
        Job { tx: Some(tx), data: self.data }
    }

    /// Sends a message into the job's channel. A failed send means the
    /// consumer already left; that race is expected during shutdown and
    /// the failure is deliberately dropped.
    pub fn send(&self, message: T)
        requires
            self.tx is Some,
    {
        match &self.tx {
            Some(tx) => {
                let _ = send_into(tx, message);
            },
            None => {},
        }
    }
}

} // verus!
