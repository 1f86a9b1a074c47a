use vstd::prelude::*;
use std::sync::mpsc::Receiver;

verus! {

#[verifier::external_type_specification]
#[verifier::external_body]
#[verifier::reject_recursive_types(T)]
pub struct ExReceiver<T>(std::sync::mpsc::Receiver<T>);

/// Relies on std's `Receiver::try_recv`: takes a message that is already
/// waiting without blocking, and gives nothing when none is.
#[verifier::external_body]
fn next_waiting<T>(rx: &Receiver<T>) -> (r: Option<T>) {
    rx.try_recv().ok()
}

/// The last of the messages waiting on `rx`, after taking them all; nothing
/// when none was waiting. Reading stops after `u64::MAX` messages, which
/// bounds the loop whatever the senders do.
fn latest<T>(rx: &Receiver<T>) -> (r: Option<T>) {
    let mut last: Option<T> = None;
    let mut budget: u64 = u64::MAX;
    while budget > 0
        decreases budget,
    {
        match next_waiting(rx) {
            Some(v) => {
                last = Some(v);
                budget = budget - 1;
            },
            None => {
                return last;
            },
        }
    }
    last
}

/// The consumer's end of the status and server channels fed by the
/// background workers.
#[verifier::reject_recursive_types(St)]
#[verifier::reject_recursive_types(Sv)]
pub struct Wrapper<St, Sv> {
    status_rx: Receiver<Vec<St>>,
    server_rx: Receiver<Sv>,
}

impl<St, Sv> Wrapper<St, Sv> {
    pub fn new(status_rx: Receiver<Vec<St>>, server_rx: Receiver<Sv>) -> (r: Self) {
        Wrapper { status_rx, server_rx }
    }

    /// The newest device status list, dropping older ones still waiting.
    pub fn poll_status(&self) -> (r: Option<Vec<St>>) {
        latest(&self.status_rx)
    }

    /// The newest server status, dropping older ones still waiting.
    pub fn poll_server(&self) -> (r: Option<Sv>) {
        latest(&self.server_rx)
    }
}

} // verus!
