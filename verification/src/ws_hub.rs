//! WebSocket hub: fans JSON events out to every connected client through a
//! bounded broadcast channel (slow clients lose the oldest events).
use tokio::sync::broadcast::{Receiver, Sender};
use vstd::prelude::*;

verus! {

#[verifier::external_type_specification]
#[verifier::external_body]
#[verifier::reject_recursive_types(T)]
pub struct ExBroadcastSender<T>(Sender<T>);

#[verifier::external_type_specification]
#[verifier::external_body]
#[verifier::reject_recursive_types(T)]
pub struct ExBroadcastReceiver<T>(Receiver<T>);

/// Default capacity of the broadcast channel (events in flight).
pub const DEFAULT_CAPACITY: usize = 256;

/// The number of events a broadcast channel holds in flight, fixed when the
/// channel is made.
pub uninterp spec fn channel_capacity(sender: Sender<String>) -> nat;

/// The smallest power of two that is at least `n`, searching from `p`.
pub open spec fn power_of_two_at_least(n: nat, p: nat) -> nat
    decreases n - p,
{
    if p == 0 {
        1
    } else if p >= n {
        p
    } else if 2 * p >= n {
        2 * p
    } else {
        power_of_two_at_least(n, 2 * p)
    }
}

/// The sending half of a new `tokio::sync::broadcast::channel`, whose first
/// receiver is dropped at once. `channel` panics on a zero capacity or one
/// above `usize::MAX / 2`, hence the `requires`; it rounds the capacity up to
/// the next power of two (`capacity.next_power_of_two()`), which is what the
/// channel then holds.
#[verifier::external_body]
fn open_channel(capacity: usize) -> (sender: Sender<String>)
    requires
        0 < capacity <= usize::MAX / 2,
    ensures
        channel_capacity(sender) == power_of_two_at_least(capacity as nat, 1),
{
    let (sender, _) = tokio::sync::broadcast::channel(capacity);
    sender
}

/// `Sender::send`: `None` when no receiver is subscribed, else the number of
/// subscribed receivers, which the source shows to be at least one. How many
/// there are depends on other tasks, so nothing more is stated.
#[verifier::external_body]
fn send_event(sender: &Sender<String>, event: String) -> (r: Option<usize>)
    ensures
        r matches Some(n) ==> n >= 1,
{
    match sender.send(event) {
        Ok(n) => Some(n),
        Err(_) => None,
    }
}

/// `Sender::subscribe`: a receiver of the events sent from now on.
#[verifier::external_body]
fn subscribe_receiver(sender: &Sender<String>) -> Receiver<String> {
    sender.subscribe()
}

/// `Sender::receiver_count`: the receivers subscribed at the time of the
/// call, which other tasks change; nothing is stated.
#[verifier::external_body]
fn count_receivers(sender: &Sender<String>) -> usize {
    sender.receiver_count()
}

/// The rounded-up capacity is at least `n`, and below `2 * n` when the
/// search starts at a power of two no larger than `n`.
pub proof fn lemma_power_of_two_bounds(n: nat, p: nat)
    requires
        1 <= p <= n,
        is_power_of_two(p),
    ensures
        n <= power_of_two_at_least(n, p) < 2 * n,
        is_power_of_two(power_of_two_at_least(n, p)),
    decreases n - p,
{
    if p < n && 2 * p < n {
        assert(is_power_of_two(2 * p)) by {
            assert((2 * p) / 2 == p);
        }
        lemma_power_of_two_bounds(n, 2 * p);
    } else if p < n {
        assert(is_power_of_two(2 * p)) by {
            assert((2 * p) / 2 == p);
        }
    }
}

/// `p` is a power of two.
pub open spec fn is_power_of_two(p: nat) -> bool
    decreases p,
{
    if p <= 1 {
        p == 1
    } else {
        p % 2 == 0 && is_power_of_two(p / 2)
    }
}

/// How many clients a publication reached, from what the channel reported:
/// the number of subscribed receivers, or zero when there were none.
pub fn receivers_reached(sent: Option<usize>) -> (n: usize)
    ensures
        n == (match sent {
            Some(k) => k,
            None => 0,
        }),
{
    match sent {
        Some(k) => k,
        None => 0,
    }
}

/// Shared hub of the WebSocket clients.
#[derive(Debug)]
pub struct WsHub {
    sender: Sender<String>,
}

impl Default for WsHub {
    fn default() -> (h: Self)
        ensures
            h.capacity() == DEFAULT_CAPACITY,
    {
        let h = WsHub::new(DEFAULT_CAPACITY);
        assert(power_of_two_at_least(256, 1) == 256) by {
            reveal_with_fuel(power_of_two_at_least, 10);
        }
        h
    }
}

impl WsHub {
    /// The number of events the hub's channel holds in flight.
    pub closed spec fn capacity(&self) -> nat {
        channel_capacity(self.sender)
    }

    /// A hub whose channel holds `capacity` events in flight, rounded up to a
    /// power of two: at least `capacity` and fewer than twice as many.
    pub fn new(capacity: usize) -> (h: Self)
        requires
            0 < capacity <= usize::MAX / 2,
        ensures
            h.capacity() == power_of_two_at_least(capacity as nat, 1),
            capacity <= h.capacity() < 2 * capacity,
    {
        let h = WsHub { sender: open_channel(capacity) };
        proof {
            lemma_power_of_two_bounds(capacity as nat, 1);
        }
        h
    }

    /// Sends an event to every subscribed client and returns how many were
    /// subscribed; zero, silently, when there are none. The number depends on
    /// receivers that other tasks hold and drop, so no clause states it.
    pub fn publish(&self, event: String) -> (n: usize) {
        let sent = send_event(&self.sender, event);
        receivers_reached(sent)
    }

    /// A receiver for a new client. The receiver is an opaque channel handle,
    /// so no clause states it.
    pub fn subscribe(&self) -> Receiver<String> {
        subscribe_receiver(&self.sender)
    }

    /// Number of clients subscribed at the time of the call. Other tasks
    /// subscribe and drop receivers, so no clause states it.
    pub fn subscriber_count(&self) -> usize {
        count_receivers(&self.sender)
    }
}

} // verus!
