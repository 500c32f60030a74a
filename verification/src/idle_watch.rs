//! The watch for new mail: a connection that does nothing but idle. Its
//! decisions are when to wake the program, and how long to wait before it
//! connects again.

use vstd::prelude::*;

verus! {

/// How long one idle lasts before it is started again, in seconds.
pub const IDLE_ROUND_TRIP: u64 = 1740;

/// The longest wait before connecting again, in seconds.
pub const MAX_RECONNECT_DELAY: u64 = 16;

/// A connection that lasted this many seconds counts as one that worked.
pub const CONNECTED_LONG_ENOUGH_TO_RESET_BACKOFF: u64 = 60;

/// The watched mailbox changed in some way.
#[derive(Debug, Clone, Copy, PartialEq, Eq, Structural)]
pub struct MailboxChanged;

/// How an idle ended.
#[derive(Debug, Clone, Copy, PartialEq, Eq, Structural)]
pub enum IdleResponse {
    /// The server pushed something.
    NewData,
    /// The round trip is over.
    Timeout,
    /// The wait was interrupted.
    ManualInterrupt,
}

/// What a push means to the program; the other ends of an idle mean nothing.
pub fn wake_for(response: IdleResponse) -> (r: Option<MailboxChanged>)
    ensures
        r == (if response == IdleResponse::NewData {
            Some(MailboxChanged)
        } else {
            None
        }),
{
    match response {
        IdleResponse::NewData => Some(MailboxChanged),
        IdleResponse::Timeout => None,
        IdleResponse::ManualInterrupt => None,
    }
}

/// The wait before the next connection.
pub struct Backoff {
    delay: u64,
}

impl View for Backoff {
    type V = nat;

    closed spec fn view(&self) -> nat {
        self.delay as nat
    }
}

/// The wait once a connection ended: from one second again if it lasted.
pub open spec fn wait_after(delay: nat, lasted: nat) -> nat {
    if lasted >= CONNECTED_LONG_ENOUGH_TO_RESET_BACKOFF {
        1
    } else {
        delay
    }
}

/// Twice a wait, up to the longest.
pub open spec fn next_wait(delay: nat) -> nat {
    if 2 * delay > MAX_RECONNECT_DELAY {
        MAX_RECONNECT_DELAY as nat
    } else {
        2 * delay
    }
}

impl Backoff {
    /// The first wait is one second.
    pub fn new() -> (r: Self)
        ensures
            r@ == 1,
    {
        Backoff { delay: 1 }
    }

    /// A connection that lasted so many seconds has ended: how many seconds to
    /// wait before the next one.
    pub fn ended(&mut self, lasted: u64) -> (r: u64)
        ensures
            r == wait_after(old(self)@, lasted as nat),
            final(self)@ == next_wait(r as nat),
    {
        let wait: u64 = if lasted >= CONNECTED_LONG_ENOUGH_TO_RESET_BACKOFF {
            1
        } else {
            self.delay
        };
        self.delay = if wait > MAX_RECONNECT_DELAY / 2 {
            MAX_RECONNECT_DELAY
        } else {
            wait * 2
        };
        wait
    }
}

/// The waits in seconds after a run of connections that lasted so long each.
pub open spec fn waits(lasted: Seq<nat>, delay: nat) -> Seq<nat>
    decreases lasted.len(),
{
    if lasted.len() == 0 {
        seq![]
    } else {
        let wait = wait_after(delay, lasted.first());
        seq![wait] + waits(lasted.drop_first(), next_wait(wait))
    }
}

/// However the connections fare, no wait is shorter than a second or longer
/// than the longest, and a connection that worked is followed by a wait of a
/// second.
pub proof fn law_waits_are_bounded(lasted: Seq<nat>, delay: nat)
    requires
        1 <= delay <= MAX_RECONNECT_DELAY,
    ensures
        waits(lasted, delay).len() == lasted.len(),
        forall|i: int|
            0 <= i < lasted.len() ==> 1 <= #[trigger] waits(lasted, delay)[i]
                <= MAX_RECONNECT_DELAY && (lasted[i] >= CONNECTED_LONG_ENOUGH_TO_RESET_BACKOFF
                ==> waits(lasted, delay)[i] == 1),
    decreases lasted.len(),
{
    if lasted.len() > 0 {
        let wait = wait_after(delay, lasted.first());
        let rest = lasted.drop_first();
        law_waits_are_bounded(rest, next_wait(wait));
        assert forall|i: int| 0 <= i < lasted.len() implies 1 <= #[trigger] waits(lasted, delay)[i]
            <= MAX_RECONNECT_DELAY && (lasted[i] >= CONNECTED_LONG_ENOUGH_TO_RESET_BACKOFF
            ==> waits(lasted, delay)[i] == 1) by {
            if i > 0 {
                assert(waits(lasted, delay)[i] == waits(rest, next_wait(wait))[i - 1]);
                assert(rest[i - 1] == lasted[i]);
            }
        }
    }
}

} // verus!
