//! The reconnect policy of the event exporter that streams HiveEvents to
//! PulseVision's ingest endpoint: exponential backoff from one second up to
//! thirty.

use vstd::prelude::*;
use vstd::arithmetic::power2::{pow2, lemma_pow2_unfold, lemma_pow2_strictly_increases};

verus! {

/// Seconds waited before the first retry, and after every connection.
pub const INITIAL_RETRY_SECS: u64 = 1;

/// Longest wait between retries, in seconds.
pub const MAX_RETRY_SECS: u64 = 30;

/// What happened to the exporter's connection.
pub enum LinkEvent {
    /// The WebSocket connection was established.
    Connected,
    /// Connecting failed.
    ConnectFailed,
    /// Forwarding stopped: a send failed, or the exporter's channel
    /// closed (`channel_closed`).
    Disconnected { channel_closed: bool },
}

/// What the exporter's connection task does next.
pub enum LinkAction {
    /// Forward queued events over the connection.
    Forward,
    /// Wait this many seconds, then connect again.
    Sleep(u64),
    /// The exporter is gone: stop.
    Exit,
}

/// The wait that follows a wait of `d` seconds: twice as long, at most
/// `MAX_RETRY_SECS`.
pub open spec fn grown_delay(d: u64) -> u64 {
    if 2 * d <= MAX_RETRY_SECS {
        (2 * d) as u64
    } else {
        MAX_RETRY_SECS
    }
}

/// The exporter's action on `event` while its retry delay is `d`.
pub open spec fn link_action(d: u64, event: LinkEvent) -> LinkAction {
    match event {
        LinkEvent::Connected => LinkAction::Forward,
        LinkEvent::ConnectFailed => LinkAction::Sleep(d),
        LinkEvent::Disconnected { channel_closed } => if channel_closed {
            LinkAction::Exit
        } else {
            LinkAction::Sleep(d)
        },
    }
}

/// The retry delay after `event` while it is `d`: reset by a connection,
/// grown by every wait.
pub open spec fn next_delay(d: u64, event: LinkEvent) -> u64 {
    match event {
        LinkEvent::Connected => INITIAL_RETRY_SECS,
        LinkEvent::ConnectFailed => grown_delay(d),
        LinkEvent::Disconnected { channel_closed } => if channel_closed {
            d
        } else {
            grown_delay(d)
        },
    }
}

/// The reconnect state of an exporter.
pub struct Reconnect {
    retry_delay_secs: u64,
}

impl Reconnect {
    #[verifier::type_invariant]
    spec fn delay_in_range(self) -> bool {
        INITIAL_RETRY_SECS <= self.retry_delay_secs <= MAX_RETRY_SECS
    }

    /// The current retry delay in seconds.
    pub closed spec fn delay(self) -> u64 {
        self.retry_delay_secs
    }

    /// A fresh exporter waits one second before its first retry.
    pub fn new() -> (r: Reconnect)
        ensures
            r.delay() == INITIAL_RETRY_SECS,
    {
        Reconnect { retry_delay_secs: INITIAL_RETRY_SECS }
    }

    /// Decides what to do on `event` and updates the retry delay.
    pub fn step(&mut self, event: LinkEvent) -> (action: LinkAction)
        ensures
            action == link_action(old(self).delay(), event),
            final(self).delay() == next_delay(old(self).delay(), event),
            INITIAL_RETRY_SECS <= final(self).delay() <= MAX_RETRY_SECS,
    {
        proof {
            use_type_invariant(&*self);
        }
        let d = self.retry_delay_secs;
        match event {
            LinkEvent::Connected => {
                self.retry_delay_secs = INITIAL_RETRY_SECS;
                LinkAction::Forward
            },
            LinkEvent::ConnectFailed => {
                self.grow();
                LinkAction::Sleep(d)
            },
            LinkEvent::Disconnected { channel_closed } => {
                if channel_closed {
                    LinkAction::Exit
                } else {
                    self.grow();
                    LinkAction::Sleep(d)
                }
            },
        }
    }

    fn grow(&mut self)
        ensures
            final(self).delay() == grown_delay(old(self).delay()),
    {
        proof {
            use_type_invariant(&*self);
        }
        if self.retry_delay_secs <= MAX_RETRY_SECS / 2 {
            self.retry_delay_secs = 2 * self.retry_delay_secs;
        } else {
            self.retry_delay_secs = MAX_RETRY_SECS;
        }
    }
}

/// The retry delay after `k` failed connection attempts in a row, starting
/// from a fresh exporter or a fresh connection.
pub open spec fn delay_after_failures(k: nat) -> u64
    decreases k,
{
    if k == 0 {
        INITIAL_RETRY_SECS
    } else {
        next_delay(delay_after_failures((k - 1) as nat), LinkEvent::ConnectFailed)
    }
}

/// Exponential backoff: after `k` failed attempts in a row the exporter
/// waits `min(2^k, 30)` seconds (1, 2, 4, 8, 16, then 30 s).
pub proof fn lemma_exponential_backoff(k: nat)
    ensures
        delay_after_failures(k) == if pow2(k) <= MAX_RETRY_SECS {
            pow2(k)
        } else {
            MAX_RETRY_SECS as nat
        },
    decreases k,
{
    if k == 0 {
        assert(pow2(0) == 1) by {
            vstd::arithmetic::power2::lemma2_to64();
        }
    } else {
        lemma_exponential_backoff((k - 1) as nat);
        lemma_pow2_unfold(k);
        if pow2((k - 1) as nat) > MAX_RETRY_SECS {
            lemma_pow2_strictly_increases((k - 1) as nat, k);
        }
    }
}

/// The exporter's policy for every retry delay it can hold (1 to 30 s):
/// a connection forwards and resets the delay to one second; a failed
/// attempt, or a dropped connection while the exporter lives, waits the
/// current delay and then doubles it up to thirty seconds; only a closed
/// channel (the exporter dropped) exits, keeping the delay.
pub proof fn lemma_reconnect_policy(d: u64)
    requires
        1 <= d <= 30,
    ensures
        link_action(d, LinkEvent::Connected) == LinkAction::Forward,
        next_delay(d, LinkEvent::Connected) == 1,
        link_action(d, LinkEvent::ConnectFailed) == LinkAction::Sleep(d),
        link_action(d, LinkEvent::Disconnected { channel_closed: false }) == LinkAction::Sleep(d),
        link_action(d, LinkEvent::Disconnected { channel_closed: true }) == LinkAction::Exit,
        next_delay(d, LinkEvent::ConnectFailed) == if 2 * d <= 30 {
            2 * d
        } else {
            30
        },
        next_delay(d, LinkEvent::Disconnected { channel_closed: false }) == if 2 * d <= 30 {
            2 * d
        } else {
            30
        },
        next_delay(d, LinkEvent::Disconnected { channel_closed: true }) == d,
{
}

} // verus!
