//! The decisions of a port worker: the background loop that opens a device,
//! retries while it cannot, streams what it reads, and reopens after a loss.
//! The loop itself performs the actions and reports what came of each as an
//! event; this module decides the next action and tracks whether the device
//! is open.

use vstd::prelude::*;

verus! {

/// The pause between two attempts to open a device, in milliseconds.
pub const RETRY_INTERVAL_MS: u64 = 500;

/// Whether the device is open.
#[derive(Clone, Copy, Debug, PartialEq, Eq, Structural)]
pub enum LinkState {
    /// No attempt to open the device has finished yet.
    Untried,
    /// The last attempt failed, or the device was lost.
    Unavailable,
    /// The device is open.
    Open,
}

impl LinkState {
    /// Whether the device is open.
    pub fn is_physical_connected(&self) -> (r: bool)
        ensures
            r == (*self == LinkState::Open),
    {
        match self {
            LinkState::Open => true,
            _ => false,
        }
    }

    /// Whether the worker runs and has made at least one attempt to open the
    /// device.
    pub fn is_activate(&self, running: bool) -> (r: bool)
        ensures
            r == (*self != LinkState::Untried && running),
    {
        match self {
            LinkState::Untried => false,
            _ => running,
        }
    }
}

/// What came of the last action.
#[derive(Debug)]
pub enum WorkerEvent {
    /// The worker has just been started.
    Started,
    /// The device was opened.
    OpenSucceeded,
    /// The device could not be opened.
    OpenFailed,
    /// The retry pause is over.
    Waited,
    /// This many bytes are waiting to be read.
    Polled(u32),
    /// The device could not be asked how many bytes are waiting.
    PollFailed,
    /// These bytes were read.
    ReadSucceeded(Vec<u8>),
    /// The read timed out: nothing was read.
    ReadTimedOut,
    /// The read failed for another reason.
    ReadFailed,
    /// The text was handed to the owner.
    Delivered,
    /// The owner no longer receives.
    ReceiverGone,
}

/// The next thing for the worker to do.
#[derive(Debug)]
pub enum WorkerAction {
    /// Try to open the device.
    Open,
    /// Pause for this many milliseconds.
    Wait(u64),
    /// Ask how many bytes are waiting.
    Poll,
    /// Read this many bytes.
    Read(u32),
    /// Hand this text to the owner.
    Deliver(String),
    /// Stop for good.
    Exit,
}

/// The text that lossy UTF-8 decoding gives for some bytes.
pub uninterp spec fn utf8_lossy(bytes: Seq<u8>) -> Seq<char>;

/// Relies on std's `String::from_utf8_lossy`: the text depends on the bytes
/// alone, and no bytes give no text.
#[verifier::external_body]
fn decode_lossy(bytes: &[u8]) -> (r: String)
    ensures
        r@ == utf8_lossy(bytes@),
        bytes@.len() == 0 ==> r@.len() == 0,
{
    String::from_utf8_lossy(bytes).into_owned()
}

/// Whether the device is open after `event`.
pub open spec fn next_link(link: LinkState, running: bool, event: WorkerEvent) -> LinkState {
    if !running {
        link
    } else {
        match event {
            WorkerEvent::OpenSucceeded => LinkState::Open,
            WorkerEvent::OpenFailed => LinkState::Unavailable,
            WorkerEvent::PollFailed => LinkState::Unavailable,
            WorkerEvent::ReadFailed => LinkState::Unavailable,
            _ => link,
        }
    }
}

/// Whether `action` is the one to take after `event`. A worker that is no
/// longer running exits; a failed open is retried after the pause; a failed
/// poll or read reopens the device; a timed-out read and an empty poll go
/// on polling; read bytes are decoded and handed on; a gone receiver ends
/// the worker.
pub open spec fn decided(running: bool, event: WorkerEvent, action: WorkerAction) -> bool {
    if !running {
        action is Exit
    } else {
        match event {
            WorkerEvent::Started => action is Open,
            WorkerEvent::OpenSucceeded => action is Poll,
            WorkerEvent::OpenFailed => action == WorkerAction::Wait(RETRY_INTERVAL_MS),
            WorkerEvent::Waited => action is Open,
            WorkerEvent::Polled(n) => if n == 0 {
                action is Poll
            } else {
                action == WorkerAction::Read(n)
            },
            WorkerEvent::PollFailed => action is Open,
            WorkerEvent::ReadSucceeded(bytes) => action is Deliver && action->Deliver_0@
                == utf8_lossy(bytes@),
            WorkerEvent::ReadTimedOut => action is Poll,
            WorkerEvent::ReadFailed => action is Open,
            WorkerEvent::Delivered => action is Poll,
            WorkerEvent::ReceiverGone => action is Exit,
        }
    }
}

/// The state that a worker keeps between steps.
pub struct Worker {
    link: LinkState,
}

impl Worker {
    /// A worker that has not tried to open its device yet.
    pub fn new() -> (r: Self)
        ensures
            r.link_spec() == LinkState::Untried,
    {
        Worker { link: LinkState::Untried }
    }

    pub closed spec fn link_spec(&self) -> LinkState {
        self.link
    }

    /// Whether the device is open.
    pub fn link(&self) -> (r: LinkState)
        ensures
            r == self.link_spec(),
    {
        self.link
    }

    /// Takes in what came of the last action, with the owner's `running`
    /// flag as it stands now, and decides the next action.
    pub fn step(&mut self, running: bool, event: WorkerEvent) -> (r: WorkerAction)
        ensures
            final(self).link_spec() == next_link(old(self).link_spec(), running, event),
            decided(running, event, r),
    {
        if !running {
            return WorkerAction::Exit;
        }
        match event {
            WorkerEvent::Started => WorkerAction::Open,
            WorkerEvent::OpenSucceeded => {
                self.link = LinkState::Open;
                WorkerAction::Poll
            },
            WorkerEvent::OpenFailed => {
                self.link = LinkState::Unavailable;
                WorkerAction::Wait(RETRY_INTERVAL_MS)
            },
            WorkerEvent::Waited => WorkerAction::Open,
            WorkerEvent::Polled(n) => {
                if n == 0 {
                    WorkerAction::Poll
                } else {
                    WorkerAction::Read(n)
                }
            },
            WorkerEvent::PollFailed => {
                self.link = LinkState::Unavailable;
                WorkerAction::Open
            },
            WorkerEvent::ReadSucceeded(bytes) => WorkerAction::Deliver(
                decode_lossy(bytes.as_slice()),
            ),
            WorkerEvent::ReadTimedOut => WorkerAction::Poll,
            WorkerEvent::ReadFailed => {
                self.link = LinkState::Unavailable;
                WorkerAction::Open
            },
            WorkerEvent::Delivered => WorkerAction::Poll,
            WorkerEvent::ReceiverGone => WorkerAction::Exit,
        }
    }
}

/// A device that fails while it is being read is marked as no longer open,
/// while the worker keeps running and goes back to opening it; once an open
/// succeeds again it is marked open, without any new connect.
pub proof fn lemma_reconnects_after_loss(on_failure: WorkerAction, on_reopen: WorkerAction)
    requires
        decided(true, WorkerEvent::ReadFailed, on_failure),
        decided(true, WorkerEvent::OpenSucceeded, on_reopen),
    ensures
        next_link(LinkState::Open, true, WorkerEvent::ReadFailed) == LinkState::Unavailable,
        on_failure is Open,
        next_link(
            next_link(LinkState::Open, true, WorkerEvent::ReadFailed),
            true,
            WorkerEvent::OpenSucceeded,
        ) == LinkState::Open,
        on_reopen is Poll,
{
}

/// Once the owner has cleared the `running` flag, every step exits and
/// leaves the link as it was.
pub proof fn lemma_stops_when_asked(link: LinkState, event: WorkerEvent, action: WorkerAction)
    requires
        decided(false, event, action),
    ensures
        action is Exit,
        next_link(link, false, event) == link,
{
}

} // verus!
