//! What the capture engine hands out, and the decisions it takes while it
//! waits for packets on a non-blocking capture handle.
use crate::protocols::{ethernet, linklayer};
use vstd::prelude::*;

verus! {

/// A captured (or to be injected) frame.
#[derive(Debug)]
pub enum Data {
    LinkLayer(linklayer::Data),
}

/// Why the capture engine yielded no frame.
#[derive(Debug, Clone, Copy, PartialEq, Eq, Structural)]
pub enum CaptureError {
    /// A packet arrived but could not be decoded.
    LinkLayer(linklayer::Error),
    /// The capture library reported an error.
    CouldNotCapture,
    /// Waiting on the selectable file descriptor failed.
    CouldNotReadSelectableFd,
    /// The descriptor signalled readiness, but no packet was there.
    CouldNotCaptureAfterFdReady,
}

/// Whether the device is opened in promiscuous mode.
#[derive(Debug, Clone, Copy, PartialEq, Eq, Structural)]
pub enum CaptureMode {
    NonPromisc,
    Promisc,
}

/// Why a capture filter could not be installed.
#[derive(Debug, Clone, Copy, PartialEq, Eq, Structural)]
pub enum FilterErr {
    /// The expression did not compile.
    InvalidFilter,
    /// The compiled filter could not be applied.
    CouldNotApply,
}

/// What decoding the captured bytes `b` gives.
pub open spec fn decoded_frame(b: Seq<u8>, r: Result<Data, CaptureError>) -> bool {
    match r {
        Ok(Data::LinkLayer(linklayer::Data::Ethernet(f))) => ethernet::decode_error(b)
            == None::<ethernet::Error> && ethernet::decodes_to(b, f),
        Err(e) => match ethernet::decode_error(b) {
            Some(x) => e == CaptureError::LinkLayer(linklayer::Error::Ethernet(x)),
            None => false,
        },
    }
}

/// Decodes the bytes of one captured packet as an Ethernet frame.
pub fn decode_frame(raw: &[u8]) -> (r: Result<Data, CaptureError>)
    ensures
        decoded_frame(raw@, r),
{
    match ethernet::Frame::from_raw_slice(raw) {
        Err(e) => Err(CaptureError::LinkLayer(linklayer::Error::Ethernet(e))),
        Ok(f) => Ok(Data::LinkLayer(linklayer::Data::Ethernet(f))),
    }
}

/// Whether a wait on the selectable descriptor is outstanding.
#[derive(Debug, Clone, Copy, PartialEq, Eq, Structural)]
pub enum State {
    Idle,
    WaitingForFd,
}

/// What polling the selectable descriptor gave.
#[derive(Debug, Clone, Copy, PartialEq, Eq, Structural)]
pub enum FdPoll {
    Ready,
    Failed,
    Pending,
}

/// What the capture engine does after polling the descriptor.
#[derive(Debug, Clone, Copy, PartialEq, Eq, Structural)]
pub enum FdStep {
    /// Dispatch once more: a packet should be there.
    Dispatch,
    /// Yield this error.
    Fail(CaptureError),
    /// Suspend until the descriptor is ready.
    Suspend,
}

/// The decisions of one capture handle between polls.
#[derive(Debug)]
pub struct Poller {
    pub state: State,
}

impl Poller {
    /// A handle with no wait outstanding.
    pub fn new() -> (r: Poller)
        ensures
            r.state == State::Idle,
    {
        Poller { state: State::Idle }
    }

    /// Whether a poll starts with a dispatch: only when no wait on the
    /// descriptor is outstanding.
    pub fn dispatch_first(&self) -> (r: bool)
        ensures
            r == (self.state == State::Idle),
    {
        match self.state {
            State::Idle => true,
            State::WaitingForFd => false,
        }
    }

    /// What a dispatch that returned `code` before any wait means: `Some`
    /// of the outcome to yield (`Ok` for the packet just delivered), or
    /// `None` when no packet was there yet and the descriptor must be
    /// polled.
    pub fn first_dispatch(code: i32) -> (r: Option<Result<(), CaptureError>>)
        ensures
            code == 1 ==> r == Some(Ok::<(), CaptureError>(())),
            code == 0 ==> r == None::<Result<(), CaptureError>>,
            code != 0 && code != 1 ==> r == Some(Err::<(), CaptureError>(CaptureError::CouldNotCapture)),
    {
        if code == 1 {
            Some(Ok(()))
        } else if code == 0 {
            None
        } else {
            Some(Err(CaptureError::CouldNotCapture))
        }
    }

    /// Records what polling the descriptor gave and says what to do next:
    /// a ready or failed descriptor ends the wait, a pending one starts it.
    pub fn fd_polled(&mut self, fd: FdPoll) -> (r: FdStep)
        ensures
            fd == FdPoll::Ready ==> final(self).state == State::Idle && r == FdStep::Dispatch,
            fd == FdPoll::Failed ==> final(self).state == State::Idle && r == FdStep::Fail(
                CaptureError::CouldNotReadSelectableFd,
            ),
            fd == FdPoll::Pending ==> final(self).state == State::WaitingForFd && r
                == FdStep::Suspend,
    {
        match fd {
            FdPoll::Ready => {
                self.state = State::Idle;
                FdStep::Dispatch
            },
            FdPoll::Failed => {
                self.state = State::Idle;
                FdStep::Fail(CaptureError::CouldNotReadSelectableFd)
            },
            FdPoll::Pending => {
                self.state = State::WaitingForFd;
                FdStep::Suspend
            },
        }
    }

    /// What a dispatch that returned `code` after the descriptor signalled
    /// readiness means: anything but one packet is a spurious wake-up, and
    /// is reported.
    pub fn dispatch_after_ready(code: i32) -> (r: Result<(), CaptureError>)
        ensures
            code == 1 ==> r == Ok::<(), CaptureError>(()),
            code != 1 ==> r == Err::<(), CaptureError>(CaptureError::CouldNotCaptureAfterFdReady),
    {
        if code == 1 {
            Ok(())
        } else {
            Err(CaptureError::CouldNotCaptureAfterFdReady)
        }
    }
}

} // verus!
