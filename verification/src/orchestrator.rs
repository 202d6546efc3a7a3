//! The proxy orchestrator: the rules of the process that bridges the
//! browser's framed stdio to the relay client's channels.
//!
//! The embedding process reads raw bytes from standard input into a buffer
//! and asks [`on_stdin_frame`] what to do; every text the relay emits on its
//! inbound path is framed with [`crate::codec::encode`] and written to
//! standard output, flushed immediately.

use vstd::prelude::*;

verus! {

use crate::codec::FrameError;
use crate::codec::decode_of;
use crate::codec::read;

/// Milliseconds slept when an empty frame arrives on standard input.
pub const IDLE_DELAY_MS: u64 = 1000;

/// The bound of each of the two in-memory channels between the orchestrator
/// and the relay client.
pub const CHANNEL_CAPACITY: usize = 32;

/// What the orchestrator does with the bytes buffered from standard input.
pub enum StdinStep {
    /// A whole non-empty frame: forward its text to the relay's outbound
    /// channel, verbatim, and drop this many buffered bytes.
    Forward(String, usize),
    /// A whole empty frame: a transient idle condition. Sleep briefly and
    /// drop this many buffered bytes.
    Idle(usize),
    /// No whole frame yet: read more bytes from standard input.
    NeedMore,
    /// A decode failure, fatal to the whole proxy: terminate the process.
    Exit,
}

/// Decide what to do with the bytes buffered from standard input. `eof` says
/// whether standard input has ended: a frame still truncated then can never
/// complete, which is a fatal decode failure.
pub fn on_stdin_frame(buffer: &[u8], eof: bool) -> (r: StdinStep)
    ensures
        (match decode_of(buffer@) {
            Ok((t, c)) => {
                if t.len() == 0 {
                    r matches StdinStep::Idle(n) && n as int == c
                } else {
                    r matches StdinStep::Forward(s, n) && s@ == t && n as int == c
                }
            },
            Err(FrameError::Truncated) => if eof {
                r is Exit
            } else {
                r is NeedMore
            },
            Err(FrameError::InvalidEncoding) => r is Exit,
        }),
{
    match read(buffer) {
        Ok((text, consumed)) => {
            if text.as_str().is_empty() {
                StdinStep::Idle(consumed)
            } else {
                StdinStep::Forward(text, consumed)
            }
        },
        Err(FrameError::Truncated) => {
            if eof {
                StdinStep::Exit
            } else {
                StdinStep::NeedMore
            }
        },
        Err(FrameError::InvalidEncoding) => StdinStep::Exit,
    }
}

} // verus!
