//! How the drone's video packets are gathered into frames.
use vstd::prelude::*;

verus! {

/// The H.264 start code that opens a new unit of video.
pub const NAL_UNIT: [u8; 4] = [0, 0, 0, 1];

/// Whether a packet begins with the start code `0 0 0 1`.
pub open spec fn starts_unit(packet: Seq<u8>) -> bool {
    packet.len() >= 4 && packet[0] == 0 && packet[1] == 0 && packet[2] == 0 && packet[3] == 1
}

/// The video buffer after one more packet: a packet that opens a unit replaces the
/// buffer; any other packet is appended to it (or starts it, when there is none).
pub fn video_buffer_step(buf: Option<Vec<u8>>, packet: &[u8]) -> (res: Option<Vec<u8>>)
    ensures
        res is Some,
        starts_unit(packet@) ==> res->0@ == packet@,
        !starts_unit(packet@) ==> res->0@ == (match buf {
            Some(b) => b@ + packet@,
            None => packet@,
        }),
{
    let starts = packet.len() >= 4 && packet[0] == NAL_UNIT[0] && packet[1] == NAL_UNIT[1]
        && packet[2] == NAL_UNIT[2] && packet[3] == NAL_UNIT[3];
    if starts {
        Some(vstd::slice::slice_to_vec(packet))
    } else {
        match buf {
            Some(mut b) => {
                let n = packet.len();
                let ghost b0 = b@;
                for i in 0..n
                    invariant
                        n == packet@.len(),
                        b@ == b0 + packet@.take(i as int),
                {
                    b.push(packet[i]);
                    assert(b0 + packet@.take(i + 1) =~= (b0 + packet@.take(i as int)).push(packet@[i as int]));
                }
                assert(packet@.take(n as int) =~= packet@);
                Some(b)
            },
            None => Some(vstd::slice::slice_to_vec(packet)),
        }
    }
}

/// How many times a command is re-sent while the drone does not answer.
pub const COMMAND_RETRIES: u32 = 3;

/// What the command sender does after one re-send.
#[derive(Debug, Clone, Copy, PartialEq, Eq, Structural)]
pub enum RetryStep {
    /// The drone answered: the command went through.
    Succeeded,
    /// No answer: wait five seconds, then send again.
    WaitThenRetry,
    /// No answer after the last re-send: wait five seconds, then report failure.
    WaitThenGiveUp,
}

/// The decision after re-send number `attempt` (counted from 0), by whether the
/// drone answered it.
pub fn command_retry_step(attempt: u32, reply_ok: bool) -> (res: RetryStep)
    requires
        attempt < COMMAND_RETRIES,
    ensures
        reply_ok ==> res == RetryStep::Succeeded,
        !reply_ok && attempt + 1 < COMMAND_RETRIES ==> res == RetryStep::WaitThenRetry,
        !reply_ok && attempt + 1 == COMMAND_RETRIES ==> res == RetryStep::WaitThenGiveUp,
{
    if reply_ok {
        RetryStep::Succeeded
    } else if attempt + 1 < COMMAND_RETRIES {
        RetryStep::WaitThenRetry
    } else {
        RetryStep::WaitThenGiveUp
    }
}

} // verus!
