//! The connection to the server: bounded queues, pauses between attempts, and
//! what each frame that arrives brings.
use crate::proto::codec::Wire;
use crate::proto::frame::{decode_msg, message_in, WireError};
use crate::proto::messages::ServerMsg;
use vstd::prelude::*;

verus! {

/// Messages from the server that wait at most.
pub const MAX_QUEUE: usize = 256;

/// Lines of the waterfall that wait at most.
pub const MAX_PENDING: usize = 64;

/// What a queue holds after one more item: where it was full, the older half
/// is gone.
pub open spec fn queued<T>(queue: Seq<T>, item: T, max: nat) -> Seq<T> {
    if queue.len() >= max {
        queue.skip((queue.len() / 2) as int).push(item)
    } else {
        queue.push(item)
    }
}

/// Adds an item to a queue; a full one drops its older half first.
pub fn push_bounded<T>(queue: &mut Vec<T>, item: T, max: usize)
    ensures
        final(queue)@ == queued(old(queue)@, item, max as nat),
{
    let len: usize = queue.len();
    if len >= max {
        let mut newer: Vec<T> = queue.split_off(len / 2);
        std::mem::swap(queue, &mut newer);
    }
    queue.push(item);
}

/// A queue stays within its bound, keeps the newest items in their order, and
/// always takes the new one in.
pub proof fn law_queue_is_bounded<T>(queue: Seq<T>, item: T, max: nat)
    requires
        max >= 2,
        queue.len() <= max,
    ensures
        queued(queue, item, max).len() <= max,
        queued(queue, item, max).last() == item,
        exists|n: int|
            0 <= n <= queue.len() && queued(queue, item, max) == #[trigger] queue.push(item).skip(
                n,
            ),
{
    let n = if queue.len() >= max {
        (queue.len() / 2) as int
    } else {
        0int
    };
    assert(queued(queue, item, max) =~= queue.push(item).skip(n));
}

/// The pause before the first new attempt, in seconds.
pub const FIRST_BACKOFF_SECS: u64 = 2;

/// The longest pause, in seconds.
pub const MAX_BACKOFF_SECS: u64 = 30;

/// The pauses between attempts to connect: each is twice the last, up to a
/// limit.
#[derive(Debug, Clone, Copy)]
pub struct Backoff {
    secs: u64,
}

/// The pause after one of this length.
pub open spec fn next_pause(secs: int) -> int {
    if 2 * secs <= MAX_BACKOFF_SECS {
        2 * secs
    } else {
        MAX_BACKOFF_SECS as int
    }
}

impl View for Backoff {
    type V = int;

    closed spec fn view(&self) -> int {
        self.secs as int
    }
}

impl Backoff {
    /// The next pause lies between the first one and the longest.
    pub open spec fn valid(&self) -> bool {
        FIRST_BACKOFF_SECS <= self@ <= MAX_BACKOFF_SECS
    }

    pub fn new() -> (r: Self)
        ensures
            r.valid(),
            r@ == FIRST_BACKOFF_SECS,
    {
        Backoff { secs: FIRST_BACKOFF_SECS }
    }

    /// The connection stands: the pauses start over.
    pub fn connected(&mut self)
        ensures
            final(self).valid(),
            final(self)@ == FIRST_BACKOFF_SECS,
    {
        self.secs = FIRST_BACKOFF_SECS;
    }

    /// The connection failed or ended: how many seconds to wait.
    pub fn pause(&mut self) -> (r: u64)
        requires
            old(self).valid(),
        ensures
            r == old(self)@,
            final(self).valid(),
            final(self)@ == next_pause(old(self)@),
    {
        let now: u64 = self.secs;
        let twice: u64 = now * 2;
        self.secs = if twice <= MAX_BACKOFF_SECS {
            twice
        } else {
            MAX_BACKOFF_SECS
        };
        now
    }
}

/// The pause after this many failures in a row.
pub open spec fn pause_after(failures: nat) -> int
    decreases failures,
{
    if failures == 0 {
        FIRST_BACKOFF_SECS as int
    } else {
        next_pause(pause_after((failures - 1) as nat))
    }
}

/// The pauses never shrink and never pass the limit, which they reach after
/// four failures.
pub proof fn law_pauses_grow(failures: nat)
    ensures
        FIRST_BACKOFF_SECS <= pause_after(failures) <= pause_after(failures + 1)
            <= MAX_BACKOFF_SECS,
        failures >= 4 ==> pause_after(failures) == MAX_BACKOFF_SECS,
    decreases failures,
{
    if failures > 0 {
        law_pauses_grow((failures - 1) as nat);
    }
    assert(pause_after(4) == 30) by {
        reveal_with_fuel(pause_after, 6);
    }
}

/// What arrives from the server.
#[derive(Debug)]
pub enum Frame {
    Binary(Vec<u8>),
    /// Text, or something else that carries no message.
    Other,
    Close,
    /// The stream has ended.
    Ended,
    /// The stream cannot be read.
    Failed,
}

/// What a frame brings.
#[derive(Debug)]
pub enum Incoming {
    Message(ServerMsg),
    Ignored,
    /// The connection is to be closed and made anew.
    Disconnect,
}

/// Takes a frame in. A server of another version is left; any other frame that
/// carries no message is passed over.
pub fn receive(frame: Frame) -> (r: Incoming)
    ensures
        match frame {
            Frame::Binary(data) => match message_in::<ServerMsg>(data@) {
                Ok(m) => r matches Incoming::Message(msg) && msg.model() == m,
                Err(WireError::VersionMismatch { .. }) => r is Disconnect,
                Err(_) => r is Ignored,
            },
            Frame::Other => r is Ignored,
            Frame::Close | Frame::Ended | Frame::Failed => r is Disconnect,
        },
{
    match frame {
        Frame::Binary(data) => match decode_msg::<ServerMsg>(data.as_slice()) {
            Ok(msg) => Incoming::Message(msg),
            Err(e) => match e {
                WireError::VersionMismatch { .. } => Incoming::Disconnect,
                _ => Incoming::Ignored,
            },
        },
        Frame::Other => Incoming::Ignored,
        Frame::Close | Frame::Ended | Frame::Failed => Incoming::Disconnect,
    }
}

/// A queue that is not full loses nothing; a full one loses its older half
/// and nothing else, and the new item comes last.
pub proof fn law_a_full_queue_loses_its_older_half<T>(queue: &mut Vec<T>, item: T, max: usize)
    ensures
        call_ensures(push_bounded::<T>, (queue, item, max), ()) ==> {
            let n = old(queue)@.len() as int;
            &&& n < max ==> final(queue)@ == old(queue)@.push(item)
            &&& n >= max ==> final(queue)@ == old(queue)@.subrange(n / 2, n).push(item)
        },
{
}

/// The pauses are 2, 4, 8 and 16 seconds, and from then on 30. A connection
/// starts them over.
pub proof fn law_pauses_double(first: Backoff, a: &mut Backoff, b: &mut Backoff, r: u64)
    requires
        old(a).valid(),
        call_ensures(Backoff::new, (), first),
    ensures
        first@ == 2,
        call_ensures(Backoff::pause, (a,), r) ==> {
            &&& r == old(a)@
            &&& r <= 15 ==> final(a)@ == 2 * r
            &&& r >= 15 ==> final(a)@ == 30
        },
        call_ensures(Backoff::connected, (b,), ()) ==> final(b)@ == 2,
{
}

/// A frame that carries a message brings that message, whatever follows it.
/// A frame of another version, and the end of the stream, end the connection;
/// nothing else does.
pub proof fn law_messages_arrive(
    data: Vec<u8>,
    m: <ServerMsg as Wire>::Model,
    extra: Seq<u8>,
    r: Incoming,
)
    requires
        call_ensures(receive, (Frame::Binary(data),), r),
    ensures
        data@ == crate::proto::frame::frame_of::<ServerMsg>(m) + extra && ServerMsg::fits(m) ==> (
        r matches Incoming::Message(msg) && msg.model() == m),
        r is Disconnect <==> data@.len() > 0 && data@[0] != 3,
        data@.len() == 0 ==> r is Ignored,
{
    if data@ == crate::proto::frame::frame_of::<ServerMsg>(m) + extra && ServerMsg::fits(m) {
        crate::proto::frame::law_frame_round_trip::<ServerMsg>(m, extra);
    }
}

/// What carries no message is passed over, and a stream that is closed, ended
/// or broken is left.
pub proof fn law_other_frames_carry_no_message(frame: Frame, r: Incoming)
    requires
        call_ensures(receive, (frame,), r),
        !(frame is Binary),
    ensures
        r is Ignored <==> frame is Other,
        r is Disconnect <==> !(frame is Other),
{
}

/// A queue of the display's sizes keeps half of what waited and the new item
/// when it runs over: 128 of 256 messages, 32 of 64 lines.
pub proof fn law_queues_of_the_display<T>(messages: &mut Vec<T>, lines: &mut Vec<T>, item: T)
    requires
        old(messages)@.len() == 256,
        old(lines)@.len() == 64,
    ensures
        call_ensures(push_bounded::<T>, (messages, item, MAX_QUEUE), ()) ==> final(messages)@.len()
            == 129,
        call_ensures(push_bounded::<T>, (lines, item, MAX_PENDING), ()) ==> final(lines)@.len()
            == 33,
        MAX_QUEUE == 256 && MAX_PENDING == 64,
{
}

} // verus!
