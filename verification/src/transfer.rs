//! Moving a whole buffer over a stream socket whose calls may move only a part
//! of what they are given.
//!
//! The caller makes the socket calls. It begins with [`transfer_start`], and
//! after each call hands what came of it to [`tcp_send_all_step`] or
//! [`tcp_recv_exact_step`], which say how to go on.

use crate::text;
use vstd::prelude::*;

verus! {

/// How a transfer goes on.
#[derive(Debug)]
pub enum TransferStep {
    /// Make a call for the bytes from `pos` to the end of the buffer.
    Call { pos: usize },
    /// The whole buffer has been moved.
    Finished,
    /// The transfer has failed, with this message.
    Failed(String),
}

/// The direction of a transfer.
pub enum Direction {
    Send,
    Receive,
}

/// What a [`TransferStep`] says.
pub enum Progress {
    Call { pos: int },
    Finished,
    Failed(Seq<char>),
}

impl View for TransferStep {
    type V = Progress;

    open spec fn view(&self) -> Progress {
        match self {
            TransferStep::Call { pos } => Progress::Call { pos: *pos as int },
            TransferStep::Finished => Progress::Finished,
            TransferStep::Failed(message) => Progress::Failed(message@),
        }
    }
}

/// Where a transfer of `len` bytes stands once the first `pos` have been moved.
pub open spec fn progress_at(len: int, pos: int) -> Progress {
    if pos < len {
        Progress::Call { pos }
    } else {
        Progress::Finished
    }
}

/// The message of a transfer whose call failed with the given error.
pub open spec fn call_failed(direction: Direction, error: Seq<char>) -> Seq<char> {
    match direction {
        Direction::Send => "send 失败: "@ + error,
        Direction::Receive => "recv 失败: "@ + error,
    }
}

/// The message of a transfer whose call moved no byte.
pub open spec fn disconnected(direction: Direction) -> Seq<char> {
    match direction {
        Direction::Send => "TCP 连接断开 (send=0)"@,
        Direction::Receive => "TCP 连接断开 (recv=0)"@,
    }
}

/// Where a transfer of `len` bytes stands after a call for the bytes from `pos`
/// on: an error and an empty call end it, any other count of bytes moves it on.
pub open spec fn after_call(
    direction: Direction,
    len: int,
    pos: int,
    outcome: Result<int, Seq<char>>,
) -> Progress {
    match outcome {
        Err(error) => Progress::Failed(call_failed(direction, error)),
        Ok(n) => if n == 0 {
            Progress::Failed(disconnected(direction))
        } else {
            progress_at(len, pos + n)
        },
    }
}

/// What came of a call, as a mathematical value.
pub open spec fn outcome_view(outcome: Result<usize, String>) -> Result<int, Seq<char>> {
    match outcome {
        Ok(n) => Ok(n as int),
        Err(error) => Err(error@),
    }
}

/// How the transfer of a buffer of `len` bytes begins.
pub fn transfer_start(len: usize) -> (step: TransferStep)
    ensures
        step@ == progress_at(len as int, 0),
        len > 0 ==> (step matches TransferStep::Call { pos } && pos == 0),
        len == 0 ==> step is Finished,
{
    if 0 < len {
        TransferStep::Call { pos: 0 }
    } else {
        TransferStep::Finished
    }
}

fn advanced(len: usize, pos: usize, n: usize) -> (step: TransferStep)
    requires
        pos < len,
    ensures
        step@ == progress_at(len as int, pos + n),
{
    if n < len - pos {
        TransferStep::Call { pos: pos + n }
    } else {
        TransferStep::Finished
    }
}

/// How sending a buffer of `len` bytes goes on after a call was made for the
/// bytes from `pos` on: it sent the given number of bytes, or failed with the
/// given error.
pub fn tcp_send_all_step(len: usize, pos: usize, sent: Result<usize, String>) -> (step:
    TransferStep)
    requires
        pos < len,
    ensures
        step@ == after_call(Direction::Send, len as int, pos as int, outcome_view(sent)),
        match sent {
            Ok(n) => if n == 0 {
                step matches TransferStep::Failed(message) && message@
                    == "TCP 连接断开 (send=0)"@
            } else if pos + n < len {
                step matches TransferStep::Call { pos: next } && next == pos + n
            } else {
                step is Finished
            },
            Err(error) => step matches TransferStep::Failed(message) && message@
                == "send 失败: "@ + error@,
        },
{
    match sent {
        Err(error) => TransferStep::Failed(text::joined("send 失败: ", error.as_str())),
        Ok(n) => if n == 0 {
            TransferStep::Failed("TCP 连接断开 (send=0)".to_owned())
        } else {
            advanced(len, pos, n)
        },
    }
}

/// How filling a buffer of `len` bytes goes on after a call was made for the
/// bytes from `pos` on: it received the given number of bytes, or failed with
/// the given error.
pub fn tcp_recv_exact_step(len: usize, pos: usize, received: Result<usize, String>) -> (step:
    TransferStep)
    requires
        pos < len,
    ensures
        step@ == after_call(Direction::Receive, len as int, pos as int, outcome_view(received)),
        match received {
            Ok(n) => if n == 0 {
                step matches TransferStep::Failed(message) && message@
                    == "TCP 连接断开 (recv=0)"@
            } else if pos + n < len {
                step matches TransferStep::Call { pos: next } && next == pos + n
            } else {
                step is Finished
            },
            Err(error) => step matches TransferStep::Failed(message) && message@
                == "recv 失败: "@ + error@,
        },
{
    match received {
        Err(error) => TransferStep::Failed(text::joined("recv 失败: ", error.as_str())),
        Ok(n) => if n == 0 {
            TransferStep::Failed("TCP 连接断开 (recv=0)".to_owned())
        } else {
            advanced(len, pos, n)
        },
    }
}

/// Where a transfer of `len` bytes stands after calls with the given outcomes.
/// Once it is finished or has failed, no more calls are made.
pub open spec fn progress_after(
    direction: Direction,
    len: int,
    outcomes: Seq<Result<int, Seq<char>>>,
) -> Progress
    decreases outcomes.len(),
{
    if outcomes.len() == 0 {
        progress_at(len, 0)
    } else {
        match progress_after(direction, len, outcomes.drop_last()) {
            Progress::Call { pos } => after_call(direction, len, pos, outcomes.last()),
            ended => ended,
        }
    }
}

/// The bytes of `buf` that calls with the given outcomes sent, in the order in
/// which they were sent. A call sends a prefix of the bytes that it is given.
pub open spec fn bytes_sent(buf: Seq<u8>, outcomes: Seq<Result<int, Seq<char>>>) -> Seq<u8>
    decreases outcomes.len(),
{
    if outcomes.len() == 0 {
        Seq::empty()
    } else {
        let before = bytes_sent(buf, outcomes.drop_last());
        match (
            progress_after(Direction::Send, buf.len() as int, outcomes.drop_last()),
            outcomes.last(),
        ) {
            (Progress::Call { pos }, Ok(n)) => before + buf.subrange(pos, pos + n),
            _ => before,
        }
    }
}

/// Each call of a transfer of `len` bytes that does not fail moves between none
/// and all of the bytes that it is given.
pub open spec fn counts_in_bounds(
    direction: Direction,
    len: int,
    outcomes: Seq<Result<int, Seq<char>>>,
) -> bool {
    forall|i: int| 0 <= i < outcomes.len() ==> #[trigger] count_in_bounds(
        progress_after(direction, len, outcomes.take(i)),
        len,
        outcomes[i],
    )
}

/// A call made where a transfer of `len` bytes stands moves between none and
/// all of the bytes that it is given.
pub open spec fn count_in_bounds(
    progress: Progress,
    len: int,
    outcome: Result<int, Seq<char>>,
) -> bool {
    match (progress, outcome) {
        (Progress::Call { pos }, Ok(n)) => 0 <= n <= len - pos,
        _ => true,
    }
}

proof fn lemma_counts_in_bounds_before(
    direction: Direction,
    len: int,
    outcomes: Seq<Result<int, Seq<char>>>,
)
    requires
        outcomes.len() > 0,
        counts_in_bounds(direction, len, outcomes),
    ensures
        counts_in_bounds(direction, len, outcomes.drop_last()),
        count_in_bounds(
            progress_after(direction, len, outcomes.drop_last()),
            len,
            outcomes.last(),
        ),
{
    let before = outcomes.drop_last();
    assert(outcomes.take(before.len() as int) =~= before);
    assert(count_in_bounds(
        progress_after(direction, len, outcomes.take(before.len() as int)),
        len,
        outcomes[before.len() as int],
    ));
    assert forall|i: int| 0 <= i < before.len() implies #[trigger] count_in_bounds(
        progress_after(direction, len, before.take(i)),
        len,
        before[i],
    ) by {
        assert(before.take(i) =~= outcomes.take(i));
        assert(count_in_bounds(
            progress_after(direction, len, outcomes.take(i)),
            len,
            outcomes[i],
        ));
    }
}

/// A position at which a call is to be made lies within the buffer.
pub proof fn lemma_position_in_buffer(
    direction: Direction,
    len: int,
    outcomes: Seq<Result<int, Seq<char>>>,
)
    requires
        0 <= len,
        counts_in_bounds(direction, len, outcomes),
    ensures
        progress_after(direction, len, outcomes) matches Progress::Call { pos } ==> 0 <= pos < len,
    decreases outcomes.len(),
{
    if outcomes.len() > 0 {
        lemma_counts_in_bounds_before(direction, len, outcomes);
        lemma_position_in_buffer(direction, len, outcomes.drop_last());
    }
}

/// However the socket splits a transfer up, what has been sent is always the
/// beginning of the buffer, each byte once and in order; when sending is
/// finished it is the whole buffer, and when it has failed it is not.
pub proof fn law_all_bytes_are_sent(buf: Seq<u8>, outcomes: Seq<Result<int, Seq<char>>>)
    requires
        counts_in_bounds(Direction::Send, buf.len() as int, outcomes),
    ensures
        match progress_after(Direction::Send, buf.len() as int, outcomes) {
            Progress::Call { pos } => 0 <= pos < buf.len() && bytes_sent(buf, outcomes)
                == buf.take(pos),
            Progress::Finished => bytes_sent(buf, outcomes) == buf,
            Progress::Failed(_) => {
                let sent = bytes_sent(buf, outcomes);
                sent.len() < buf.len() && sent == buf.take(sent.len() as int)
            },
        },
    decreases outcomes.len(),
{
    if outcomes.len() == 0 {
        assert(buf.take(0) =~= Seq::<u8>::empty());
        if buf.len() == 0 {
            assert(buf =~= Seq::<u8>::empty());
        }
    } else {
        let before = outcomes.drop_last();
        lemma_counts_in_bounds_before(Direction::Send, buf.len() as int, outcomes);
        law_all_bytes_are_sent(buf, before);
        match (progress_after(Direction::Send, buf.len() as int, before), outcomes.last()) {
            (Progress::Call { pos }, Ok(n)) => {
                assert(buf.take(pos) + buf.subrange(pos, pos + n) =~= buf.take(pos + n));
                assert(buf.take(buf.len() as int) =~= buf);
            },
            _ => {},
        }
    }
}

/// What came of calls that received the given chunks or failed.
pub open spec fn receive_outcomes(chunks: Seq<Result<Seq<u8>, Seq<char>>>) -> Seq<
    Result<int, Seq<char>>,
> {
    chunks.map_values(
        |chunk: Result<Seq<u8>, Seq<char>>|
            match chunk {
                Ok(bytes) => Ok(bytes.len() as int),
                Err(error) => Err(error),
            },
    )
}

/// The buffer `buf` after calls that received the given chunks: each call puts
/// its bytes where the transfer stands.
pub open spec fn buffer_received(
    buf: Seq<u8>,
    chunks: Seq<Result<Seq<u8>, Seq<char>>>,
) -> Seq<u8>
    decreases chunks.len(),
{
    if chunks.len() == 0 {
        buf
    } else {
        let before = buffer_received(buf, chunks.drop_last());
        match (
            progress_after(
                Direction::Receive,
                buf.len() as int,
                receive_outcomes(chunks.drop_last()),
            ),
            chunks.last(),
        ) {
            (Progress::Call { pos }, Ok(bytes)) => before.take(pos) + bytes + before.skip(
                pos + bytes.len(),
            ),
            _ => before,
        }
    }
}

/// The bytes that the calls of a transfer of `len` bytes took off the stream.
pub open spec fn stream_consumed(len: int, chunks: Seq<Result<Seq<u8>, Seq<char>>>) -> Seq<u8>
    decreases chunks.len(),
{
    if chunks.len() == 0 {
        Seq::empty()
    } else {
        let before = stream_consumed(len, chunks.drop_last());
        match (
            progress_after(Direction::Receive, len, receive_outcomes(chunks.drop_last())),
            chunks.last(),
        ) {
            (Progress::Call { pos }, Ok(bytes)) => before + bytes,
            _ => before,
        }
    }
}

/// However the socket splits a transfer up, the buffer always begins with what
/// was taken off the stream and is otherwise untouched; when receiving is
/// finished the buffer is exactly what was taken off the stream, and when it
/// has failed the buffer is not full.
pub proof fn law_exact_bytes_are_received(
    buf: Seq<u8>,
    chunks: Seq<Result<Seq<u8>, Seq<char>>>,
)
    requires
        counts_in_bounds(Direction::Receive, buf.len() as int, receive_outcomes(chunks)),
    ensures
        ({
            let stream = stream_consumed(buf.len() as int, chunks);
            &&& stream.len() <= buf.len()
            &&& buffer_received(buf, chunks) == stream + buf.skip(stream.len() as int)
            &&& match progress_after(
                Direction::Receive,
                buf.len() as int,
                receive_outcomes(chunks),
            ) {
                Progress::Call { pos } => pos == stream.len() && pos < buf.len(),
                Progress::Finished => buffer_received(buf, chunks) == stream && stream.len()
                    == buf.len(),
                Progress::Failed(_) => stream.len() < buf.len(),
            }
        }),
    decreases chunks.len(),
{
    let len = buf.len() as int;
    if chunks.len() == 0 {
        assert(Seq::<u8>::empty() + buf.skip(0) =~= buf);
        if buf.len() == 0 {
            assert(buf =~= Seq::<u8>::empty());
        }
    } else {
        let before = chunks.drop_last();
        let outcomes = receive_outcomes(chunks);
        assert(outcomes.drop_last() =~= receive_outcomes(before));
        lemma_counts_in_bounds_before(Direction::Receive, len, outcomes);
        law_exact_bytes_are_received(buf, before);
        let consumed = stream_consumed(len, before);
        match (
            progress_after(Direction::Receive, len, receive_outcomes(before)),
            chunks.last(),
        ) {
            (Progress::Call { pos }, Ok(bytes)) => {
                let filled = consumed + buf.skip(pos);
                assert(filled.take(pos) + bytes + filled.skip(pos + bytes.len()) =~= (consumed
                    + bytes) + buf.skip(pos + bytes.len()));
                if pos + bytes.len() == len {
                    assert((consumed + bytes) + buf.skip(len) =~= consumed + bytes);
                }
            },
            _ => {},
        }
        if progress_after(Direction::Receive, len, outcomes) is Finished {
            let stream = stream_consumed(len, chunks);
            assert(stream + buf.skip(stream.len() as int) =~= stream);
        }
    }
}

/// A buffer that one side has sent whole is the buffer that the other side has
/// received whole, if the two are of one length and the stream hands on the bytes
/// that were sent: in order, and with what is left of them still to come. Neither
/// side need split the transfer up as the other does.
pub proof fn law_sent_is_received(
    sent: Seq<u8>,
    outcomes: Seq<Result<int, Seq<char>>>,
    buf: Seq<u8>,
    chunks: Seq<Result<Seq<u8>, Seq<char>>>,
)
    requires
        buf.len() == sent.len(),
        counts_in_bounds(Direction::Send, sent.len() as int, outcomes),
        counts_in_bounds(Direction::Receive, buf.len() as int, receive_outcomes(chunks)),
        progress_after(Direction::Send, sent.len() as int, outcomes) is Finished,
        progress_after(Direction::Receive, buf.len() as int, receive_outcomes(chunks)) is Finished,
        stream_consumed(buf.len() as int, chunks).is_prefix_of(bytes_sent(sent, outcomes)),
    ensures
        buffer_received(buf, chunks) == sent,
{
    law_all_bytes_are_sent(sent, outcomes);
    law_exact_bytes_are_received(buf, chunks);
    assert(stream_consumed(buf.len() as int, chunks) =~= sent);
}

/// A transfer ends: each call that does not end it moves at least one byte, so
/// no more calls are made than the buffer has bytes.
pub proof fn law_transfer_ends(
    direction: Direction,
    len: int,
    outcomes: Seq<Result<int, Seq<char>>>,
)
    requires
        0 <= len,
        counts_in_bounds(direction, len, outcomes),
        outcomes.len() >= len,
    ensures
        !(progress_after(direction, len, outcomes) is Call),
{
    lemma_position_in_buffer(direction, len, outcomes);
    lemma_calls_bounded(direction, len, outcomes);
}

proof fn lemma_calls_bounded(
    direction: Direction,
    len: int,
    outcomes: Seq<Result<int, Seq<char>>>,
)
    requires
        0 <= len,
        counts_in_bounds(direction, len, outcomes),
    ensures
        progress_after(direction, len, outcomes) matches Progress::Call { pos } ==> outcomes.len()
            <= pos,
    decreases outcomes.len(),
{
    if outcomes.len() > 0 {
        lemma_counts_in_bounds_before(direction, len, outcomes);
        lemma_calls_bounded(direction, len, outcomes.drop_last());
    }
}

/// The number of bytes that calls with the given outcomes moved.
pub open spec fn total(outcomes: Seq<Result<int, Seq<char>>>) -> int
    decreases outcomes.len(),
{
    if outcomes.len() == 0 {
        0
    } else {
        total(outcomes.drop_last()) + match outcomes.last() {
            Ok(n) => n,
            Err(_) => 0,
        }
    }
}

/// The outcome of a call that moved at least one byte.
pub open spec fn moved_some(outcome: Result<int, Seq<char>>) -> bool {
    outcome matches Ok(n) && n > 0
}

/// As long as every call moves at least one byte, a transfer goes on from behind
/// all the bytes that were moved, and is finished when these are as many as the
/// buffer has. No such call makes it fail, however many bytes it moved.
pub proof fn law_progress_is_total(
    direction: Direction,
    len: int,
    outcomes: Seq<Result<int, Seq<char>>>,
)
    requires
        forall|i: int| 0 <= i < outcomes.len() ==> moved_some(#[trigger] outcomes[i]),
    ensures
        total(outcomes) < len ==> progress_after(direction, len, outcomes) == (Progress::Call {
            pos: total(outcomes),
        }),
        total(outcomes) >= len ==> progress_after(direction, len, outcomes) is Finished,
    decreases outcomes.len(),
{
    if outcomes.len() > 0 {
        let before = outcomes.drop_last();
        assert(moved_some(outcomes[outcomes.len() - 1]));
        assert forall|i: int| 0 <= i < before.len() implies moved_some(#[trigger] before[i]) by {
            assert(moved_some(outcomes[i]));
        }
        law_progress_is_total(direction, len, before);
    }
}

/// A transfer that has bytes left to move fails at the first call that fails or
/// moves nothing, with the error of that call or as disconnected, and stays
/// failed.
pub proof fn law_first_failure_decides(
    direction: Direction,
    len: int,
    outcomes: Seq<Result<int, Seq<char>>>,
    k: int,
)
    requires
        0 <= k < outcomes.len(),
        forall|i: int| 0 <= i < k ==> moved_some(#[trigger] outcomes[i]),
        total(outcomes.take(k)) < len,
        outcomes[k] is Err || outcomes[k] == Ok::<int, Seq<char>>(0),
    ensures
        match (outcomes[k], direction) {
            (Ok(_), Direction::Send) => progress_after(direction, len, outcomes)
                == Progress::Failed("TCP 连接断开 (send=0)"@),
            (Ok(_), Direction::Receive) => progress_after(direction, len, outcomes)
                == Progress::Failed("TCP 连接断开 (recv=0)"@),
            (Err(error), Direction::Send) => progress_after(direction, len, outcomes)
                == Progress::Failed("send 失败: "@ + error),
            (Err(error), Direction::Receive) => progress_after(direction, len, outcomes)
                == Progress::Failed("recv 失败: "@ + error),
        },
    decreases outcomes.len(),
{
    let before = outcomes.drop_last();
    if k < before.len() {
        assert forall|i: int| 0 <= i < k implies moved_some(#[trigger] before[i]) by {
            assert(moved_some(outcomes[i]));
        }
        assert(before.take(k) =~= outcomes.take(k));
        law_first_failure_decides(direction, len, before, k);
    } else {
        assert(before =~= outcomes.take(k));
        assert forall|i: int| 0 <= i < before.len() implies moved_some(#[trigger] before[i]) by {
            assert(moved_some(outcomes[i]));
        }
        law_progress_is_total(direction, len, before);
    }
}

/// A transfer fails only at a call that failed or moved nothing.
pub proof fn law_failure_has_a_cause(
    direction: Direction,
    len: int,
    outcomes: Seq<Result<int, Seq<char>>>,
)
    requires
        progress_after(direction, len, outcomes) is Failed,
        forall|i: int|
            0 <= i < outcomes.len() ==> (#[trigger] outcomes[i] matches Ok(n) ==> n >= 0),
    ensures
        exists|k: int| 0 <= k < outcomes.len() && !moved_some(#[trigger] outcomes[k]),
{
    if forall|i: int| 0 <= i < outcomes.len() ==> moved_some(#[trigger] outcomes[i]) {
        law_progress_is_total(direction, len, outcomes);
    }
}

} // verus!
