//! Waiting for the completion of a posted request.
//!
//! The caller polls the completion queue and sleeps. It hands the result of each
//! poll to [`poll_step`], which says how to go on.

use crate::report;
use crate::report::Role;
use crate::text;
use vstd::prelude::*;

verus! {

/// How many polls may find the completion queue empty before the client gives
/// up: one more does.
pub const MAX_EMPTY_POLLS: i32 = 5000;

/// How waiting goes on.
#[derive(Debug)]
pub enum PollStep {
    /// Sleep for a millisecond and poll again; `poll_count` polls have found the
    /// queue empty.
    Sleep { poll_count: i32 },
    /// The request is complete.
    Completed,
    /// Waiting has failed, with this message.
    Failed(String),
}

/// What a [`PollStep`] says.
pub enum PollProgress {
    Sleep { poll_count: int },
    Completed,
    Failed(Seq<char>),
}

impl View for PollStep {
    type V = PollProgress;

    open spec fn view(&self) -> PollProgress {
        match self {
            PollStep::Sleep { poll_count } => PollProgress::Sleep {
                poll_count: *poll_count as int,
            },
            PollStep::Completed => PollProgress::Completed,
            PollStep::Failed(message) => PollProgress::Failed(message@),
        }
    }
}

/// Where waiting stands when, after `poll_count` polls that found the queue
/// empty, one returns `ne`.
pub open spec fn after_poll(poll_count: int, ne: int) -> PollProgress {
    if ne > 0 {
        PollProgress::Completed
    } else if ne < 0 {
        PollProgress::Failed("[客户端] ibv_poll_cq 错误: "@ + text::decimal(ne))
    } else if poll_count + 1 > MAX_EMPTY_POLLS {
        PollProgress::Failed("[客户端] 轮询超时 (5s)"@)
    } else {
        PollProgress::Sleep { poll_count: poll_count + 1 }
    }
}

/// Where waiting stands after polls that returned the given numbers. Once it has
/// ended, no more polls are made.
pub open spec fn after_polls(results: Seq<int>) -> PollProgress
    decreases results.len(),
{
    if results.len() == 0 {
        PollProgress::Sleep { poll_count: 0 }
    } else {
        match after_polls(results.drop_last()) {
            PollProgress::Sleep { poll_count } => after_poll(poll_count, results.last()),
            ended => ended,
        }
    }
}

/// How waiting goes on when, after `poll_count` polls that found the queue
/// empty, one returned `ne`: the number of completions that it took off the
/// queue, or a negative number where it failed.
pub fn poll_step(poll_count: i32, ne: i32) -> (step: PollStep)
    requires
        poll_count < i32::MAX,
    ensures
        step@ == after_poll(poll_count as int, ne as int),
        ne > 0 ==> step is Completed,
        ne < 0 ==> (step matches PollStep::Failed(message) && message@
            == "[客户端] ibv_poll_cq 错误: "@ + text::decimal(ne as int)),
        ne == 0 && poll_count >= 5000 ==> (step matches PollStep::Failed(message) && message@
            == "[客户端] 轮询超时 (5s)"@),
        ne == 0 && poll_count < 5000 ==> (step matches PollStep::Sleep { poll_count: next } && next
            == poll_count + 1),
{
    if ne > 0 {
        PollStep::Completed
    } else if ne < 0 {
        PollStep::Failed(
            text::joined("[客户端] ibv_poll_cq 错误: ", text::decimal_text(ne as i64).as_str()),
        )
    } else if poll_count + 1 > MAX_EMPTY_POLLS {
        PollStep::Failed("[客户端] 轮询超时 (5s)".to_owned())
    } else {
        PollStep::Sleep { poll_count: poll_count + 1 }
    }
}

/// The client sleeps after each of the first [`MAX_EMPTY_POLLS`] polls if all of
/// them find the queue empty.
pub proof fn law_empty_polls_are_waited_out(results: Seq<int>)
    requires
        results.len() <= MAX_EMPTY_POLLS,
        forall|i: int| 0 <= i < results.len() ==> results[i] == 0,
    ensures
        after_polls(results) == (PollProgress::Sleep { poll_count: results.len() as int }),
    decreases results.len(),
{
    if results.len() > 0 {
        law_empty_polls_are_waited_out(results.drop_last());
    }
}

/// Waiting ends with the first poll that does not find the queue empty, if no
/// more than [`MAX_EMPTY_POLLS`] did before it: with success where it returned a
/// completion, and with the error that it returned otherwise.
pub proof fn law_first_result_decides(results: Seq<int>, k: int)
    requires
        0 <= k < results.len(),
        k <= MAX_EMPTY_POLLS,
        forall|i: int| 0 <= i < k ==> results[i] == 0,
        results[k] != 0,
    ensures
        results[k] > 0 ==> after_polls(results) is Completed,
        results[k] < 0 ==> after_polls(results) == PollProgress::Failed(
            "[客户端] ibv_poll_cq 错误: "@ + text::decimal(results[k]),
        ),
    decreases results.len(),
{
    let before = results.drop_last();
    if k < before.len() {
        law_first_result_decides(before, k);
    } else {
        law_empty_polls_are_waited_out(before);
    }
}

/// Waiting times out with the poll after [`MAX_EMPTY_POLLS`] that found the queue
/// empty, if that one finds it empty too.
pub proof fn law_waiting_times_out(results: Seq<int>)
    requires
        results.len() > MAX_EMPTY_POLLS,
        forall|i: int| 0 <= i <= MAX_EMPTY_POLLS ==> results[i] == 0,
    ensures
        after_polls(results) == PollProgress::Failed("[客户端] 轮询超时 (5s)"@),
    decreases results.len(),
{
    let before = results.drop_last();
    if before.len() > MAX_EMPTY_POLLS {
        law_waiting_times_out(before);
    } else {
        law_empty_polls_are_waited_out(before);
    }
}

/// How the status of a failed request, if there is one, is printed.
pub open spec fn status_shown(status: Option<u32>) -> Seq<char> {
    match status {
        Some(code) => "Some("@ + text::decimal(code as int) + ")"@,
        None => "None"@,
    }
}

/// Stops the client where its completed request did not succeed, with the status
/// of the request.
pub fn completion_check(succeeded: bool, status: Option<u32>) -> (r: Result<(), String>)
    ensures
        report::stops_unless(
            r,
            succeeded,
            report::check_failed(
                Role::Client,
                "RDMA Write 完成状态异常: "@ + status_shown(status),
            ),
        ),
        succeeded ==> r is Ok,
        !succeeded ==> (r matches Err(m) && m@ == "[客户端] 错误: "@ + (
        "RDMA Write 完成状态异常: "@ + status_shown(status))),
{
    let shown: String = match status {
        Some(code) => {
            let mut shown = text::joined("Some(", text::decimal_text(code as i64).as_str());
            shown.append(")");
            shown
        },
        None => "None".to_owned(),
    };
    let msg = text::joined("RDMA Write 完成状态异常: ", shown.as_str());
    report::cli_check(succeeded, msg.as_str())
}

/// A status is shown between brackets, as a number that reads back as the status;
/// without one, no number is shown.
pub proof fn law_status_reads_back(code: u32)
    ensures
        status_shown(None) == "None"@,
        status_shown(Some(code)).take(5) == "Some("@,
        text::read_decimal(text::leading_digits(status_shown(Some(code)).skip(5))) == code,
        status_shown(Some(code)).len() == 6 + text::leading_digits(
            status_shown(Some(code)).skip(5),
        ).len(),
        status_shown(Some(code)).last() == ')',
{
    reveal_strlit("Some(");
    reveal_strlit(")");
    let shown = status_shown(Some(code));
    let digits = text::decimal(code as int);
    text::law_decimal_reads_back(code as int);
    text::law_decimal_nat_reads_back(code as nat);
    assert(shown.take(5) =~= "Some("@);
    assert(shown.skip(5) =~= digits + ")"@);
    text::lemma_leading_digits(digits, ")"@);
}

/// The client gives up after five thousand polls that found nothing.
pub proof fn law_poll_limit(poll_count: int)
    ensures
        after_poll(poll_count, 0) is Sleep <==> poll_count < 5000,
        after_poll(poll_count, 0) is Failed <==> poll_count >= 5000,
{
}

} // verus!
