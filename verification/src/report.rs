//! The messages with which the two programs stop.

use crate::text;
use vstd::prelude::*;

verus! {

/// The part that a program plays.
#[derive(Debug, Clone, Copy, PartialEq, Eq, Structural)]
pub enum Role {
    /// The side that performs the RDMA Write.
    Client,
    /// The side whose memory is written.
    Server,
}

/// What a verbs call or an allocation hands back, and may fail to.
#[derive(Debug, Clone, Copy, PartialEq, Eq, Structural)]
pub enum Handle {
    DeviceList,
    Device,
    Context,
    ProtectionDomain,
    Buffer,
    MemoryRegion,
    CompletionQueue,
    QueuePair,
}

/// What every message of a program starts with.
pub open spec fn prefix(role: Role) -> Seq<char> {
    match role {
        Role::Client => "[客户端] "@,
        Role::Server => "[服务端] "@,
    }
}

/// The message with which a program stops when a check fails.
pub open spec fn check_failed(role: Role, msg: Seq<char>) -> Seq<char> {
    match role {
        Role::Client => "[客户端] 错误: "@ + msg,
        Role::Server => "[服务端] 错误: "@ + msg,
    }
}

/// What is wrong where a handle is missing.
pub open spec fn handle_missing(role: Role, handle: Handle) -> Seq<char> {
    match handle {
        Handle::DeviceList => match role {
            Role::Client => "ibv_get_device_list 失败"@,
            Role::Server => "ibv_get_device_list 失败 (无 RDMA 设备?)"@,
        },
        Handle::Device => "没有可用的 RDMA 设备"@,
        Handle::Context => "ibv_open_device 失败"@,
        Handle::ProtectionDomain => "ibv_alloc_pd 失败"@,
        Handle::Buffer => "alloc 失败"@,
        Handle::MemoryRegion => "ibv_reg_mr 失败"@,
        Handle::CompletionQueue => "ibv_create_cq 失败"@,
        Handle::QueuePair => "ibv_create_qp 失败"@,
    }
}

/// `r` lets the program go on where `cond` holds, and otherwise stops it with
/// the message.
pub open spec fn stops_unless(r: Result<(), String>, cond: bool, message: Seq<char>) -> bool {
    match r {
        Ok(_) => cond,
        Err(m) => !cond && m@ == message,
    }
}

/// Stops the client, with its prefix before `msg`, where `cond` does not hold.
pub fn cli_check(cond: bool, msg: &str) -> (r: Result<(), String>)
    ensures
        stops_unless(r, cond, check_failed(Role::Client, msg@)),
        cond ==> r is Ok,
        !cond ==> (r matches Err(m) && m@ == "[客户端] 错误: "@ + msg@),
{
    if cond {
        Ok(())
    } else {
        Err(text::joined("[客户端] 错误: ", msg))
    }
}

/// Stops the server, with its prefix before `msg`, where `cond` does not hold.
pub fn srv_check(cond: bool, msg: &str) -> (r: Result<(), String>)
    ensures
        stops_unless(r, cond, check_failed(Role::Server, msg@)),
        cond ==> r is Ok,
        !cond ==> (r matches Err(m) && m@ == "[服务端] 错误: "@ + msg@),
{
    if cond {
        Ok(())
    } else {
        Err(text::joined("[服务端] 错误: ", msg))
    }
}

/// Stops the program where a call handed back no handle.
pub fn handle_check(role: Role, handle: Handle, present: bool) -> (r: Result<(), String>)
    ensures
        stops_unless(r, present, check_failed(role, handle_missing(role, handle))),
        present ==> r is Ok,
        !present ==> (r matches Err(m) && m@ == check_failed(role, handle_missing(role, handle))),
{
    let msg: &str = match handle {
        Handle::DeviceList => match role {
            Role::Client => "ibv_get_device_list 失败",
            Role::Server => "ibv_get_device_list 失败 (无 RDMA 设备?)",
        },
        Handle::Device => "没有可用的 RDMA 设备",
        Handle::Context => "ibv_open_device 失败",
        Handle::ProtectionDomain => "ibv_alloc_pd 失败",
        Handle::Buffer => "alloc 失败",
        Handle::MemoryRegion => "ibv_reg_mr 失败",
        Handle::CompletionQueue => "ibv_create_cq 失败",
        Handle::QueuePair => "ibv_create_qp 失败",
    };
    match role {
        Role::Client => cli_check(present, msg),
        Role::Server => srv_check(present, msg),
    }
}

/// Stops the program where a state transition of the queue pair failed, with
/// the error behind the program's prefix.
pub fn transition_check(role: Role, outcome: Result<(), String>) -> (r: Result<(), String>)
    ensures
        match outcome {
            Ok(_) => r is Ok,
            Err(error) => r is Err && r->Err_0@ == prefix(role) + error@,
        },
        outcome matches Err(error) ==> (r matches Err(m) && m@ == match role {
            Role::Client => "[客户端] "@ + error@,
            Role::Server => "[服务端] "@ + error@,
        }),
{
    match outcome {
        Ok(_) => Ok(()),
        Err(error) => Err(
            match role {
                Role::Client => text::joined("[客户端] ", error.as_str()),
                Role::Server => text::joined("[服务端] ", error.as_str()),
            },
        ),
    }
}

/// The address of the server that the client is started with, the second of its
/// arguments; without one, how the client is to be started.
pub fn client_target(args: &Vec<String>) -> (r: Result<String, String>)
    requires
        args@.len() >= 1,
    ensures
        match r {
            Ok(target) => args@.len() >= 2 && target@ == args@[1]@,
            Err(usage) => args@.len() < 2 && usage@ == "用法: "@ + args@[0]@ + " <服务端IP>"@,
        },
{
    if args.len() < 2 {
        let mut usage = text::joined("用法: ", args[0].as_str());
        usage.append(" <服务端IP>");
        Err(usage)
    } else {
        Ok(args[1].clone())
    }
}

/// A program goes on exactly where the condition holds, and otherwise stops with
/// exactly the message.
pub proof fn law_stops_unless(r: Result<(), String>, cond: bool, message: Seq<char>)
    ensures
        stops_unless(r, cond, message) ==> (r is Ok <==> cond),
        stops_unless(r, cond, message) && r is Err ==> r->Err_0@ == message,
        r is Ok && cond ==> stops_unless(r, cond, message),
        r is Err && !cond && r->Err_0@ == message ==> stops_unless(r, cond, message),
{
}

/// The message of a failed check is what went wrong, whole and unchanged, behind
/// the prefix of the program and the word for an error.
pub proof fn law_check_message(role: Role, msg: Seq<char>)
    ensures
        check_failed(role, msg).subrange(
            0,
            check_failed(role, msg).len() - msg.len(),
        ) == match role {
            Role::Client => "[客户端] 错误: "@,
            Role::Server => "[服务端] 错误: "@,
        },
        check_failed(role, msg).skip(check_failed(role, msg).len() - msg.len()) == msg,
        prefix(role) == match role {
            Role::Client => "[客户端] "@,
            Role::Server => "[服务端] "@,
        },
        prefix(role).is_prefix_of(check_failed(role, msg)),
{
    reveal_strlit("[客户端] 错误: ");
    reveal_strlit("[服务端] 错误: ");
    reveal_strlit("[客户端] ");
    reveal_strlit("[服务端] ");
    let whole = check_failed(role, msg);
    let head = match role {
        Role::Client => "[客户端] 错误: "@,
        Role::Server => "[服务端] 错误: "@,
    };
    assert(whole =~= head + msg);
    assert(whole.subrange(0, whole.len() - msg.len()) =~= head);
    assert(whole.skip(whole.len() - msg.len()) =~= msg);
}

/// The messages for two different missing handles differ.
pub proof fn law_missing_handles_are_told_apart(role: Role, a: Handle, b: Handle)
    requires
        a != b,
    ensures
        handle_missing(role, a) != handle_missing(role, b),
{
    reveal_strlit("ibv_get_device_list 失败");
    reveal_strlit("ibv_get_device_list 失败 (无 RDMA 设备?)");
    reveal_strlit("没有可用的 RDMA 设备");
    reveal_strlit("ibv_open_device 失败");
    reveal_strlit("ibv_alloc_pd 失败");
    reveal_strlit("alloc 失败");
    reveal_strlit("ibv_reg_mr 失败");
    reveal_strlit("ibv_create_cq 失败");
    reveal_strlit("ibv_create_qp 失败");
    let x = handle_missing(role, a);
    let y = handle_missing(role, b);
    assert(x.len() != y.len() || x[0] != y[0] || x[4] != y[4] || x[11] != y[11]);
}

} // verus!
