//! What the programs ask of the verbs library and make of its answers, as plain
//! values.

use crate::conn_info;
use crate::conn_info::ConnInfo;
use crate::report;
use crate::report::Role;
use crate::text;
use vstd::prelude::*;

verus! {

/// The port of the device that both programs use.
pub const PORT_NUM: u8 = 1;

/// The number of entries of a completion queue.
pub const CQ_ENTRIES: i32 = 128;

/// The size of the memory that the server registers.
pub const MEM_SIZE: usize = 4096;

/// The size of the memory that the client registers.
pub const LOCAL_MEM_SIZE: usize = 4096;

/// The number of bytes that the client writes.
pub const DATA_SIZE: usize = 64;

/// What the programs read of the attributes of a port.
#[derive(Debug, Clone, Copy, PartialEq, Eq, Structural)]
pub struct PortAttr {
    /// The local identifier.
    pub lid: u16,
    /// The active MTU, as the verbs library enumerates it.
    pub active_mtu: u32,
}

/// The local identifier of a port, of which a query returned `ret` and filled in
/// `attr`; where `ret` is not zero, the message with which the query failed.
pub fn get_lid(ret: i32, attr: &PortAttr) -> (r: Result<u16, String>)
    ensures
        match r {
            Ok(lid) => ret == 0 && lid == attr.lid,
            Err(m) => ret != 0 && m@ == "ibv_query_port 失败, ret="@ + text::decimal(ret as int),
        },
{
    if ret == 0 {
        Ok(attr.lid)
    } else {
        Err(text::joined("ibv_query_port 失败, ret=", text::decimal_text(ret as i64).as_str()))
    }
}

/// The active MTU of a port, of which a query returned `ret` and filled in
/// `attr`; where `ret` is not zero, the message with which the query failed.
pub fn get_port_mtu(ret: i32, attr: &PortAttr) -> (r: Result<u32, String>)
    ensures
        match r {
            Ok(mtu) => ret == 0 && mtu == attr.active_mtu,
            Err(m) => ret != 0 && m@ == "ibv_query_port MTU 失败, ret="@ + text::decimal(
                ret as int,
            ),
        },
{
    if ret == 0 {
        Ok(attr.active_mtu)
    } else {
        Err(text::joined("ibv_query_port MTU 失败, ret=", text::decimal_text(ret as i64).as_str()))
    }
}

/// The ways in which memory or a queue pair may be accessed.
#[derive(Debug, Clone, Copy, PartialEq, Eq, Structural)]
pub struct Access {
    pub local_write: bool,
    pub remote_write: bool,
    pub remote_read: bool,
}

/// The access for which a program registers its memory: the client's is only
/// read from, by its own device; the server's is open to the peer.
pub open spec fn memory_access_of(role: Role) -> Access {
    match role {
        Role::Client => Access { local_write: true, remote_write: false, remote_read: false },
        Role::Server => Access { local_write: true, remote_write: true, remote_read: true },
    }
}

/// The access that a program grants through its queue pair.
pub open spec fn queue_access_of(role: Role) -> Access {
    match role {
        Role::Client => Access { local_write: false, remote_write: false, remote_read: false },
        Role::Server => Access { local_write: false, remote_write: true, remote_read: true },
    }
}

/// The access for which a program registers its memory.
pub fn memory_access(role: Role) -> (access: Access)
    ensures
        access == memory_access_of(role),
        access.local_write,
        access.remote_write == (role is Server),
        access.remote_read == (role is Server),
{
    match role {
        Role::Client => Access { local_write: true, remote_write: false, remote_read: false },
        Role::Server => Access { local_write: true, remote_write: true, remote_read: true },
    }
}

/// The access that a program grants through its queue pair.
pub fn queue_access(role: Role) -> (access: Access)
    ensures
        access == queue_access_of(role),
        !access.local_write,
        access.remote_write == (role is Server),
        access.remote_read == (role is Server),
{
    match role {
        Role::Client => Access { local_write: false, remote_write: false, remote_read: false },
        Role::Server => Access { local_write: false, remote_write: true, remote_read: true },
    }
}

/// A peer can do through the queue pair of a program only what the memory of
/// that program is registered for: the server lets the client write and read, the
/// client lets nobody in. Memory is always writable locally.
pub proof fn law_access_is_granted(role: Role)
    ensures
        queue_access_of(role).remote_write == memory_access_of(role).remote_write,
        queue_access_of(role).remote_read == memory_access_of(role).remote_read,
        queue_access_of(role).remote_write <==> role is Server,
        queue_access_of(role).remote_read <==> role is Server,
        memory_access_of(role).remote_write ==> memory_access_of(role).local_write,
        memory_access_of(role).local_write,
        !queue_access_of(role).local_write,
{
}

/// The transport of a queue pair.
#[derive(Debug, Clone, Copy, PartialEq, Eq, Structural)]
pub enum Transport {
    /// A reliable connection to one peer.
    ReliableConnection,
}

/// The transport and the size of a queue pair, and the way in which it signals
/// completions.
#[derive(Debug, Clone, Copy, PartialEq, Eq, Structural)]
pub struct QueueConfig {
    pub transport: Transport,
    /// Whether every work request of the send queue signals its completion.
    pub signal_all: bool,
    pub max_send_wr: u32,
    pub max_recv_wr: u32,
    pub max_send_sge: u32,
    pub max_recv_sge: u32,
}

/// The queue pair that both programs create.
pub fn queue_config() -> (config: QueueConfig)
    ensures
        config == (QueueConfig {
            transport: Transport::ReliableConnection,
            signal_all: true,
            max_send_wr: 32,
            max_recv_wr: 32,
            max_send_sge: 1,
            max_recv_sge: 1,
        }),
        config.max_send_wr + config.max_recv_wr <= CQ_ENTRIES,
{
    QueueConfig {
        transport: Transport::ReliableConnection,
        signal_all: true,
        max_send_wr: 32,
        max_recv_wr: 32,
        max_send_sge: 1,
        max_recv_sge: 1,
    }
}

/// What a program tells its peer, from the parameters of its own end.
pub open spec fn info_of(qp_num: u32, rkey: u32, buf_addr: u64, lid: u16) -> ConnInfo {
    ConnInfo { qp_num, rkey, buf_addr, lid, port: PORT_NUM }
}

/// What a program tells its peer of its own end of the connection.
pub fn local_info(qp_num: u32, rkey: u32, buf_addr: u64, lid: u16) -> (info: ConnInfo)
    ensures
        info == (ConnInfo { qp_num, rkey, buf_addr, lid, port: PORT_NUM }),
        info == info_of(qp_num, rkey, buf_addr, lid),
        info.port == 1,
{
    ConnInfo { qp_num, rkey, buf_addr, lid, port: PORT_NUM }
}

/// The path to the peer for which a queue pair is made ready to receive.
#[derive(Debug, Clone, Copy, PartialEq, Eq, Structural)]
pub struct Path {
    pub remote_qp_num: u32,
    pub remote_lid: u16,
    pub mtu: u32,
    pub port: u8,
}

/// The path to the peer whose parameters are `peer`.
pub open spec fn path_of(peer: ConnInfo, active_mtu: u32) -> Path {
    Path { remote_qp_num: peer.qp_num, remote_lid: peer.lid, mtu: active_mtu, port: PORT_NUM }
}

/// The path to the peer that sent `peer`, over a port with the given MTU.
pub fn path_to(peer: &ConnInfo, active_mtu: u32) -> (path: Path)
    ensures
        path == path_of(*peer, active_mtu),
        path.remote_qp_num == peer.qp_num,
        path.remote_lid == peer.lid,
        path.mtu == active_mtu,
        path.port == 1,
{
    Path { remote_qp_num: peer.qp_num, remote_lid: peer.lid, mtu: active_mtu, port: PORT_NUM }
}

/// What a work request does.
#[derive(Debug, Clone, Copy, PartialEq, Eq, Structural)]
pub enum Opcode {
    /// Writes local memory to remote memory.
    RdmaWrite,
}

/// A work request on one piece of local memory and on remote memory.
#[derive(Debug, Clone, Copy, PartialEq, Eq, Structural)]
pub struct WriteRequest {
    pub wr_id: u64,
    pub opcode: Opcode,
    /// Whether the request signals its completion.
    pub signaled: bool,
    pub local_addr: u64,
    pub length: u32,
    pub lkey: u32,
    pub remote_addr: u64,
    pub rkey: u32,
}

/// The request that writes the beginning of the client's memory to the beginning
/// of the memory that `server` names.
pub open spec fn request_of(server: ConnInfo, local_addr: u64, lkey: u32) -> WriteRequest {
    WriteRequest {
        wr_id: 1,
        opcode: Opcode::RdmaWrite,
        signaled: true,
        local_addr,
        length: DATA_SIZE as u32,
        lkey,
        remote_addr: server.buf_addr,
        rkey: server.rkey,
    }
}

/// The request by which the client writes the beginning of its memory, at
/// `local_addr` and registered under `lkey`, to the beginning of the memory of
/// the server that sent `server`. It stays within the memory on both sides.
pub fn write_request(server: &ConnInfo, local_addr: u64, lkey: u32) -> (request: WriteRequest)
    ensures
        request == request_of(*server, local_addr, lkey),
        request.wr_id == 1,
        request.opcode is RdmaWrite,
        request.signaled,
        request.local_addr == local_addr,
        request.length == 64,
        request.lkey == lkey,
        request.remote_addr == server.buf_addr,
        request.rkey == server.rkey,
        request.length <= LOCAL_MEM_SIZE,
        request.length <= MEM_SIZE,
{
    WriteRequest {
        wr_id: 1,
        opcode: Opcode::RdmaWrite,
        signaled: true,
        local_addr,
        length: DATA_SIZE as u32,
        lkey,
        remote_addr: server.buf_addr,
        rkey: server.rkey,
    }
}

/// What a program tells its peer over the control channel is what the peer uses:
/// the peer's path leads to the queue pair and the port of the program, and the
/// peer's request writes to the memory of the program, under its key.
pub proof fn law_announced_parameters_are_used(
    qp_num: u32,
    rkey: u32,
    buf_addr: u64,
    lid: u16,
    active_mtu: u32,
    local_addr: u64,
    lkey: u32,
    align: nat,
)
    ensures
        ({
            let announced = info_of(qp_num, rkey, buf_addr, lid);
            let received = ConnInfo::carried_by(announced.wire(align));
            let path = path_of(received, active_mtu);
            let request = request_of(received, local_addr, lkey);
            &&& path.remote_qp_num == qp_num
            &&& path.remote_lid == lid
            &&& path.port == announced.port
            &&& path.mtu == active_mtu
            &&& request.local_addr == local_addr
            &&& request.lkey == lkey
            &&& request.remote_addr == buf_addr
            &&& request.rkey == rkey
        }),
{
    conn_info::law_wire_read_back(info_of(qp_num, rkey, buf_addr, lid), align);
}

/// The path that a program takes to its peer is the peer's own queue pair and
/// port identifier, over the MTU that its own port is active with, whatever these
/// are.
pub proof fn law_path_follows_peer_and_port(peer: ConnInfo, active_mtu: u32)
    ensures
        path_of(peer, active_mtu).mtu == active_mtu,
        path_of(peer, active_mtu).remote_qp_num == peer.qp_num,
        path_of(peer, active_mtu).remote_lid == peer.lid,
        path_of(peer, active_mtu).port == 1,
{
}

/// The request reads exactly the 64 bytes from the given local address on, under
/// the given local key, and writes them from the address of the server on, under
/// the key of the server, whatever these are.
pub proof fn law_request_moves_given_memory(server: ConnInfo, local_addr: u64, lkey: u32)
    ensures
        request_of(server, local_addr, lkey).local_addr == local_addr,
        request_of(server, local_addr, lkey).lkey == lkey,
        request_of(server, local_addr, lkey).length == 64,
        request_of(server, local_addr, lkey).remote_addr == server.buf_addr,
        request_of(server, local_addr, lkey).rkey == server.rkey,
        request_of(server, local_addr, lkey).opcode is RdmaWrite,
        request_of(server, local_addr, lkey).signaled,
        request_of(server, local_addr, lkey).wr_id == 1,
{
}

/// What the programs are sized for: the port, the completion queue, the memory on
/// both sides and the data that is written.
pub proof fn law_sizes()
    ensures
        PORT_NUM == 1,
        CQ_ENTRIES == 128,
        MEM_SIZE == 4096,
        LOCAL_MEM_SIZE == 4096,
        DATA_SIZE == 64,
{
}

/// Stops the client where posting its request returned anything but zero.
pub fn post_send_check(ret: i32) -> (r: Result<(), String>)
    ensures
        report::stops_unless(
            r,
            ret == 0,
            report::check_failed(
                Role::Client,
                "ibv_post_send 失败, ret="@ + text::decimal(ret as int),
            ),
        ),
        ret == 0 ==> r is Ok,
        ret != 0 ==> (r matches Err(m) && m@ == "[客户端] 错误: "@ + (
        "ibv_post_send 失败, ret="@ + text::decimal(ret as int))),
{
    let msg = text::joined("ibv_post_send 失败, ret=", text::decimal_text(ret as i64).as_str());
    report::cli_check(ret == 0, msg.as_str())
}

} // verus!
