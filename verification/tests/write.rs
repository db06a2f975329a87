use rust_rdma::payload::{fill_memory, local_buffer, FOOTER, MESSAGE};
use rust_rdma::report::Role;
use rust_rdma::verbs::{
    local_info, memory_access, path_to, queue_access, queue_config, write_request, Access, Opcode,
    Path, QueueConfig, Transport, WriteRequest, DATA_SIZE, LOCAL_MEM_SIZE, MEM_SIZE,
};
use rust_rdma::watch::{
    change_report, expiry_notice, hex_dump, watch_step, WatchStep, FILL_BYTE, WATCH_SECONDS,
};
use rust_rdma::ConnInfo;

#[test]
fn local_buffer_holds_message_and_cut_footer() {
    let buf = local_buffer();
    assert_eq!(buf.len(), LOCAL_MEM_SIZE);
    assert_eq!(&buf[..61], MESSAGE.as_bytes());
    assert_eq!(&buf[61..64], b"\n[E");
    assert!(buf[64..].iter().all(|&byte| byte == 0));
    assert_eq!(FOOTER, "\n[EOF]");
}

#[test]
fn memory_is_filled_as_far_as_there_is_room() {
    assert_eq!(fill_memory(b"abc", b"xy", 8, 10), b"abcxy\0\0\0\0\0".to_vec());
    assert_eq!(fill_memory(b"abc", b"xy", 4, 6), b"abcx\0\0".to_vec());
    assert_eq!(fill_memory(b"abc", b"xy", 3, 6), b"abc\0\0\0".to_vec());
    assert_eq!(fill_memory(b"abc", b"xy", 2, 6), b"ab\0\0\0\0".to_vec());
    assert_eq!(fill_memory(b"abc", b"xy", 8, 4), b"abcx".to_vec());
    assert_eq!(fill_memory(b"", b"", 8, 2), b"\0\0".to_vec());
    assert_eq!(fill_memory(b"abc", b"xy", 8, 0), Vec::<u8>::new());
}

#[test]
fn access_is_granted_to_the_client_only() {
    assert_eq!(
        memory_access(Role::Server),
        Access {
            local_write: true,
            remote_write: true,
            remote_read: true
        }
    );
    assert_eq!(
        queue_access(Role::Server),
        Access {
            local_write: false,
            remote_write: true,
            remote_read: true
        }
    );
    assert_eq!(
        memory_access(Role::Client),
        Access {
            local_write: true,
            remote_write: false,
            remote_read: false
        }
    );
    assert_eq!(
        queue_access(Role::Client),
        Access {
            local_write: false,
            remote_write: false,
            remote_read: false
        }
    );
}

#[test]
fn queue_pairs_are_small() {
    assert_eq!(
        queue_config(),
        QueueConfig {
            transport: Transport::ReliableConnection,
            signal_all: true,
            max_send_wr: 32,
            max_recv_wr: 32,
            max_send_sge: 1,
            max_recv_sge: 1
        }
    );
}

#[test]
fn announced_parameters_lead_back_to_the_server() {
    let announced = local_info(77, 0xdead, 0x7fff_0000_1000, 9);
    assert_eq!(
        announced,
        ConnInfo {
            qp_num: 77,
            rkey: 0xdead,
            buf_addr: 0x7fff_0000_1000,
            lid: 9,
            port: 1
        }
    );
    let received = ConnInfo::from_wire(&announced.to_wire());
    assert_eq!(
        path_to(&received, 4),
        Path {
            remote_qp_num: 77,
            remote_lid: 9,
            mtu: 4,
            port: 1
        }
    );
    assert_eq!(
        write_request(&received, 0x1000, 3),
        WriteRequest {
            wr_id: 1,
            opcode: Opcode::RdmaWrite,
            signaled: true,
            local_addr: 0x1000,
            length: 64,
            lkey: 3,
            remote_addr: 0x7fff_0000_1000,
            rkey: 0xdead
        }
    );
}

#[test]
fn the_write_is_noticed() {
    let mut memory = vec![FILL_BYTE; MEM_SIZE];
    assert_eq!(watch_step(0, memory[0]), WatchStep::Sleep { elapsed: 1 });
    memory[..DATA_SIZE].copy_from_slice(&local_buffer()[..DATA_SIZE]);
    assert_eq!(watch_step(1, memory[0]), WatchStep::Changed { second: 2 });
    assert_eq!(expiry_notice(memory[0]), None);
}

#[test]
fn watching_ends_after_sixty_looks() {
    let mut looks = 0;
    let mut seconds = 0;
    loop {
        looks += 1;
        match watch_step(seconds, FILL_BYTE) {
            WatchStep::Sleep { elapsed } => seconds = elapsed,
            WatchStep::Expired => break,
            WatchStep::Changed { .. } => panic!("changed"),
        }
    }
    assert_eq!(looks, WATCH_SECONDS);
    assert_eq!(watch_step(59, 0), WatchStep::Changed { second: 60 });
    assert_eq!(
        expiry_notice(FILL_BYTE),
        Some("[服务端] 未检测到内存变更 (超时 60s)".to_string())
    );
}

#[test]
fn dump_has_rows_of_sixteen() {
    let bytes: Vec<u8> = (0..18).map(|i| i * 15).collect();
    assert_eq!(
        hex_dump(&bytes),
        "[服务端]    0000: 00 0f 1e 2d 3c 4b 5a 69 78 87 96 a5 b4 c3 d2 e1 \n\
         [服务端]    0010: f0 ff "
    );
    assert_eq!(hex_dump(&[]), "");
}

#[test]
fn change_is_reported_with_a_dump() {
    let report = change_report(3, 0x48, &local_buffer()[..DATA_SIZE]);
    assert_eq!(
        report,
        "[服务端] !!! 第 3 秒检测到内存变更: 0xaa → 0x48 !!!\n\
         [服务端]    共享内存前 64 字节:\n\
         [服务端]    0000: 48 65 6c 6c 6f 20 66 72 6f 6d 20 52 44 4d 41 20 \n\
         [服务端]    0010: 43 6c 69 65 6e 74 21 20 54 68 69 73 20 64 61 74 \n\
         [服务端]    0020: 61 20 77 61 73 20 77 72 69 74 74 65 6e 20 76 69 \n\
         [服务端]    0030: 61 20 52 44 4d 41 20 57 72 69 74 65 2e 0a 5b 45 \n\
         \n\
         [服务端] ✓ RDMA Write 验证成功!\n"
    );
}
