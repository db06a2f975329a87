use rust_rdma::completion::{completion_check, poll_step, PollStep, MAX_EMPTY_POLLS};
use rust_rdma::report::{
    client_target, handle_check, transition_check, Handle, Role,
};
use rust_rdma::text::{decimal_text, hex_text, joined};
use rust_rdma::verbs::{post_send_check, PortAttr};
use rust_rdma::{cli_check, get_lid, get_port_mtu, srv_check};

#[test]
fn checks_pass_where_the_condition_holds() {
    assert_eq!(cli_check(true, "x"), Ok(()));
    assert_eq!(srv_check(true, "x"), Ok(()));
    assert_eq!(handle_check(Role::Client, Handle::QueuePair, true), Ok(()));
    assert_eq!(transition_check(Role::Server, Ok(())), Ok(()));
    assert_eq!(post_send_check(0), Ok(()));
    assert_eq!(completion_check(true, None), Ok(()));
}

#[test]
fn checks_fail_with_the_prefix_of_the_program() {
    assert_eq!(
        cli_check(false, "ibv_reg_mr 失败"),
        Err("[客户端] 错误: ibv_reg_mr 失败".to_string())
    );
    assert_eq!(
        srv_check(false, "alloc 失败"),
        Err("[服务端] 错误: alloc 失败".to_string())
    );
    assert_eq!(
        transition_check(Role::Client, Err("oops".to_string())),
        Err("[客户端] oops".to_string())
    );
    assert_eq!(
        transition_check(Role::Server, Err("oops".to_string())),
        Err("[服务端] oops".to_string())
    );
}

#[test]
fn missing_handles_are_named() {
    let named = vec![
        (Handle::Device, "没有可用的 RDMA 设备"),
        (Handle::Context, "ibv_open_device 失败"),
        (Handle::ProtectionDomain, "ibv_alloc_pd 失败"),
        (Handle::Buffer, "alloc 失败"),
        (Handle::MemoryRegion, "ibv_reg_mr 失败"),
        (Handle::CompletionQueue, "ibv_create_cq 失败"),
        (Handle::QueuePair, "ibv_create_qp 失败"),
    ];
    for (handle, message) in named {
        assert_eq!(
            handle_check(Role::Client, handle, false),
            Err(format!("[客户端] 错误: {}", message))
        );
        assert_eq!(
            handle_check(Role::Server, handle, false),
            Err(format!("[服务端] 错误: {}", message))
        );
    }
    assert_eq!(
        handle_check(Role::Client, Handle::DeviceList, false),
        Err("[客户端] 错误: ibv_get_device_list 失败".to_string())
    );
    assert_eq!(
        handle_check(Role::Server, Handle::DeviceList, false),
        Err("[服务端] 错误: ibv_get_device_list 失败 (无 RDMA 设备?)".to_string())
    );
}

#[test]
fn client_needs_a_target() {
    let alone = vec!["rdma_client".to_string()];
    assert_eq!(
        client_target(&alone),
        Err("用法: rdma_client <服务端IP>".to_string())
    );
    let given = vec!["rdma_client".to_string(), "10.0.0.1".to_string()];
    assert_eq!(client_target(&given), Ok("10.0.0.1".to_string()));
}

#[test]
fn port_query_gives_the_attributes() {
    let attr = PortAttr {
        lid: 17,
        active_mtu: 5,
    };
    assert_eq!(get_lid(0, &attr), Ok(17));
    assert_eq!(get_port_mtu(0, &attr), Ok(5));
}

#[test]
fn failed_port_query_is_reported() {
    let attr = PortAttr {
        lid: 17,
        active_mtu: 5,
    };
    assert_eq!(
        get_lid(22, &attr),
        Err("ibv_query_port 失败, ret=22".to_string())
    );
    assert_eq!(
        get_port_mtu(-1, &attr),
        Err("ibv_query_port MTU 失败, ret=-1".to_string())
    );
}

#[test]
fn failed_post_is_reported() {
    assert_eq!(
        post_send_check(12),
        Err("[客户端] 错误: ibv_post_send 失败, ret=12".to_string())
    );
}

#[test]
fn failed_completion_is_reported() {
    assert_eq!(
        completion_check(false, Some(12)),
        Err("[客户端] 错误: RDMA Write 完成状态异常: Some(12)".to_string())
    );
    assert_eq!(
        completion_check(false, None),
        Err("[客户端] 错误: RDMA Write 完成状态异常: None".to_string())
    );
}

#[test]
fn polling_ends_with_the_first_result() {
    assert!(matches!(poll_step(0, 1), PollStep::Completed));
    assert!(matches!(
        poll_step(MAX_EMPTY_POLLS, 1),
        PollStep::Completed
    ));
    match poll_step(3, -5) {
        PollStep::Failed(message) => assert_eq!(message, "[客户端] ibv_poll_cq 错误: -5"),
        other => panic!("{:?}", other),
    }
}

#[test]
fn polling_times_out_after_five_thousand_sleeps() {
    let mut sleeps = 0;
    let mut empty_polls = 0;
    let message = loop {
        match poll_step(empty_polls, 0) {
            PollStep::Sleep { poll_count } => {
                empty_polls = poll_count;
                sleeps += 1;
            }
            PollStep::Failed(message) => break message,
            PollStep::Completed => panic!("completed"),
        }
    };
    assert_eq!(sleeps, 5000);
    assert_eq!(message, "[客户端] 轮询超时 (5s)");
}

#[test]
fn numbers_are_written_as_usual() {
    for n in vec![0i64, 7, 10, 4095, -1, -120, i64::MAX, i64::MIN] {
        assert_eq!(decimal_text(n), n.to_string());
    }
    for n in 0..=255u64 {
        assert_eq!(hex_text(n, 2), format!("{:02x}", n));
    }
    assert_eq!(hex_text(0x30, 4), "0030");
    assert_eq!(hex_text(0xfedc, 4), "fedc");
    assert_eq!(joined("a", "→"), "a→");
}
