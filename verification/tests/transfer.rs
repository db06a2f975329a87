use rust_rdma::transfer::{transfer_start, TransferStep};
use rust_rdma::{tcp_recv_exact_step, tcp_send_all_step};

fn position(step: TransferStep) -> usize {
    match step {
        TransferStep::Call { pos } => pos,
        other => panic!("{:?}", other),
    }
}

fn failure(step: TransferStep) -> String {
    match step {
        TransferStep::Failed(message) => message,
        other => panic!("{:?}", other),
    }
}

#[test]
fn empty_buffer_needs_no_call() {
    assert!(matches!(transfer_start(0), TransferStep::Finished));
    assert_eq!(position(transfer_start(5)), 0);
}

#[test]
fn partial_sends_cover_the_buffer() {
    let buf: Vec<u8> = (0..24).collect();
    let counts = vec![1, 10, 12, 1];
    let mut sent: Vec<u8> = Vec::new();
    let mut step = transfer_start(buf.len());
    for n in counts {
        let pos = position(step);
        sent.extend_from_slice(&buf[pos..pos + n]);
        step = tcp_send_all_step(buf.len(), pos, Ok(n));
    }
    assert!(matches!(step, TransferStep::Finished));
    assert_eq!(sent, buf);
}

#[test]
fn partial_receives_fill_the_buffer() {
    let stream: Vec<u8> = (100..124).collect();
    let counts = vec![23, 1];
    let mut buf = vec![0u8; 24];
    let mut taken = 0;
    let mut step = transfer_start(buf.len());
    for n in counts {
        let pos = position(step);
        buf[pos..pos + n].copy_from_slice(&stream[taken..taken + n]);
        taken += n;
        step = tcp_recv_exact_step(buf.len(), pos, Ok(n));
    }
    assert!(matches!(step, TransferStep::Finished));
    assert_eq!(buf, stream);
}

#[test]
fn an_empty_call_is_a_disconnection() {
    assert_eq!(
        failure(tcp_send_all_step(8, 3, Ok(0))),
        "TCP 连接断开 (send=0)"
    );
    assert_eq!(
        failure(tcp_recv_exact_step(8, 3, Ok(0))),
        "TCP 连接断开 (recv=0)"
    );
}

#[test]
fn an_error_is_reported_with_its_name() {
    let error = format!("{:?}", nix::errno::Errno::EPIPE);
    assert_eq!(
        failure(tcp_send_all_step(8, 0, Err(error.clone()))),
        "send 失败: EPIPE"
    );
    assert_eq!(
        failure(tcp_recv_exact_step(8, 7, Err(error))),
        "recv 失败: EPIPE"
    );
}

#[test]
fn a_count_past_the_end_finishes() {
    assert!(matches!(
        tcp_send_all_step(8, 3, Ok(usize::MAX)),
        TransferStep::Finished
    ));
}

#[test]
fn a_transfer_of_single_bytes_takes_one_call_each() {
    let mut step = transfer_start(64);
    let mut calls = 0;
    while let TransferStep::Call { pos } = step {
        step = tcp_recv_exact_step(64, pos, Ok(1));
        calls += 1;
    }
    assert!(matches!(step, TransferStep::Finished));
    assert_eq!(calls, 64);
}

#[test]
fn what_is_sent_is_received_however_it_is_split() {
    let buf: Vec<u8> = (0..24).collect();
    let mut stream: Vec<u8> = Vec::new();
    let mut step = transfer_start(buf.len());
    while let TransferStep::Call { pos } = step {
        let n = (buf.len() - pos).min(5);
        stream.extend_from_slice(&buf[pos..pos + n]);
        step = tcp_send_all_step(buf.len(), pos, Ok(n));
    }
    assert!(matches!(step, TransferStep::Finished));
    let mut received = vec![0u8; 24];
    let mut step = transfer_start(received.len());
    while let TransferStep::Call { pos } = step {
        let n = (received.len() - pos).min(7);
        received[pos..pos + n].copy_from_slice(&stream[pos..pos + n]);
        step = tcp_recv_exact_step(received.len(), pos, Ok(n));
    }
    assert!(matches!(step, TransferStep::Finished));
    assert_eq!(received, buf);
}
