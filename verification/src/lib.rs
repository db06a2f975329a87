//! The verified logic of a demonstration of RDMA Write between two machines.
//!
//! A server registers memory and a client writes into it. Before that, they
//! exchange the parameters of their ends of the connection over TCP. This crate
//! makes every decision on the way: it lays the parameters out for the wire,
//! drives partial socket transfers to their end, orders the steps of both
//! programs, prepares what is written, and judges and reports what came of each
//! call. It performs no input or output; the programs around it do.

pub mod byte_order;
pub mod completion;
pub mod conn_info;
pub mod payload;
pub mod report;
pub mod session;
pub mod text;
pub mod transfer;
pub mod verbs;
pub mod watch;

pub use conn_info::{ConnInfo, CONTROL_PORT};
pub use report::{cli_check, srv_check};
pub use transfer::{tcp_recv_exact_step, tcp_send_all_step};
pub use verbs::{get_lid, get_port_mtu};
