use rust_rdma::report::Role;
use rust_rdma::session::{Session, Step};

fn steps_of(role: Role) -> Vec<Step> {
    let mut session = Session::new(role);
    let mut steps: Vec<Step> = Vec::new();
    while let Some(step) = session.current() {
        steps.push(step);
        session.advance();
    }
    session.advance();
    assert_eq!(session.current(), None);
    steps
}

fn place(steps: &Vec<Step>, step: Step) -> usize {
    let places: Vec<usize> = (0..steps.len()).filter(|&i| steps[i] == step).collect();
    assert_eq!(places.len(), 1);
    places[0]
}

#[test]
fn client_follows_its_plan() {
    assert_eq!(
        steps_of(Role::Client),
        vec![
            Step::Connect,
            Step::ReceiveInfo,
            Step::GetDeviceList,
            Step::PickDevice,
            Step::OpenDevice,
            Step::FreeDeviceList,
            Step::AllocPd,
            Step::AllocBuffer,
            Step::RegisterMemory,
            Step::CreateCq,
            Step::CreateQp,
            Step::QpToInit,
            Step::QueryPort,
            Step::SendInfo,
            Step::CloseConnection,
            Step::QpToRtr,
            Step::QpToRts,
            Step::PostWrite,
            Step::AwaitCompletion,
            Step::DestroyQp,
            Step::DestroyCq,
            Step::DeregisterMemory,
            Step::DeallocPd,
            Step::CloseDevice,
            Step::FreeBuffer,
        ]
    );
}

#[test]
fn server_follows_its_plan() {
    assert_eq!(
        steps_of(Role::Server),
        vec![
            Step::GetDeviceList,
            Step::PickDevice,
            Step::OpenDevice,
            Step::FreeDeviceList,
            Step::AllocPd,
            Step::AllocBuffer,
            Step::RegisterMemory,
            Step::CreateCq,
            Step::CreateQp,
            Step::QpToInit,
            Step::QueryPort,
            Step::Listen,
            Step::Accept,
            Step::SendInfo,
            Step::ReceiveInfo,
            Step::CloseConnection,
            Step::CloseListener,
            Step::QpToRtr,
            Step::QpToRts,
            Step::WatchMemory,
            Step::DestroyQp,
            Step::DestroyCq,
            Step::DeregisterMemory,
            Step::FreeBuffer,
            Step::DeallocPd,
            Step::CloseDevice,
        ]
    );
}

#[test]
fn everything_acquired_is_released() {
    let pairs = vec![
        (Step::GetDeviceList, Step::FreeDeviceList),
        (Step::OpenDevice, Step::CloseDevice),
        (Step::AllocPd, Step::DeallocPd),
        (Step::AllocBuffer, Step::FreeBuffer),
        (Step::RegisterMemory, Step::DeregisterMemory),
        (Step::CreateCq, Step::DestroyCq),
        (Step::CreateQp, Step::DestroyQp),
    ];
    for steps in vec![steps_of(Role::Client), steps_of(Role::Server)] {
        for (acquire, release) in &pairs {
            assert!(place(&steps, *acquire) < place(&steps, *release));
        }
    }
    let client = steps_of(Role::Client);
    assert!(place(&client, Step::Connect) < place(&client, Step::CloseConnection));
    let server = steps_of(Role::Server);
    assert!(place(&server, Step::Accept) < place(&server, Step::CloseConnection));
    assert!(place(&server, Step::Listen) < place(&server, Step::CloseListener));
}

#[test]
fn queue_pair_is_brought_up_in_order() {
    for steps in vec![steps_of(Role::Client), steps_of(Role::Server)] {
        let states = vec![
            place(&steps, Step::CreateQp),
            place(&steps, Step::QpToInit),
            place(&steps, Step::QpToRtr),
            place(&steps, Step::QpToRts),
            place(&steps, Step::DestroyQp),
        ];
        let mut sorted = states.clone();
        sorted.sort();
        assert_eq!(states, sorted);
    }
}

#[test]
fn parameters_are_exchanged_in_matching_order() {
    let client = steps_of(Role::Client);
    let server = steps_of(Role::Server);
    assert!(place(&client, Step::ReceiveInfo) < place(&client, Step::SendInfo));
    assert!(place(&server, Step::SendInfo) < place(&server, Step::ReceiveInfo));
}
