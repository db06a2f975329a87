//! The order in which the two programs do their work: what each acquires, how
//! it brings its queue pair up, when it exchanges parameters with its peer, and
//! how it releases everything again.
//!
//! The caller asks for the current step, performs it, and advances the session
//! where the step succeeded.

use crate::report::Role;
use vstd::prelude::*;

verus! {

/// One step of a program.
#[derive(Debug, Clone, Copy, PartialEq, Eq, Structural)]
pub enum Step {
    /// Connect to the control channel of the server.
    Connect,
    /// Open the control channel.
    Listen,
    /// Wait for the client to connect.
    Accept,
    /// Send the own connection parameters.
    SendInfo,
    /// Receive the connection parameters of the peer.
    ReceiveInfo,
    /// Close the connection to the peer.
    CloseConnection,
    /// Close the control channel.
    CloseListener,
    GetDeviceList,
    /// Take the first device of the list.
    PickDevice,
    OpenDevice,
    FreeDeviceList,
    AllocPd,
    /// Allocate the memory that is registered next, with its initial content.
    AllocBuffer,
    RegisterMemory,
    CreateCq,
    CreateQp,
    QpToInit,
    /// Query the identifier and the active MTU of the port.
    QueryPort,
    QpToRtr,
    QpToRts,
    /// Post the RDMA Write.
    PostWrite,
    /// Wait for the completion of the RDMA Write.
    AwaitCompletion,
    /// Wait for the peer to write to the memory.
    WatchMemory,
    DestroyQp,
    DestroyCq,
    DeregisterMemory,
    FreeBuffer,
    DeallocPd,
    CloseDevice,
}

/// The state of the queue pair.
pub enum QpState {
    /// It does not exist.
    Absent,
    Reset,
    Init,
    /// Ready to receive.
    Rtr,
    /// Ready to send.
    Rts,
}

/// What a program holds and knows.
pub struct Standing {
    pub connection: bool,
    pub listener: bool,
    pub device_list: bool,
    pub device_picked: bool,
    pub context: bool,
    pub pd: bool,
    pub buffer: bool,
    pub memory_region: bool,
    pub cq: bool,
    pub qp: QpState,
    /// A posted request has not completed yet.
    pub request_pending: bool,
    /// The attributes of the port are known.
    pub port_known: bool,
    /// The connection parameters of the peer are known.
    pub peer_known: bool,
}

impl Standing {
    /// How every program starts.
    pub open spec fn initial() -> Standing {
        Standing {
            connection: false,
            listener: false,
            device_list: false,
            device_picked: false,
            context: false,
            pd: false,
            buffer: false,
            memory_region: false,
            cq: false,
            qp: QpState::Absent,
            request_pending: false,
            port_known: false,
            peer_known: false,
        }
    }

    /// Nothing is held: no socket, no verbs object, no memory, no request.
    pub open spec fn holds_nothing(self) -> bool {
        &&& !self.connection
        &&& !self.listener
        &&& !self.device_list
        &&& !self.context
        &&& !self.pd
        &&& !self.buffer
        &&& !self.memory_region
        &&& !self.cq
        &&& self.qp is Absent
        &&& !self.request_pending
    }

    /// Whatever is held depends only on what is held too: a queue pair on its
    /// protection domain and its completion queue, a memory region on its
    /// protection domain and its memory, these on the open device, and a pending
    /// request on a queue pair that is ready to send.
    pub open spec fn dependencies_held(self) -> bool {
        &&& !(self.qp is Absent) ==> self.pd && self.cq
        &&& self.memory_region ==> self.pd && self.buffer
        &&& self.pd ==> self.context
        &&& self.cq ==> self.context
        &&& self.device_picked ==> self.device_list
        &&& self.request_pending ==> self.qp is Rts && self.memory_region
    }

    /// A step can be performed here: what it works on is there, what it acquires
    /// is not held already, nothing that is held depends on what it releases,
    /// and the queue pair is in the state that the step starts from.
    pub open spec fn allows(self, step: Step) -> bool {
        match step {
            Step::Connect => !self.connection,
            Step::Listen => !self.listener,
            Step::Accept => self.listener && !self.connection,
            Step::SendInfo => self.connection && self.port_known && self.memory_region
                && self.qp is Init,
            Step::ReceiveInfo => self.connection,
            Step::CloseConnection => self.connection,
            Step::CloseListener => self.listener && !self.connection,
            Step::GetDeviceList => !self.device_list,
            Step::PickDevice => self.device_list,
            Step::OpenDevice => self.device_list && self.device_picked && !self.context,
            Step::FreeDeviceList => self.device_list,
            Step::AllocPd => self.context && !self.pd,
            Step::AllocBuffer => !self.buffer,
            Step::RegisterMemory => self.pd && self.buffer && !self.memory_region,
            Step::CreateCq => self.context && !self.cq,
            Step::CreateQp => self.pd && self.cq && self.qp is Absent,
            Step::QpToInit => self.qp is Reset,
            Step::QueryPort => self.context,
            Step::QpToRtr => self.qp is Init && self.port_known && self.peer_known,
            Step::QpToRts => self.qp is Rtr,
            Step::PostWrite => self.qp is Rts && self.memory_region && self.peer_known
                && !self.request_pending,
            Step::AwaitCompletion => self.cq && self.request_pending,
            Step::WatchMemory => self.qp is Rts && self.memory_region,
            Step::DestroyQp => !(self.qp is Absent) && !self.request_pending,
            Step::DestroyCq => self.cq && self.qp is Absent,
            Step::DeregisterMemory => self.memory_region && !self.request_pending,
            Step::FreeBuffer => self.buffer && !self.memory_region,
            Step::DeallocPd => self.pd && !self.memory_region && self.qp is Absent,
            Step::CloseDevice => self.context && !self.pd && !self.cq,
        }
    }

    /// What a program holds and knows after a step that succeeded.
    pub open spec fn after(self, step: Step) -> Standing {
        match step {
            Step::Connect => Standing { connection: true, ..self },
            Step::Listen => Standing { listener: true, ..self },
            Step::Accept => Standing { connection: true, ..self },
            Step::SendInfo => self,
            Step::ReceiveInfo => Standing { peer_known: true, ..self },
            Step::CloseConnection => Standing { connection: false, ..self },
            Step::CloseListener => Standing { listener: false, ..self },
            Step::GetDeviceList => Standing { device_list: true, ..self },
            Step::PickDevice => Standing { device_picked: true, ..self },
            Step::OpenDevice => Standing { context: true, ..self },
            Step::FreeDeviceList => Standing { device_list: false, device_picked: false, ..self },
            Step::AllocPd => Standing { pd: true, ..self },
            Step::AllocBuffer => Standing { buffer: true, ..self },
            Step::RegisterMemory => Standing { memory_region: true, ..self },
            Step::CreateCq => Standing { cq: true, ..self },
            Step::CreateQp => Standing { qp: QpState::Reset, ..self },
            Step::QpToInit => Standing { qp: QpState::Init, ..self },
            Step::QueryPort => Standing { port_known: true, ..self },
            Step::QpToRtr => Standing { qp: QpState::Rtr, ..self },
            Step::QpToRts => Standing { qp: QpState::Rts, ..self },
            Step::PostWrite => Standing { request_pending: true, ..self },
            Step::AwaitCompletion => Standing { request_pending: false, ..self },
            Step::WatchMemory => self,
            Step::DestroyQp => Standing { qp: QpState::Absent, ..self },
            Step::DestroyCq => Standing { cq: false, ..self },
            Step::DeregisterMemory => Standing { memory_region: false, ..self },
            Step::FreeBuffer => Standing { buffer: false, ..self },
            Step::DeallocPd => Standing { pd: false, ..self },
            Step::CloseDevice => Standing { context: false, ..self },
        }
    }
}

/// The steps of the client.
pub open spec fn client_plan() -> Seq<Step> {
    seq![
        Step::Connect,
        Step::ReceiveInfo,
        Step::GetDeviceList,
        Step::PickDevice,
        Step::OpenDevice,
        Step::FreeDeviceList,
        Step::AllocPd,
        Step::AllocBuffer,
        Step::RegisterMemory,
        Step::CreateCq,
        Step::CreateQp,
        Step::QpToInit,
        Step::QueryPort,
        Step::SendInfo,
        Step::CloseConnection,
        Step::QpToRtr,
        Step::QpToRts,
        Step::PostWrite,
        Step::AwaitCompletion,
        Step::DestroyQp,
        Step::DestroyCq,
        Step::DeregisterMemory,
        Step::DeallocPd,
        Step::CloseDevice,
        Step::FreeBuffer,
    ]
}

/// The steps of the server.
pub open spec fn server_plan() -> Seq<Step> {
    seq![
        Step::GetDeviceList,
        Step::PickDevice,
        Step::OpenDevice,
        Step::FreeDeviceList,
        Step::AllocPd,
        Step::AllocBuffer,
        Step::RegisterMemory,
        Step::CreateCq,
        Step::CreateQp,
        Step::QpToInit,
        Step::QueryPort,
        Step::Listen,
        Step::Accept,
        Step::SendInfo,
        Step::ReceiveInfo,
        Step::CloseConnection,
        Step::CloseListener,
        Step::QpToRtr,
        Step::QpToRts,
        Step::WatchMemory,
        Step::DestroyQp,
        Step::DestroyCq,
        Step::DeregisterMemory,
        Step::FreeBuffer,
        Step::DeallocPd,
        Step::CloseDevice,
    ]
}

/// The steps of a program, in order.
pub open spec fn plan(role: Role) -> Seq<Step> {
    match role {
        Role::Client => client_plan(),
        Role::Server => server_plan(),
    }
}

/// Where a program stands after the first `done` steps of its plan.
pub open spec fn standing_after(role: Role, done: nat) -> Standing
    decreases done,
{
    if done == 0 {
        Standing::initial()
    } else {
        standing_after(role, (done - 1) as nat).after(plan(role)[done - 1])
    }
}

/// Goes through the plan of the client step by step, each standing following from
/// the one before it.
proof fn lemma_client_plan(k: nat)
    requires
        k < client_plan().len(),
    ensures
        standing_after(Role::Client, k).allows(plan(Role::Client)[k as int]),
        standing_after(Role::Client, client_plan().len()).holds_nothing(),
{
    assert(standing_after(Role::Client, 0).allows(plan(Role::Client)[0]));
    assert(standing_after(Role::Client, 1).allows(plan(Role::Client)[1]));
    assert(standing_after(Role::Client, 2).allows(plan(Role::Client)[2]));
    assert(standing_after(Role::Client, 3).allows(plan(Role::Client)[3]));
    assert(standing_after(Role::Client, 4).allows(plan(Role::Client)[4]));
    assert(standing_after(Role::Client, 5).allows(plan(Role::Client)[5]));
    assert(standing_after(Role::Client, 6).allows(plan(Role::Client)[6]));
    assert(standing_after(Role::Client, 7).allows(plan(Role::Client)[7]));
    assert(standing_after(Role::Client, 8).allows(plan(Role::Client)[8]));
    assert(standing_after(Role::Client, 9).allows(plan(Role::Client)[9]));
    assert(standing_after(Role::Client, 10).allows(plan(Role::Client)[10]));
    assert(standing_after(Role::Client, 11).allows(plan(Role::Client)[11]));
    assert(standing_after(Role::Client, 12).allows(plan(Role::Client)[12]));
    assert(standing_after(Role::Client, 13).allows(plan(Role::Client)[13]));
    assert(standing_after(Role::Client, 14).allows(plan(Role::Client)[14]));
    assert(standing_after(Role::Client, 15).allows(plan(Role::Client)[15]));
    assert(standing_after(Role::Client, 16).allows(plan(Role::Client)[16]));
    assert(standing_after(Role::Client, 17).allows(plan(Role::Client)[17]));
    assert(standing_after(Role::Client, 18).allows(plan(Role::Client)[18]));
    assert(standing_after(Role::Client, 19).allows(plan(Role::Client)[19]));
    assert(standing_after(Role::Client, 20).allows(plan(Role::Client)[20]));
    assert(standing_after(Role::Client, 21).allows(plan(Role::Client)[21]));
    assert(standing_after(Role::Client, 22).allows(plan(Role::Client)[22]));
    assert(standing_after(Role::Client, 23).allows(plan(Role::Client)[23]));
    assert(standing_after(Role::Client, 24).allows(plan(Role::Client)[24]));
}

/// Goes through the plan of the server step by step, each standing following from
/// the one before it.
proof fn lemma_server_plan(k: nat)
    requires
        k < server_plan().len(),
    ensures
        standing_after(Role::Server, k).allows(plan(Role::Server)[k as int]),
        standing_after(Role::Server, server_plan().len()).holds_nothing(),
{
    assert(standing_after(Role::Server, 0).allows(plan(Role::Server)[0]));
    assert(standing_after(Role::Server, 1).allows(plan(Role::Server)[1]));
    assert(standing_after(Role::Server, 2).allows(plan(Role::Server)[2]));
    assert(standing_after(Role::Server, 3).allows(plan(Role::Server)[3]));
    assert(standing_after(Role::Server, 4).allows(plan(Role::Server)[4]));
    assert(standing_after(Role::Server, 5).allows(plan(Role::Server)[5]));
    assert(standing_after(Role::Server, 6).allows(plan(Role::Server)[6]));
    assert(standing_after(Role::Server, 7).allows(plan(Role::Server)[7]));
    assert(standing_after(Role::Server, 8).allows(plan(Role::Server)[8]));
    assert(standing_after(Role::Server, 9).allows(plan(Role::Server)[9]));
    assert(standing_after(Role::Server, 10).allows(plan(Role::Server)[10]));
    assert(standing_after(Role::Server, 11).allows(plan(Role::Server)[11]));
    assert(standing_after(Role::Server, 12).allows(plan(Role::Server)[12]));
    assert(standing_after(Role::Server, 13).allows(plan(Role::Server)[13]));
    assert(standing_after(Role::Server, 14).allows(plan(Role::Server)[14]));
    assert(standing_after(Role::Server, 15).allows(plan(Role::Server)[15]));
    assert(standing_after(Role::Server, 16).allows(plan(Role::Server)[16]));
    assert(standing_after(Role::Server, 17).allows(plan(Role::Server)[17]));
    assert(standing_after(Role::Server, 18).allows(plan(Role::Server)[18]));
    assert(standing_after(Role::Server, 19).allows(plan(Role::Server)[19]));
    assert(standing_after(Role::Server, 20).allows(plan(Role::Server)[20]));
    assert(standing_after(Role::Server, 21).allows(plan(Role::Server)[21]));
    assert(standing_after(Role::Server, 22).allows(plan(Role::Server)[22]));
    assert(standing_after(Role::Server, 23).allows(plan(Role::Server)[23]));
    assert(standing_after(Role::Server, 24).allows(plan(Role::Server)[24]));
    assert(standing_after(Role::Server, 25).allows(plan(Role::Server)[25]));
}

/// A program performs each step of its plan only where the step can be
/// performed.
pub proof fn law_plan_is_allowed(role: Role, k: nat)
    requires
        k < plan(role).len(),
    ensures
        standing_after(role, k).allows(plan(role)[k as int]),
{
    match role {
        Role::Client => lemma_client_plan(k),
        Role::Server => lemma_server_plan(k),
    }
}

/// A program that has performed its whole plan has released everything that it
/// had acquired.
pub proof fn law_nothing_is_leaked(role: Role)
    ensures
        standing_after(role, plan(role).len()).holds_nothing(),
{
    match role {
        Role::Client => lemma_client_plan(0),
        Role::Server => lemma_server_plan(0),
    }
}

/// At every moment, whatever a program holds depends only on what it holds too.
pub proof fn law_dependencies_are_held(role: Role, k: nat)
    requires
        k <= plan(role).len(),
    ensures
        standing_after(role, k).dependencies_held(),
    decreases k,
{
    if k > 0 {
        law_dependencies_are_held(role, (k - 1) as nat);
        law_plan_is_allowed(role, (k - 1) as nat);
    }
}

/// A queue pair comes into being in the state RESET and moves only from there to
/// INIT, from INIT to ready to receive, and from ready to receive to ready to
/// send, until it is destroyed.
pub proof fn law_queue_pair_states(standing: Standing, step: Step)
    requires
        standing.allows(step),
    ensures
        match standing.after(step).qp {
            QpState::Absent => standing.qp is Absent || step is DestroyQp,
            QpState::Reset => standing.qp is Reset || standing.qp is Absent,
            QpState::Init => standing.qp is Init || standing.qp is Reset,
            QpState::Rtr => standing.qp is Rtr || standing.qp is Init,
            QpState::Rts => standing.qp is Rts || standing.qp is Rtr,
        },
{
}

/// A step that exchanges connection parameters with the peer.
pub open spec fn exchanges(step: Step) -> bool {
    step is SendInfo || step is ReceiveInfo
}

/// Each side sends its parameters once and receives those of the other once. The
/// server sends first and the client receives first, so that neither waits for
/// the other in vain.
pub proof fn law_exchange_is_matched()
    ensures
        client_plan().filter(|step: Step| exchanges(step)) == seq![
            Step::ReceiveInfo,
            Step::SendInfo,
        ],
        server_plan().filter(|step: Step| exchanges(step)) == seq![
            Step::SendInfo,
            Step::ReceiveInfo,
        ],
{
    reveal_with_fuel(Seq::<_>::filter, 27);
}

fn client_steps() -> (steps: Vec<Step>)
    ensures
        steps@ == client_plan(),
{
    let steps: Vec<Step> = vec![
        Step::Connect,
        Step::ReceiveInfo,
        Step::GetDeviceList,
        Step::PickDevice,
        Step::OpenDevice,
        Step::FreeDeviceList,
        Step::AllocPd,
        Step::AllocBuffer,
        Step::RegisterMemory,
        Step::CreateCq,
        Step::CreateQp,
        Step::QpToInit,
        Step::QueryPort,
        Step::SendInfo,
        Step::CloseConnection,
        Step::QpToRtr,
        Step::QpToRts,
        Step::PostWrite,
        Step::AwaitCompletion,
        Step::DestroyQp,
        Step::DestroyCq,
        Step::DeregisterMemory,
        Step::DeallocPd,
        Step::CloseDevice,
        Step::FreeBuffer,
    ];
    assert(steps@ =~= client_plan());
    steps
}

fn server_steps() -> (steps: Vec<Step>)
    ensures
        steps@ == server_plan(),
{
    let steps: Vec<Step> = vec![
        Step::GetDeviceList,
        Step::PickDevice,
        Step::OpenDevice,
        Step::FreeDeviceList,
        Step::AllocPd,
        Step::AllocBuffer,
        Step::RegisterMemory,
        Step::CreateCq,
        Step::CreateQp,
        Step::QpToInit,
        Step::QueryPort,
        Step::Listen,
        Step::Accept,
        Step::SendInfo,
        Step::ReceiveInfo,
        Step::CloseConnection,
        Step::CloseListener,
        Step::QpToRtr,
        Step::QpToRts,
        Step::WatchMemory,
        Step::DestroyQp,
        Step::DestroyCq,
        Step::DeregisterMemory,
        Step::FreeBuffer,
        Step::DeallocPd,
        Step::CloseDevice,
    ];
    assert(steps@ =~= server_plan());
    steps
}

/// The progress of a program through its plan.
pub struct Session {
    role: Role,
    steps: Vec<Step>,
    done: usize,
}

impl Session {
    /// The part that the program plays.
    pub closed spec fn role(self) -> Role {
        self.role
    }

    /// The number of steps that the program has performed.
    pub closed spec fn done(self) -> nat {
        self.done as nat
    }

    /// What the program holds and knows.
    pub open spec fn standing(self) -> Standing {
        standing_after(self.role(), self.done())
    }

    #[verifier::type_invariant]
    spec fn follows_plan(self) -> bool {
        &&& self.steps@ == plan(self.role)
        &&& self.done <= self.steps@.len()
    }

    /// A program that has done nothing yet.
    pub fn new(role: Role) -> (session: Session)
        ensures
            session.role() == role,
            session.done() == 0,
    {
        let steps: Vec<Step> = match role {
            Role::Client => client_steps(),
            Role::Server => server_steps(),
        };
        Session { role, steps, done: 0 }
    }

    /// The step that the program performs next, which can be performed where it
    /// stands; none once the plan is done, and then nothing is held any more.
    pub fn current(&self) -> (step: Option<Step>)
        ensures
            match step {
                Some(step) => {
                    &&& self.done() < plan(self.role()).len()
                    &&& step == plan(self.role())[self.done() as int]
                    &&& self.standing().allows(step)
                },
                None => {
                    &&& self.done() == plan(self.role()).len()
                    &&& self.standing().holds_nothing()
                },
            },
    {
        proof {
            use_type_invariant(self);
        }
        if self.done < self.steps.len() {
            proof {
                law_plan_is_allowed(self.role, self.done as nat);
            }
            Some(self.steps[self.done])
        } else {
            proof {
                law_nothing_is_leaked(self.role);
            }
            None
        }
    }

    /// Moves on after the current step succeeded; once the plan is done there is
    /// nothing to move on to.
    pub fn advance(&mut self)
        ensures
            final(self).role() == old(self).role(),
            old(self).done() < plan(old(self).role()).len() ==> {
                &&& final(self).done() == old(self).done() + 1
                &&& final(self).standing() == old(self).standing().after(
                    plan(old(self).role())[old(self).done() as int],
                )
            },
            old(self).done() >= plan(old(self).role()).len() ==> final(self).done() == old(
                self,
            ).done(),
    {
        proof {
            use_type_invariant(&*self);
        }
        if self.done < self.steps.len() {
            self.done = self.done + 1;
        }
    }
}

} // verus!
