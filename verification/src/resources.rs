//! What is measured (a resource) and on whose behalf (a consumer).

use vstd::prelude::*;
use vstd::string::*;
use crate::text::{decimal, u64_to_string};

verus! {

/// The physical or logical thing that a measurement observes.
#[derive(Debug)]
pub enum Resource {
    /// The whole machine on which the agent runs.
    LocalMachine,
    /// One core of one processor socket.
    Cpu { socket: u32, core: u32 },
    /// A control group of the operating system, named by its path.
    ControlGroup { path: String },
}

/// Mathematical value of a [`Resource`].
pub enum ResourceView {
    LocalMachine,
    Cpu { socket: u32, core: u32 },
    ControlGroup { path: Seq<char> },
}

/// Whoever uses the resource that a measurement observes.
#[derive(Debug)]
pub enum ResourceConsumer {
    /// The whole machine on which the agent runs.
    LocalMachine,
    /// A process of the operating system.
    Process { pid: u32 },
    /// A control group of the operating system, named by its path.
    ControlGroup { path: String },
    /// A job of a batch scheduler.
    Job { id: u64 },
}

/// Mathematical value of a [`ResourceConsumer`].
pub enum ResourceConsumerView {
    LocalMachine,
    Process { pid: u32 },
    ControlGroup { path: Seq<char> },
    Job { id: u64 },
}

impl View for Resource {
    type V = ResourceView;

    open spec fn view(&self) -> ResourceView {
        match self {
            Resource::LocalMachine => ResourceView::LocalMachine,
            Resource::Cpu { socket, core } => ResourceView::Cpu { socket: *socket, core: *core },
            Resource::ControlGroup { path } => ResourceView::ControlGroup { path: path@ },
        }
    }
}

impl View for ResourceConsumer {
    type V = ResourceConsumerView;

    open spec fn view(&self) -> ResourceConsumerView {
        match self {
            ResourceConsumer::LocalMachine => ResourceConsumerView::LocalMachine,
            ResourceConsumer::Process { pid } => ResourceConsumerView::Process { pid: *pid },
            ResourceConsumer::ControlGroup { path } => ResourceConsumerView::ControlGroup {
                path: path@,
            },
            ResourceConsumer::Job { id } => ResourceConsumerView::Job { id: *id },
        }
    }
}

impl ResourceView {
    /// The identifier of the resource within its kind; the local machine
    /// has none.
    pub open spec fn id_string(self) -> Option<Seq<char>> {
        match self {
            ResourceView::LocalMachine => None,
            ResourceView::Cpu { socket, core } => Some(
                decimal(socket as nat) + seq!['/'] + decimal(core as nat),
            ),
            ResourceView::ControlGroup { path } => Some(path),
        }
    }
}

impl ResourceConsumerView {
    /// The identifier of the consumer within its kind; the local machine
    /// has none.
    pub open spec fn id_string(self) -> Option<Seq<char>> {
        match self {
            ResourceConsumerView::LocalMachine => None,
            ResourceConsumerView::Process { pid } => Some(decimal(pid as nat)),
            ResourceConsumerView::ControlGroup { path } => Some(path),
            ResourceConsumerView::Job { id } => Some(decimal(id as nat)),
        }
    }
}

impl Clone for Resource {
    fn clone(&self) -> (r: Self)
        ensures
            r@ == self@,
    {
        match self {
            Resource::LocalMachine => Resource::LocalMachine,
            Resource::Cpu { socket, core } => Resource::Cpu { socket: *socket, core: *core },
            Resource::ControlGroup { path } => Resource::ControlGroup { path: path.clone() },
        }
    }
}

impl Clone for ResourceConsumer {
    fn clone(&self) -> (r: Self)
        ensures
            r@ == self@,
    {
        match self {
            ResourceConsumer::LocalMachine => ResourceConsumer::LocalMachine,
            ResourceConsumer::Process { pid } => ResourceConsumer::Process { pid: *pid },
            ResourceConsumer::ControlGroup { path } => ResourceConsumer::ControlGroup {
                path: path.clone(),
            },
            ResourceConsumer::Job { id } => ResourceConsumer::Job { id: *id },
        }
    }
}

impl Resource {
    /// The identifier of the resource within its kind.
    pub fn id_string(&self) -> (r: Option<String>)
        ensures
            r is Some == self@.id_string() is Some,
            r matches Some(s) ==> self@.id_string() == Some(s@),
    {
        match self {
            Resource::LocalMachine => None,
            Resource::Cpu { socket, core } => {
                proof {
                    reveal_strlit("/");
                }
                let mut s = u64_to_string(*socket as u64);
                s.append("/");
                let c = u64_to_string(*core as u64);
                s.append(c.as_str());
                Some(s)
            },
            Resource::ControlGroup { path } => Some(path.clone()),
        }
    }
}

impl ResourceConsumer {
    /// The identifier of the consumer within its kind.
    pub fn id_string(&self) -> (r: Option<String>)
        ensures
            r is Some == self@.id_string() is Some,
            r matches Some(s) ==> self@.id_string() == Some(s@),
    {
        match self {
            ResourceConsumer::LocalMachine => None,
            ResourceConsumer::Process { pid } => Some(u64_to_string(*pid as u64)),
            ResourceConsumer::ControlGroup { path } => Some(path.clone()),
            ResourceConsumer::Job { id } => Some(u64_to_string(*id)),
        }
    }
}

} // verus!
